//! Data model of the renderer: pipeline selection, materials, submeshes,
//! models, and the vertex and per-instance records that are serialized for
//! GPU upload.
//!
//! Color components and vertex attributes are IEEE-754 single-precision
//! values; this crate holds them as their 32-bit patterns and never does
//! arithmetic on them, so their exact bytes are pinned down end to end.

use vstd::prelude::*;

verus! {

/// Bit pattern of the single-precision value 0.0.
pub const F32_BITS_ZERO: u32 = 0x0000_0000;

/// Bit pattern of the single-precision value 0.5.
pub const F32_BITS_HALF: u32 = 0x3F00_0000;

/// Bit pattern of the single-precision value 1.0.
pub const F32_BITS_ONE: u32 = 0x3F80_0000;

/// Which bind-group layout a resource belongs to.
#[derive(Clone, Copy, PartialEq, Eq, Structural, Hash, Debug)]
pub enum BindScope {
    Texture,
    Color,
}

/// The fixed GPU program a material draws with: textured if the material
/// carries a texture image, flat-colored otherwise.
#[derive(Clone, Copy, PartialEq, Eq, Structural, Hash, Debug)]
pub enum PipelineType {
    TexturedModel,
    ColoredModel,
}

/// A draw material, resolved from a parsed material description. Exactly one
/// of `color` and `filename` is meaningful, selected by `pipeline_type`.
#[derive(Clone, Debug)]
pub struct Material {
    pub pipeline_type: PipelineType,
    /// RGBA color as four single-precision bit patterns, for colored models.
    pub color: Option<[u32; 4]>,
    /// Path of the texture image, for textured models.
    pub filename: Option<String>,
}

impl Material {
    /// The payload matches the pipeline: a colored material has a color and
    /// no texture path, a textured one the reverse.
    pub open spec fn wf(&self) -> bool {
        match self.pipeline_type {
            PipelineType::ColoredModel => self.color is Some && self.filename is None,
            PipelineType::TexturedModel => self.filename is Some && self.color is None,
        }
    }

    /// The default material: flat purple (0.5, 0.0, 0.5, 1.0).
    pub fn new() -> (m: Material)
        ensures
            m.pipeline_type == PipelineType::ColoredModel,
            m.color == Some([F32_BITS_HALF, F32_BITS_ZERO, F32_BITS_HALF, F32_BITS_ONE]),
            m.filename is None,
            m.wf(),
    {
        Material {
            pipeline_type: PipelineType::ColoredModel,
            color: Some([F32_BITS_HALF, F32_BITS_ZERO, F32_BITS_HALF, F32_BITS_ONE]),
            filename: None,
        }
    }
}

/// A contiguous index range within a model's merged index buffer, drawn with
/// one material.
#[derive(Clone, Copy, PartialEq, Eq, Structural, Debug)]
pub struct Submesh {
    /// First index of the range, counted in indices from the start of the
    /// model's index region.
    pub first_index: i32,
    /// Number of indices in the range.
    pub index_count: u32,
    /// Position of the range's material in the registry's material list.
    pub material_id: usize,
}

/// A vertex record as laid out for the GPU: position, texture coordinates
/// and normal, each component a single-precision bit pattern.
#[derive(Clone, Copy, PartialEq, Eq, Debug)]
pub struct VertexData {
    pub position: [u32; 3],
    pub tex_coord: [u32; 2],
    pub normal: [u32; 3],
}

/// Bytes one vertex record occupies in the merged buffer.
pub const VERTEX_STRIDE: usize = 32;

/// One placement of a model: a 4x4 transform matrix in column-major order,
/// each element a single-precision bit pattern.
#[derive(Clone, Copy, PartialEq, Eq, Debug)]
pub struct InstanceData {
    pub model: [u32; 16],
}

/// A loaded model: the merged vertex-then-index byte buffer, the offset
/// where the index region starts, and the submesh table.
#[derive(Clone, Debug)]
pub struct Model {
    /// Contents of the model's GPU buffer: all vertex records, then all
    /// 32-bit little-endian indices.
    pub buffer: Vec<u8>,
    /// Byte offset where the index region starts in `buffer`.
    pub ebo_offset: u64,
    pub submeshes: Vec<Submesh>,
}

impl Model {
    /// Number of indices the model's index region holds.
    pub open spec fn index_total(&self) -> int {
        (self.buffer@.len() - self.ebo_offset as int) / 4
    }

    /// The buffer splits cleanly into a vertex region of whole vertex
    /// records and an index region of whole 32-bit indices, and the submesh
    /// ranges sit back to back covering the index region in load order.
    pub open spec fn wf(&self) -> bool {
        &&& self.ebo_offset as int <= self.buffer@.len()
        &&& self.ebo_offset as int % (VERTEX_STRIDE as int) == 0
        &&& (self.buffer@.len() - self.ebo_offset as int) % 4 == 0
        &&& submeshes_consecutive(self.submeshes@)
        &&& submeshes_total(self.submeshes@) == self.index_total()
    }
}

/// Each submesh starts exactly where the previous one ended, the first at
/// index 0: the ranges are disjoint and consecutive in load order.
pub open spec fn submeshes_consecutive(subs: Seq<Submesh>) -> bool {
    forall|k: int|
        0 <= k < subs.len() ==> #[trigger] subs[k].first_index == submeshes_total(
            subs.take(k),
        )
}

/// Total number of indices covered by a submesh table.
pub open spec fn submeshes_total(subs: Seq<Submesh>) -> int
    decreases subs.len(),
{
    if subs.len() == 0 {
        0
    } else {
        submeshes_total(subs.drop_last()) + subs.last().index_count
    }
}

} // verus!
