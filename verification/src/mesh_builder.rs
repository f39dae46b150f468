//! Assembly of parsed OBJ data into a loaded model: gathering vertex records
//! through the index list, re-indexing them consecutively, recording one
//! submesh per source sub-object, and merging everything into the single
//! vertex-then-index byte buffer the renderer uploads.
//!
//! The input is the parsed file as plain values: flat attribute streams whose
//! components are single-precision bit patterns. The caller parses the file
//! and applies any pre-transform, texture-coordinate flip and normal
//! normalization before handing the streams over.

use vstd::prelude::*;

use crate::definitions::{
    F32_BITS_ONE, F32_BITS_ZERO, Material, Model, PipelineType, Submesh, VertexData,
};
use crate::serialize::{
    indices_as_bytes, vertices_as_bytes, vertices_words, words_le,
};

verus! {

/// One parsed sub-object of an OBJ file: an index list over flat position,
/// texture-coordinate and normal streams, and the sub-object's material.
#[derive(Clone, Debug)]
pub struct RawMesh {
    /// Triangulated, single-indexed face indices into the streams.
    pub indices: Vec<u32>,
    /// Three words per vertex.
    pub positions: Vec<u32>,
    /// Two words per vertex; may be empty or short, missing entries default.
    pub texcoords: Vec<u32>,
    /// Three words per vertex; may be empty or short, missing entries default.
    pub normals: Vec<u32>,
    /// Position of the sub-object's material in the parsed material list.
    pub material_id: Option<usize>,
}

impl RawMesh {
    /// Every index points at a full position triple.
    pub open spec fn wf(&self) -> bool {
        forall|j: int|
            0 <= j < self.indices@.len() ==> 3 * (#[trigger] self.indices@[j] as int) + 2
                < self.positions@.len()
    }
}

/// One parsed material description: a diffuse color and an optional texture
/// image path.
#[derive(Clone, Debug)]
pub struct RawMaterial {
    /// Diffuse RGB, three single-precision bit patterns.
    pub diffuse: [u32; 3],
    /// Path of the diffuse texture image, if the material has one.
    pub diffuse_texture: Option<String>,
}

/// A parsed material resolved into a draw material: textured when it carries
/// a texture path, otherwise flat-colored with its diffuse RGB at full alpha.
pub open spec fn convert_material(rm: RawMaterial) -> Material {
    match rm.diffuse_texture {
        Some(path) => Material {
            pipeline_type: PipelineType::TexturedModel,
            color: None,
            filename: Some(path),
        },
        None => Material {
            pipeline_type: PipelineType::ColoredModel,
            color: Some([rm.diffuse[0], rm.diffuse[1], rm.diffuse[2], F32_BITS_ONE]),
            filename: None,
        },
    }
}

/// Appends the converted form of each parsed material, in order.
pub fn convert_materials(raw: &Vec<RawMaterial>, out: &mut Vec<Material>)
    ensures
        final(out)@ == old(out)@ + raw@.map_values(|rm: RawMaterial| convert_material(rm)),
{
    let mut k: usize = 0;
    while k < raw.len()
        invariant
            k <= raw@.len(),
            out@ == old(out)@ + raw@.take(k as int).map_values(
                |rm: RawMaterial| convert_material(rm),
            ),
        decreases raw@.len() - k,
    {
        let rm = &raw[k];
        let m = match &rm.diffuse_texture {
            Some(path) => Material {
                pipeline_type: PipelineType::TexturedModel,
                color: None,
                filename: Some(path.clone()),
            },
            None => Material {
                pipeline_type: PipelineType::ColoredModel,
                color: Some([rm.diffuse[0], rm.diffuse[1], rm.diffuse[2], F32_BITS_ONE]),
                filename: None,
            },
        };
        out.push(m);
        proof {
            assert(out@ =~= old(out)@ + raw@.take(k + 1).map_values(
                |rm: RawMaterial| convert_material(rm),
            ));
        }
        k = k + 1;
    }
    proof {
        assert(raw@.take(raw@.len() as int) =~= raw@);
    }
}

/// The vertex record gathered for one index value of a sub-object: the full
/// position triple, texture coordinates defaulting to (0, 1) where the
/// stream is short, and a normal defaulting to zero where the stream is
/// short.
pub open spec fn vertex_of(m: RawMesh, i: int) -> VertexData {
    VertexData {
        position: [m.positions@[3 * i], m.positions@[3 * i + 1], m.positions@[3 * i + 2]],
        tex_coord: [
            if 2 * i < m.texcoords@.len() {
                m.texcoords@[2 * i]
            } else {
                F32_BITS_ZERO
            },
            if 2 * i + 1 < m.texcoords@.len() {
                m.texcoords@[2 * i + 1]
            } else {
                F32_BITS_ONE
            },
        ],
        normal: [
            if 3 * i < m.normals@.len() {
                m.normals@[3 * i]
            } else {
                F32_BITS_ZERO
            },
            if 3 * i + 1 < m.normals@.len() {
                m.normals@[3 * i + 1]
            } else {
                F32_BITS_ZERO
            },
            if 3 * i + 2 < m.normals@.len() {
                m.normals@[3 * i + 2]
            } else {
                F32_BITS_ZERO
            },
        ],
    }
}

/// The vertex records of one sub-object, one per index, in index order.
pub open spec fn mesh_vertices(m: RawMesh) -> Seq<VertexData> {
    Seq::new(m.indices@.len(), |j: int| vertex_of(m, m.indices@[j] as int))
}

/// The vertex records of a whole parse, sub-object after sub-object.
pub open spec fn all_vertices(ms: Seq<RawMesh>) -> Seq<VertexData>
    decreases ms.len(),
{
    if ms.len() == 0 {
        Seq::empty()
    } else {
        all_vertices(ms.drop_last()) + mesh_vertices(ms.last())
    }
}

/// Extending the prefix by one sub-object appends exactly its vertices.
pub proof fn lemma_all_vertices_step(ms: Seq<RawMesh>, k: int)
    requires
        0 <= k < ms.len(),
    ensures
        all_vertices(ms.take(k + 1)) == all_vertices(ms.take(k)) + mesh_vertices(ms[k]),
{
    assert(ms.take(k + 1).drop_last() =~= ms.take(k));
    assert(ms.take(k + 1).last() == ms[k]);
}

/// A prefix never gathers more vertices than the whole parse.
pub proof fn lemma_all_vertices_prefix_len(ms: Seq<RawMesh>, k: int)
    requires
        0 <= k <= ms.len(),
    ensures
        all_vertices(ms.take(k)).len() <= all_vertices(ms).len(),
    decreases ms.len() - k,
{
    if k == ms.len() {
        assert(ms.take(k) =~= ms);
    } else {
        lemma_all_vertices_step(ms, k);
        lemma_all_vertices_prefix_len(ms, k + 1);
    }
}

/// The sub-object's material position, defaulting to the first material.
pub open spec fn material_id_or_zero(m: RawMesh) -> usize {
    match m.material_id {
        Some(id) => id,
        None => 0usize,
    }
}

/// The submesh recorded for sub-object `k`: its range starts where the
/// previous sub-object's vertices ended and covers one index per vertex.
pub open spec fn submesh_of(ms: Seq<RawMesh>, k: int) -> Submesh {
    Submesh {
        first_index: all_vertices(ms.take(k)).len() as i32,
        index_count: ms[k].indices@.len() as u32,
        material_id: material_id_or_zero(ms[k]),
    }
}

/// The index list of a loaded model: consecutive values counting every
/// gathered vertex once, in gather order.
pub open spec fn identity_indices(n: int) -> Seq<u32> {
    Seq::new(n as nat, |i: int| i as u32)
}

/// Loads parsed OBJ data into a model, appending the parse's materials to
/// the registry's material list.
pub struct ObjLoader;

impl ObjLoader {
    pub fn new() -> ObjLoader {
        ObjLoader
    }

    /// Builds the loaded model from a parsed file: gathers one vertex record
    /// per index through each sub-object's streams, re-indexes them
    /// consecutively, records one submesh per sub-object tagged with its
    /// material, and merges vertex and index bytes into one buffer with the
    /// index region's offset recorded. Appends the parse's converted
    /// materials to `materials_out`.
    pub fn load(
        &mut self,
        meshes: &Vec<RawMesh>,
        raw_materials: &Vec<RawMaterial>,
        materials_out: &mut Vec<Material>,
    ) -> (model: Model)
        requires
            forall|k: int| 0 <= k < meshes@.len() ==> (#[trigger] meshes@[k]).wf(),
            all_vertices(meshes@).len() <= i32::MAX,
            36 * all_vertices(meshes@).len() <= usize::MAX,
        ensures
            final(materials_out)@ == old(materials_out)@ + raw_materials@.map_values(
                |rm: RawMaterial| convert_material(rm),
            ),
            model.submeshes@ == Seq::new(meshes@.len(), |k: int| submesh_of(meshes@, k)),
            model.ebo_offset == 32 * all_vertices(meshes@).len(),
            model.buffer@ == words_le(vertices_words(all_vertices(meshes@))) + words_le(
                identity_indices(all_vertices(meshes@).len() as int),
            ),
            model.wf(),
    {
        convert_materials(raw_materials, materials_out);

        let ghost total: int = all_vertices(meshes@).len() as int;
        let mut vertex_data: Vec<VertexData> = Vec::new();
        let mut index_data: Vec<u32> = Vec::new();
        let mut submeshes: Vec<Submesh> = Vec::new();

        let mut k: usize = 0;
        while k < meshes.len()
            invariant
                k <= meshes@.len(),
                forall|t: int| 0 <= t < meshes@.len() ==> (#[trigger] meshes@[t]).wf(),
                total == all_vertices(meshes@).len(),
                total <= i32::MAX,
                36 * total <= usize::MAX,
                vertex_data@ == all_vertices(meshes@.take(k as int)),
                index_data@ == identity_indices(vertex_data@.len() as int),
                submeshes@.len() == k,
                forall|t: int|
                    0 <= t < k ==> #[trigger] submeshes@[t] == submesh_of(meshes@, t),
            decreases meshes@.len() - k,
        {
            let m = &meshes[k];
            let first_index: i32 = {
                proof {
                    lemma_all_vertices_prefix_len(meshes@, k as int);
                }
                index_data.len() as i32
            };

            let mut j: usize = 0;
            while j < m.indices.len()
                invariant
                    j <= m.indices@.len(),
                    m == meshes@[k as int],
                    k < meshes@.len(),
                    forall|t: int| 0 <= t < meshes@.len() ==> (#[trigger] meshes@[t]).wf(),
                    total == all_vertices(meshes@).len(),
                    total <= i32::MAX,
                    36 * total <= usize::MAX,
                    vertex_data@ == all_vertices(meshes@.take(k as int)) + mesh_vertices(
                        meshes@[k as int],
                    ).take(j as int),
                    index_data@ == identity_indices(vertex_data@.len() as int),
                decreases m.indices@.len() - j,
            {
                let plen = m.positions.len();
                proof {
                    lemma_all_vertices_step(meshes@, k as int);
                    lemma_all_vertices_prefix_len(meshes@, k as int + 1);
                    assert(meshes@[k as int].wf());
                    assert(3 * (m.indices@[j as int] as int) + 2 < m.positions@.len());
                }
                let i = m.indices[j] as usize;
                proof {
                    assert(3 * i + 2 < plen <= usize::MAX);
                }
                let t0 = if 2 * i < m.texcoords.len() {
                    m.texcoords[2 * i]
                } else {
                    F32_BITS_ZERO
                };
                let t1 = if 2 * i + 1 < m.texcoords.len() {
                    m.texcoords[2 * i + 1]
                } else {
                    F32_BITS_ONE
                };
                let n0 = if 3 * i < m.normals.len() {
                    m.normals[3 * i]
                } else {
                    F32_BITS_ZERO
                };
                let n1 = if 3 * i + 1 < m.normals.len() {
                    m.normals[3 * i + 1]
                } else {
                    F32_BITS_ZERO
                };
                let n2 = if 3 * i + 2 < m.normals.len() {
                    m.normals[3 * i + 2]
                } else {
                    F32_BITS_ZERO
                };
                let v = VertexData {
                    position: [m.positions[3 * i], m.positions[3 * i + 1], m.positions[3 * i + 2]],
                    tex_coord: [t0, t1],
                    normal: [n0, n1, n2],
                };
                proof {
                    assert(v == vertex_of(meshes@[k as int], m.indices@[j as int] as int));
                }
                vertex_data.push(v);
                index_data.push((index_data.len()) as u32);
                proof {
                    assert(vertex_data@ =~= all_vertices(meshes@.take(k as int)) + mesh_vertices(
                        meshes@[k as int],
                    ).take(j as int + 1));
                    assert(index_data@ =~= identity_indices(vertex_data@.len() as int));
                }
                j = j + 1;
            }

            proof {
                lemma_all_vertices_step(meshes@, k as int);
                lemma_all_vertices_prefix_len(meshes@, k as int + 1);
                assert(mesh_vertices(meshes@[k as int]).take(m.indices@.len() as int)
                    =~= mesh_vertices(meshes@[k as int]));
                assert(vertex_data@ =~= all_vertices(meshes@.take(k as int + 1)));
                assert(vertex_data@.len() == all_vertices(meshes@.take(k as int)).len()
                    + meshes@[k as int].indices@.len());
            }
            let index_count: u32 = (index_data.len() as i32 - first_index) as u32;
            submeshes.push(Submesh { first_index, index_count, material_id: material_id_or_zero_exec(m) });
            proof {
                assert(submeshes@[k as int] == submesh_of(meshes@, k as int));
            }
            k = k + 1;
        }

        proof {
            assert(meshes@.take(meshes@.len() as int) =~= meshes@);
            assert(submeshes@ =~= Seq::new(meshes@.len(), |t: int| submesh_of(meshes@, t)));
        }

        let vertex_bytes = vertices_as_bytes(&vertex_data);
        let index_bytes = indices_as_bytes(&index_data);
        let ebo_offset: u64 = vertex_bytes.len() as u64;

        let mut buffer = vertex_bytes;
        let mut b: usize = 0;
        while b < index_bytes.len()
            invariant
                b <= index_bytes@.len(),
                buffer@ == words_le(vertices_words(all_vertices(meshes@))) + index_bytes@.take(
                    b as int,
                ),
                index_bytes@ == words_le(identity_indices(total)),
                total == all_vertices(meshes@).len(),
                36 * total <= usize::MAX,
                index_bytes@.len() == 4 * total,
                buffer@.len() == 32 * total + b,
            decreases index_bytes@.len() - b,
        {
            buffer.push(index_bytes[b]);
            proof {
                assert(buffer@ =~= words_le(vertices_words(all_vertices(meshes@)))
                    + index_bytes@.take(b as int + 1));
            }
            b = b + 1;
        }
        proof {
            assert(index_bytes@.take(index_bytes@.len() as int) =~= index_bytes@);
        }

        let model = Model { buffer, ebo_offset, submeshes };
        proof {
            lemma_submeshes_layout(meshes@, model.submeshes@);
        }
        model
    }
}

/// Exec form of `material_id_or_zero`.
fn material_id_or_zero_exec(m: &RawMesh) -> (id: usize)
    ensures
        id == material_id_or_zero(*m),
{
    match m.material_id {
        Some(id) => id,
        None => 0,
    }
}

/// The submesh table built for a parse is consecutive and covers exactly one
/// index per gathered vertex.
proof fn lemma_submeshes_layout(ms: Seq<RawMesh>, subs: Seq<Submesh>)
    requires
        subs == Seq::new(ms.len(), |k: int| submesh_of(ms, k)),
        all_vertices(ms).len() <= i32::MAX,
    ensures
        crate::definitions::submeshes_consecutive(subs),
        crate::definitions::submeshes_total(subs) == all_vertices(ms).len(),
    decreases ms.len(),
{
    if ms.len() == 0 {
        assert(ms.take(0) =~= ms);
    } else {
        let prefix = ms.drop_last();
        let subs2 = Seq::new(prefix.len(), |k: int| submesh_of(prefix, k));
        assert forall|k: int| 0 <= k < prefix.len() implies #[trigger] subs2[k] == subs[k] by {
            assert(prefix.take(k) =~= ms.take(k));
        }
        assert(ms.take(ms.len() - 1) =~= prefix);
        lemma_all_vertices_prefix_len(ms, ms.len() - 1);
        lemma_submeshes_layout(prefix, subs2);
        assert(subs.drop_last() =~= subs2);
        assert(subs.last() == submesh_of(ms, ms.len() - 1));
        lemma_all_vertices_step(ms, ms.len() - 1);
        assert forall|k: int| 0 <= k < subs.len() implies #[trigger] subs[k].first_index
            == crate::definitions::submeshes_total(subs.take(k)) by {
            if k < subs.len() - 1 {
                assert(subs2.take(k) =~= subs.take(k));
                assert(subs2[k].first_index == crate::definitions::submeshes_total(subs2.take(k)));
            } else {
                assert(subs.take(k) =~= subs2);
            }
        }
    }
}

} // verus!
