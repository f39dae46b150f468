use std::io::BufReader;

use rendercore::definitions::PipelineType;
use rendercore::mesh_builder::{RawMaterial, RawMesh};
use rendercore::registry::Registry;

const TRIANGLE_OBJ: &str = "\
mtllib triangle.mtl
o Triangle
v 0.0 0.0 0.0
v 1.0 0.0 0.0
v 0.0 1.0 0.0
usemtl flat_red
f 1 2 3
";

const TRIANGLE_MTL: &str = "\
newmtl flat_red
Kd 0.8 0.2 0.1
";

/// Parses an in-memory OBJ and its companion material text the way the
/// render loop parses files from disk, handing the library plain values.
fn parse(obj_text: &str, mtl_text: &str) -> (Vec<RawMesh>, Vec<RawMaterial>) {
    let mut reader = BufReader::new(obj_text.as_bytes());
    let options = tobj::LoadOptions { triangulate: true, single_index: true, ..Default::default() };
    let (models, materials) = tobj::load_obj_buf(&mut reader, &options, |_path| {
        tobj::load_mtl_buf(&mut BufReader::new(mtl_text.as_bytes()))
    })
    .expect("obj parse failed");
    let materials = materials.expect("mtl parse failed");

    let meshes = models
        .into_iter()
        .map(|m| RawMesh {
            indices: m.mesh.indices,
            positions: m.mesh.positions.iter().map(|v| v.to_bits()).collect(),
            texcoords: m.mesh.texcoords.iter().map(|v| v.to_bits()).collect(),
            normals: m.mesh.normals.iter().map(|v| v.to_bits()).collect(),
            material_id: m.mesh.material_id,
        })
        .collect();
    let raw_materials = materials
        .into_iter()
        .map(|m| RawMaterial {
            diffuse: {
                let d = m.diffuse.expect("material without diffuse");
                [d[0].to_bits(), d[1].to_bits(), d[2].to_bits()]
            },
            diffuse_texture: m.diffuse_texture,
        })
        .collect();
    (meshes, raw_materials)
}

#[test]
fn triangle_obj_round_trips_through_the_loader() {
    let (meshes, raw_materials) = parse(TRIANGLE_OBJ, TRIANGLE_MTL);
    assert_eq!(meshes.len(), 1);
    assert_eq!(meshes[0].indices.len(), 3);

    let mut reg = Registry::new();
    let id = String::from("triangle");
    reg.load(&id, &meshes, &raw_materials);

    // Exactly one submesh spanning all three indices, with material 0.
    let model = &reg.entries[0].model;
    assert_eq!(model.submeshes.len(), 1);
    assert_eq!(model.submeshes[0].first_index, 0);
    assert_eq!(model.submeshes[0].index_count, 3);
    assert_eq!(model.submeshes[0].material_id, 0);

    // Three unique vertices, merged vertex-then-index.
    assert_eq!(model.ebo_offset, 3 * 32);
    assert_eq!(model.buffer.len(), 3 * 32 + 3 * 4);

    // The one material is flat-colored with the parsed diffuse value.
    assert_eq!(reg.materials.len(), 1);
    assert_eq!(reg.materials[0].pipeline_type, PipelineType::ColoredModel);
    assert_eq!(
        reg.materials[0].color,
        Some([0.8f32.to_bits(), 0.2f32.to_bits(), 0.1f32.to_bits(), 1.0f32.to_bits()])
    );
    assert_eq!(reg.materials[0].filename, None);
}

#[test]
fn parsed_positions_reach_the_buffer_bit_exact() {
    let (meshes, raw_materials) = parse(TRIANGLE_OBJ, TRIANGLE_MTL);
    let mut reg = Registry::new();
    let id = String::from("triangle");
    reg.load(&id, &meshes, &raw_materials);
    let model = &reg.entries[0].model;
    // Second vertex record starts at byte 32 and holds position (1, 0, 0).
    assert_eq!(&model.buffer[32..36], &1.0f32.to_le_bytes());
    assert_eq!(&model.buffer[36..40], &0.0f32.to_le_bytes());
    assert_eq!(&model.buffer[40..44], &0.0f32.to_le_bytes());
}
