use rendercore::definitions::{Material, PipelineType};
use rendercore::mesh_builder::{convert_materials, ObjLoader, RawMaterial, RawMesh};

fn bits(vals: &[f32]) -> Vec<u32> {
    vals.iter().map(|v| v.to_bits()).collect()
}

fn triangle_mesh() -> RawMesh {
    RawMesh {
        indices: vec![0, 1, 2],
        positions: bits(&[0.0, 0.0, 0.0, 1.0, 0.0, 0.0, 0.0, 1.0, 0.0]),
        texcoords: Vec::new(),
        normals: Vec::new(),
        material_id: Some(0),
    }
}

#[test]
fn default_material_is_flat_purple() {
    let m = Material::new();
    assert_eq!(m.pipeline_type, PipelineType::ColoredModel);
    assert_eq!(
        m.color,
        Some([0.5f32.to_bits(), 0.0f32.to_bits(), 0.5f32.to_bits(), 1.0f32.to_bits()])
    );
    assert_eq!(m.filename, None);
}

#[test]
fn material_without_texture_becomes_colored() {
    let raw = vec![RawMaterial {
        diffuse: [0.8f32.to_bits(), 0.2f32.to_bits(), 0.1f32.to_bits()],
        diffuse_texture: None,
    }];
    let mut out: Vec<Material> = Vec::new();
    convert_materials(&raw, &mut out);
    assert_eq!(out.len(), 1);
    assert_eq!(out[0].pipeline_type, PipelineType::ColoredModel);
    assert_eq!(
        out[0].color,
        Some([0.8f32.to_bits(), 0.2f32.to_bits(), 0.1f32.to_bits(), 1.0f32.to_bits()])
    );
    assert_eq!(out[0].filename, None);
}

#[test]
fn material_with_texture_becomes_textured() {
    let raw = vec![RawMaterial {
        diffuse: [0u32, 0, 0],
        diffuse_texture: Some(String::from("cube/albedo.png")),
    }];
    let mut out: Vec<Material> = Vec::new();
    convert_materials(&raw, &mut out);
    assert_eq!(out.len(), 1);
    assert_eq!(out[0].pipeline_type, PipelineType::TexturedModel);
    assert_eq!(out[0].color, None);
    assert_eq!(out[0].filename, Some(String::from("cube/albedo.png")));
}

#[test]
fn materials_append_preserving_existing() {
    let raw = vec![RawMaterial { diffuse: [1, 2, 3], diffuse_texture: None }];
    let mut out: Vec<Material> = vec![Material::new()];
    convert_materials(&raw, &mut out);
    assert_eq!(out.len(), 2);
    assert_eq!(out[0].color, Material::new().color);
    assert_eq!(out[1].color, Some([1, 2, 3, 1.0f32.to_bits()]));
}

#[test]
fn triangle_builds_single_submesh() {
    let meshes = vec![triangle_mesh()];
    let raw_mats: Vec<RawMaterial> = Vec::new();
    let mut mats: Vec<Material> = Vec::new();
    let mut loader = ObjLoader::new();
    let model = loader.load(&meshes, &raw_mats, &mut mats);
    assert_eq!(model.submeshes.len(), 1);
    assert_eq!(model.submeshes[0].first_index, 0);
    assert_eq!(model.submeshes[0].index_count, 3);
    assert_eq!(model.submeshes[0].material_id, 0);
    // 3 vertices of 32 bytes, then 3 indices of 4 bytes
    assert_eq!(model.ebo_offset, 96);
    assert_eq!(model.buffer.len(), 108);
    assert_eq!(&model.buffer[96..100], &0u32.to_le_bytes());
    assert_eq!(&model.buffer[100..104], &1u32.to_le_bytes());
    assert_eq!(&model.buffer[104..108], &2u32.to_le_bytes());
}

#[test]
fn vertex_records_gather_positions_through_indices() {
    // Indices revisit the streams out of order; each drawn corner becomes
    // its own consecutive vertex record.
    let mesh = RawMesh {
        indices: vec![2, 0],
        positions: bits(&[10.0, 11.0, 12.0, 20.0, 21.0, 22.0, 30.0, 31.0, 32.0]),
        texcoords: Vec::new(),
        normals: Vec::new(),
        material_id: None,
    };
    let meshes = vec![mesh];
    let mut mats: Vec<Material> = Vec::new();
    let mut loader = ObjLoader::new();
    let model = loader.load(&meshes, &Vec::new(), &mut mats);
    assert_eq!(model.ebo_offset, 64);
    // First record holds the third position triple.
    assert_eq!(&model.buffer[0..4], &30.0f32.to_le_bytes());
    assert_eq!(&model.buffer[4..8], &31.0f32.to_le_bytes());
    assert_eq!(&model.buffer[8..12], &32.0f32.to_le_bytes());
    // Second record holds the first position triple.
    assert_eq!(&model.buffer[32..36], &10.0f32.to_le_bytes());
    // A missing material id falls back to the first material.
    assert_eq!(model.submeshes[0].material_id, 0);
    // Indices are rewritten consecutively.
    assert_eq!(&model.buffer[64..68], &0u32.to_le_bytes());
    assert_eq!(&model.buffer[68..72], &1u32.to_le_bytes());
}

#[test]
fn missing_texcoords_default_to_flipped_origin() {
    let meshes = vec![triangle_mesh()];
    let mut mats: Vec<Material> = Vec::new();
    let mut loader = ObjLoader::new();
    let model = loader.load(&meshes, &Vec::new(), &mut mats);
    // Vertex layout: position words 0..3, texture words 3..5, normal 5..8.
    assert_eq!(&model.buffer[12..16], &0.0f32.to_le_bytes());
    assert_eq!(&model.buffer[16..20], &1.0f32.to_le_bytes());
    // Missing normals default to zero.
    assert_eq!(&model.buffer[20..32], &[0u8; 12]);
}

#[test]
fn two_meshes_build_consecutive_submeshes() {
    let first = triangle_mesh();
    let second = RawMesh {
        indices: vec![0, 1, 2, 0, 2, 3],
        positions: bits(&[
            0.0, 0.0, 0.0, 1.0, 0.0, 0.0, 1.0, 1.0, 0.0, 0.0, 1.0, 0.0,
        ]),
        texcoords: Vec::new(),
        normals: Vec::new(),
        material_id: Some(1),
    };
    let meshes = vec![first, second];
    let mut mats: Vec<Material> = Vec::new();
    let mut loader = ObjLoader::new();
    let model = loader.load(&meshes, &Vec::new(), &mut mats);
    assert_eq!(model.submeshes.len(), 2);
    assert_eq!(model.submeshes[0].first_index, 0);
    assert_eq!(model.submeshes[0].index_count, 3);
    assert_eq!(model.submeshes[1].first_index, 3);
    assert_eq!(model.submeshes[1].index_count, 6);
    assert_eq!(model.submeshes[1].material_id, 1);
    // 9 gathered vertices in all.
    assert_eq!(model.ebo_offset, 9 * 32);
    assert_eq!(model.buffer.len(), 9 * 32 + 9 * 4);
}
