use rendercore::definitions::{InstanceData, Material};
use rendercore::mesh_builder::{RawMaterial, RawMesh};
use rendercore::registry::Registry;

fn bits(vals: &[f32]) -> Vec<u32> {
    vals.iter().map(|v| v.to_bits()).collect()
}

fn quad_two_submeshes() -> Vec<RawMesh> {
    let tri = RawMesh {
        indices: vec![0, 1, 2],
        positions: bits(&[0.0, 0.0, 0.0, 1.0, 0.0, 0.0, 0.0, 1.0, 0.0]),
        texcoords: Vec::new(),
        normals: Vec::new(),
        material_id: Some(0),
    };
    let tri2 = RawMesh { material_id: Some(1), ..tri.clone() };
    vec![tri, tri2]
}

fn one_material() -> Vec<RawMaterial> {
    vec![RawMaterial { diffuse: [1, 2, 3], diffuse_texture: None }]
}

fn instance() -> InstanceData {
    InstanceData { model: [0u32; 16] }
}

#[test]
fn load_creates_fresh_record() {
    let mut reg = Registry::new();
    let id = String::from("cube");
    reg.load(&id, &quad_two_submeshes(), &one_material());
    assert_eq!(reg.entries.len(), 1);
    assert_eq!(reg.entries[0].id, "cube");
    assert_eq!(reg.entries[0].instances.len(), 0);
    assert_eq!(reg.entries[0].instance_count, 0);
    assert_eq!(reg.entries[0].buffer_capacity, 1);
    assert_eq!(reg.entries[0].model.submeshes.len(), 2);
    assert_eq!(reg.materials.len(), 1);
}

#[test]
fn load_twice_same_id_keeps_one_record() {
    let mut reg = Registry::new();
    let id = String::from("cube");
    reg.load(&id, &quad_two_submeshes(), &one_material());
    reg.set_instances(&id, vec![instance(), instance()]);
    reg.sync_buffers();
    assert_eq!(reg.entries[0].instance_count, 2);

    reg.load(&id, &quad_two_submeshes(), &one_material());
    assert_eq!(reg.entries.len(), 1);
    assert_eq!(reg.entries[0].instances.len(), 0);
    assert_eq!(reg.entries[0].instance_count, 0);
    assert_eq!(reg.entries[0].buffer_capacity, 1);
    // Materials are accumulated again on every load.
    assert_eq!(reg.materials.len(), 2);
}

#[test]
fn load_second_id_leaves_first_alone() {
    let mut reg = Registry::new();
    let a = String::from("a");
    let b = String::from("b");
    reg.load(&a, &quad_two_submeshes(), &one_material());
    reg.set_instances(&a, vec![instance()]);
    reg.load(&b, &quad_two_submeshes(), &one_material());
    assert_eq!(reg.entries.len(), 2);
    assert_eq!(reg.entries[0].id, "a");
    assert_eq!(reg.entries[0].instances.len(), 1);
    assert_eq!(reg.entries[1].id, "b");
    assert_eq!(reg.entries[1].instances.len(), 0);
}

#[test]
fn set_instances_on_unknown_id_is_ignored() {
    let mut reg = Registry::new();
    let ghost_id = String::from("never-loaded");
    reg.set_instances(&ghost_id, vec![instance()]);
    assert_eq!(reg.entries.len(), 0);
    assert_eq!(reg.draw_list().len(), 0);
}

#[test]
fn sync_allocates_exact_size_and_writes() {
    let mut reg = Registry::new();
    let id = String::from("cube");
    reg.load(&id, &quad_two_submeshes(), &one_material());
    reg.set_instances(&id, vec![instance(), instance()]);
    let actions = reg.sync_buffers();
    assert_eq!(actions.len(), 1);
    assert_eq!(actions[0].id, "cube");
    assert_eq!(actions[0].allocate, Some(128));
    let data = actions[0].data.as_ref().unwrap();
    assert_eq!(data.len(), 128);
    assert_eq!(reg.entries[0].buffer_capacity, 128);
    assert_eq!(reg.entries[0].instance_count, 2);
}

#[test]
fn sync_on_empty_sequence_writes_nothing() {
    let mut reg = Registry::new();
    let id = String::from("cube");
    reg.load(&id, &quad_two_submeshes(), &one_material());
    let actions = reg.sync_buffers();
    assert_eq!(actions.len(), 1);
    assert_eq!(actions[0].allocate, None);
    assert!(actions[0].data.is_none());
    assert_eq!(reg.entries[0].buffer_capacity, 1);
    assert_eq!(reg.entries[0].instance_count, 0);
}

#[test]
fn capacity_never_shrinks() {
    let mut reg = Registry::new();
    let id = String::from("cube");
    reg.load(&id, &quad_two_submeshes(), &one_material());

    reg.set_instances(&id, vec![instance(), instance(), instance()]);
    let a1 = reg.sync_buffers();
    assert_eq!(a1[0].allocate, Some(192));
    assert_eq!(reg.entries[0].buffer_capacity, 192);

    // Shrinking the instance count leaves the buffer at its high-water mark.
    reg.set_instances(&id, vec![instance()]);
    let a2 = reg.sync_buffers();
    assert_eq!(a2[0].allocate, None);
    assert_eq!(reg.entries[0].buffer_capacity, 192);
    assert_eq!(reg.entries[0].instance_count, 1);

    // Growing past the mark reallocates to the exact new size.
    reg.set_instances(&id, vec![instance(), instance(), instance(), instance()]);
    let a3 = reg.sync_buffers();
    assert_eq!(a3[0].allocate, Some(256));
    assert_eq!(reg.entries[0].buffer_capacity, 256);
}

#[test]
fn zero_instances_draw_nothing() {
    let mut reg = Registry::new();
    let id = String::from("cube");
    reg.load(&id, &quad_two_submeshes(), &one_material());
    reg.sync_buffers();
    let calls = reg.draw_list();
    assert_eq!(calls.len(), 0);
}

#[test]
fn draws_one_call_per_submesh_with_full_count() {
    let mut reg = Registry::new();
    let id = String::from("cube");
    reg.load(&id, &quad_two_submeshes(), &one_material());
    reg.set_instances(&id, vec![instance(), instance(), instance()]);
    reg.sync_buffers();
    let calls = reg.draw_list();
    assert_eq!(calls.len(), 2);
    assert_eq!(calls[0].id, "cube");
    assert_eq!(calls[0].first_index, 0);
    assert_eq!(calls[0].index_count, 3);
    assert_eq!(calls[0].material_id, 0);
    assert_eq!(calls[0].instance_count, 3);
    assert_eq!(calls[1].first_index, 3);
    assert_eq!(calls[1].index_count, 3);
    assert_eq!(calls[1].material_id, 1);
    assert_eq!(calls[1].instance_count, 3);
}

#[test]
fn draws_skip_unsynced_and_zero_count_ids() {
    let mut reg = Registry::new();
    let a = String::from("a");
    let b = String::from("b");
    reg.load(&a, &quad_two_submeshes(), &one_material());
    reg.load(&b, &quad_two_submeshes(), &one_material());
    reg.set_instances(&a, vec![instance()]);
    reg.sync_buffers();
    // Empty `b` again after the sync: its count is already zero.
    reg.set_instances(&b, Vec::new());
    let calls = reg.draw_list();
    assert_eq!(calls.len(), 2);
    assert!(calls.iter().all(|c| c.id == "a"));
    assert!(calls.iter().all(|c| c.instance_count == 1));
}

#[test]
fn sync_serializes_current_instances() {
    let mut reg = Registry::new();
    let id = String::from("cube");
    reg.load(&id, &quad_two_submeshes(), &one_material());
    let mut m = [0u32; 16];
    m[0] = 0xDEAD_BEEF;
    reg.set_instances(&id, vec![InstanceData { model: m }]);
    let actions = reg.sync_buffers();
    let data = actions[0].data.as_ref().unwrap();
    assert_eq!(&data[0..4], &[0xEF, 0xBE, 0xAD, 0xDE]);
    assert_eq!(&data[4..64], &[0u8; 60]);
}

#[test]
fn loaded_materials_convert_in_order() {
    let mut reg = Registry::new();
    let id = String::from("cube");
    let raw = vec![
        RawMaterial { diffuse: [7, 8, 9], diffuse_texture: None },
        RawMaterial { diffuse: [0, 0, 0], diffuse_texture: Some(String::from("t.png")) },
    ];
    reg.load(&id, &quad_two_submeshes(), &raw);
    assert_eq!(reg.materials.len(), 2);
    assert_eq!(reg.materials[0].color, Some([7, 8, 9, 1.0f32.to_bits()]));
    assert_eq!(reg.materials[1].filename, Some(String::from("t.png")));
    let _: &Material = &reg.materials[0];
}
