use rend3::managers::directional::{DirectionalLightManager, MINIMUM_SHADOW_MAP_SIZE};
use rend3::types::{
    CameraState, DirectionalLight, DirectionalLightChange, Mat4Bits, RawDirectionalLightHandle,
    ScalarBits, Vec3Bits,
};

fn handle(idx: usize) -> RawDirectionalLightHandle {
    RawDirectionalLightHandle { idx }
}

fn scalar(bits: u32) -> ScalarBits {
    ScalarBits { bits }
}

fn vec3(x: u32, y: u32, z: u32) -> Vec3Bits {
    Vec3Bits { x: scalar(x), y: scalar(y), z: scalar(z) }
}

fn light(resolution: u16) -> DirectionalLight {
    DirectionalLight {
        color: vec3(1, 1, 1),
        intensity: scalar(10),
        direction: vec3(0, 0, 7),
        distance: scalar(100),
        resolution,
    }
}

fn camera(tag: u32) -> CameraState {
    let mut entries = [0u32; 16];
    entries[0] = tag;
    CameraState { view_proj: Mat4Bits { entries } }
}

#[test]
fn added_lights_are_read_back() {
    let mut mgr = DirectionalLightManager::new();
    let l = light(128);
    mgr.add(handle(0), l);
    assert_eq!(mgr.get(handle(0)), Some(l));
    assert_eq!(mgr.get(handle(1)), None);
}

#[test]
fn adding_far_beyond_the_length_grows_without_disturbing_entries() {
    let mut mgr = DirectionalLightManager::new();
    let near = light(64);
    let far = light(256);
    mgr.add(handle(3), near);
    mgr.add(handle(100), far);
    assert_eq!(mgr.get(handle(3)), Some(near));
    assert_eq!(mgr.get(handle(100)), Some(far));
    assert_eq!(mgr.get(handle(50)), None);
}

#[test]
fn removed_slots_read_as_empty() {
    let mut mgr = DirectionalLightManager::new();
    mgr.add(handle(2), light(64));
    mgr.remove(handle(2));
    assert_eq!(mgr.get(handle(2)), None);
}

#[test]
fn update_applies_the_sparse_delta_in_place() {
    let mut mgr = DirectionalLightManager::new();
    mgr.add(handle(1), light(64));
    mgr.update(
        handle(1),
        DirectionalLightChange {
            color: None,
            intensity: None,
            direction: Some(vec3(9, 9, 9)),
            distance: None,
            resolution: Some(512),
        },
    );
    let updated = mgr.get(handle(1)).expect("slot stays occupied");
    assert_eq!(updated.direction, vec3(9, 9, 9));
    assert_eq!(updated.resolution, 512);
    assert_eq!(updated.intensity, scalar(10));
}

#[test]
fn evaluate_with_no_lights_degrades_to_the_floor() {
    let mut mgr = DirectionalLightManager::new();
    let plan = mgr.evaluate(4096);
    assert_eq!(plan.atlas_size, MINIMUM_SHADOW_MAP_SIZE);
    assert_eq!(plan.atlas_size, 32);
    assert!(plan.maps.is_empty());
    assert!(!plan.recreate_texture);
}

#[test]
fn evaluate_disables_shadows_when_nothing_fits() {
    let mut mgr = DirectionalLightManager::new();
    mgr.add(handle(0), light(512));
    let plan = mgr.evaluate(256);
    assert_eq!(plan.atlas_size, MINIMUM_SHADOW_MAP_SIZE);
    assert!(plan.maps.is_empty());
}

#[test]
fn evaluate_falls_back_to_the_floor_after_a_request_overflows() {
    let mut mgr = DirectionalLightManager::new();
    mgr.add(handle(0), light(128));
    let first = mgr.evaluate(256);
    assert_eq!(first.atlas_size, 128);
    // the light now asks for more than the hardware allows: shadows are
    // disabled and the atlas drops back to the floor
    mgr.update(
        handle(0),
        DirectionalLightChange {
            color: None,
            intensity: None,
            direction: None,
            distance: None,
            resolution: Some(512),
        },
    );
    let second = mgr.evaluate(256);
    assert_eq!(second.atlas_size, MINIMUM_SHADOW_MAP_SIZE);
    assert!(second.maps.is_empty());
    assert!(second.recreate_texture);
}

#[test]
fn evaluate_recreates_the_texture_only_when_the_side_changes() {
    let mut mgr = DirectionalLightManager::new();
    mgr.add(handle(0), light(128));
    let first = mgr.evaluate(4096);
    assert!(first.recreate_texture);
    let second = mgr.evaluate(4096);
    assert_eq!(second.atlas_size, first.atlas_size);
    assert!(!second.recreate_texture);
}

#[test]
fn two_lights_share_the_atlas_end_to_end() {
    let mut mgr = DirectionalLightManager::new();
    mgr.add(handle(0), light(128));
    mgr.add(handle(1), light(128));
    let plan = mgr.evaluate(512);
    assert!(plan.atlas_size >= 128);
    assert_eq!(plan.maps.len(), 2);
    for m in &plan.maps {
        assert_eq!(m.size, 128);
        assert!(m.offset.x + m.size <= plan.atlas_size);
        assert!(m.offset.y + m.size <= plan.atlas_size);
    }
    let a = &plan.maps[0];
    let b = &plan.maps[1];
    assert_ne!(a.handle, b.handle);
    let separated = a.offset.x + a.size <= b.offset.x
        || b.offset.x + b.size <= a.offset.x
        || a.offset.y + a.size <= b.offset.y
        || b.offset.y + b.size <= a.offset.y;
    assert!(separated, "the two shadow maps overlap");

    let cameras = vec![camera(1), camera(2)];
    let maps = plan.maps.clone();
    let (descs, entries) = mgr.build_shadow_outputs(maps, plan.atlas_size, &cameras);
    assert_eq!(descs.len(), 2);
    assert_eq!(entries.len(), 2);
    for (i, desc) in descs.iter().enumerate() {
        assert_eq!(desc.map, plan.maps[i]);
        assert_eq!(desc.camera, cameras[i]);
    }
    for (i, entry) in entries.iter().enumerate() {
        assert_eq!(entry.view_proj, cameras[i].view_proj);
        assert_eq!(entry.atlas_side, plan.atlas_size);
        assert_eq!(entry.atlas_offset, plan.maps[i].offset);
        assert_eq!(entry.atlas_size, plan.maps[i].size);
        // the normalized offset and size lie in [0, 1]
        assert!(entry.atlas_offset.x + entry.atlas_size <= entry.atlas_side);
        assert!(entry.atlas_offset.y + entry.atlas_size <= entry.atlas_side);
        assert_eq!(entry.color, vec3(1, 1, 1));
        assert_eq!(entry.intensity, scalar(10));
        assert_eq!(entry.direction, vec3(0, 0, 7));
    }
}

#[test]
fn evaluate_never_mutates_light_storage() {
    let mut mgr = DirectionalLightManager::new();
    let l = light(64);
    mgr.add(handle(0), l);
    let _ = mgr.evaluate(4096);
    assert_eq!(mgr.get(handle(0)), Some(l));
}
