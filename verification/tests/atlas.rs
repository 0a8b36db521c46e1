use rend3::managers::shadow_alloc::{allocate_shadow_atlas, ShadowMap};
use rend3::types::RawDirectionalLightHandle;

fn handle(idx: usize) -> RawDirectionalLightHandle {
    RawDirectionalLightHandle { idx }
}

fn overlaps(a: &ShadowMap, b: &ShadowMap) -> bool {
    let separated = a.offset.x + a.size <= b.offset.x
        || b.offset.x + b.size <= a.offset.x
        || a.offset.y + a.size <= b.offset.y
        || b.offset.y + b.size <= a.offset.y;
    !separated
}

fn assert_well_placed(maps: &[ShadowMap], side: u32) {
    for m in maps {
        assert!(m.offset.x + m.size <= side);
        assert!(m.offset.y + m.size <= side);
    }
    for i in 0..maps.len() {
        for j in (i + 1)..maps.len() {
            assert!(!overlaps(&maps[i], &maps[j]), "maps {i} and {j} overlap");
        }
    }
}

#[test]
fn three_requests_fit_a_256_atlas() {
    let lights = vec![(handle(0), 64), (handle(1), 64), (handle(2), 128)];
    let atlas = allocate_shadow_atlas(lights, 256).expect("these requests fit");
    assert!(atlas.texture_dimensions <= 256);
    assert_eq!(atlas.maps.len(), 3);
    assert_well_placed(&atlas.maps, atlas.texture_dimensions);
    // placement order is resolution descending
    assert_eq!(atlas.maps[0].size, 128);
    assert_eq!(atlas.maps[0].handle, handle(2));
    assert_eq!(atlas.maps[1].size, 64);
    assert_eq!(atlas.maps[2].size, 64);
}

#[test]
fn oversized_single_request_places_nothing() {
    let lights = vec![(handle(0), 512)];
    assert!(allocate_shadow_atlas(lights, 256).is_none());
}

#[test]
fn no_requests_place_nothing() {
    assert!(allocate_shadow_atlas(Vec::new(), 4096).is_none());
}

#[test]
fn equal_resolutions_order_by_handle_index() {
    let lights = vec![(handle(5), 64), (handle(2), 64), (handle(9), 64)];
    let atlas = allocate_shadow_atlas(lights, 256).expect("these requests fit");
    assert_eq!(atlas.maps.len(), 3);
    assert_eq!(atlas.maps[0].handle, handle(2));
    assert_eq!(atlas.maps[1].handle, handle(5));
    assert_eq!(atlas.maps[2].handle, handle(9));
    assert_well_placed(&atlas.maps, atlas.texture_dimensions);
}

#[test]
fn lowest_priority_requests_are_dropped_when_the_maximum_overflows() {
    // three full-size maps can never share a 256 atlas; the smallest
    // resolution and then the highest handle index leave first
    let lights = vec![(handle(0), 256), (handle(1), 256), (handle(2), 8)];
    let atlas = allocate_shadow_atlas(lights, 256).expect("the largest request fits alone");
    assert_eq!(atlas.texture_dimensions, 256);
    assert_eq!(atlas.maps.len(), 1);
    assert_eq!(atlas.maps[0].handle, handle(0));
    assert_eq!(atlas.maps[0].size, 256);
    assert_well_placed(&atlas.maps, atlas.texture_dimensions);
}

#[test]
fn atlas_side_grows_to_hold_the_working_set() {
    // four 64-texel maps do not fit a 64 atlas: the side doubles
    let lights = vec![
        (handle(0), 64),
        (handle(1), 64),
        (handle(2), 64),
        (handle(3), 64),
    ];
    let atlas = allocate_shadow_atlas(lights, 1024).expect("these requests fit");
    assert_eq!(atlas.texture_dimensions, 128);
    assert_eq!(atlas.maps.len(), 4);
    assert_well_placed(&atlas.maps, atlas.texture_dimensions);
}

#[test]
fn exact_offsets_follow_the_shelf_policy() {
    let lights = vec![(handle(0), 64), (handle(1), 64), (handle(2), 128)];
    let atlas = allocate_shadow_atlas(lights, 256).expect("these requests fit");
    // the 128 map opens the first shelf, the two 64 maps follow on it
    assert_eq!(atlas.texture_dimensions, 256);
    assert_eq!((atlas.maps[0].offset.x, atlas.maps[0].offset.y), (0, 0));
    assert_eq!((atlas.maps[1].offset.x, atlas.maps[1].offset.y), (128, 0));
    assert_eq!((atlas.maps[2].offset.x, atlas.maps[2].offset.y), (192, 0));
}
