use rend3::instruction::{DeletableRawResourceHandle, InstructionKind, InstructionStreamPair};
use rend3::types::{
    DirectionalLight, DirectionalLightChange, InstructionLocation, RawDirectionalLightHandle,
    RawGraphDataHandleUntyped, RawMaterialHandle, RawMeshHandle, RawObjectHandle,
    RawPointLightHandle, RawSkeletonHandle, RawTexture2DHandle, RawTextureCubeHandle, ScalarBits,
    Vec3Bits,
};

fn loc() -> InstructionLocation {
    InstructionLocation { line: 1, column: 1 }
}

fn delete_mesh(idx: usize) -> InstructionKind {
    InstructionKind::DeleteMesh { handle: RawMeshHandle { idx } }
}

fn mesh_idx(kind: &InstructionKind) -> usize {
    match kind {
        InstructionKind::DeleteMesh { handle } => handle.idx,
        _ => panic!("expected a mesh deletion"),
    }
}

#[test]
fn push_then_swap_delivers_in_order() {
    let mut pair = InstructionStreamPair::new();
    pair.push(delete_mesh(0), loc());
    pair.push(delete_mesh(1), loc());
    pair.push(delete_mesh(2), loc());
    pair.swap();
    let drained = pair.drain_consumer();
    assert_eq!(drained.len(), 3);
    for (i, instruction) in drained.iter().enumerate() {
        assert_eq!(mesh_idx(&instruction.kind), i);
    }
}

#[test]
fn swap_empties_producer_and_keeps_batches_apart() {
    let mut pair = InstructionStreamPair::new();
    pair.push(delete_mesh(10), loc());
    pair.push(delete_mesh(11), loc());
    pair.swap();
    let first = pair.drain_consumer();
    assert_eq!(first.len(), 2);

    // the producer is empty right after the swap: a new batch holds only
    // what was pushed since
    pair.push(delete_mesh(12), loc());
    pair.swap();
    let second = pair.drain_consumer();
    assert_eq!(second.len(), 1);
    assert_eq!(mesh_idx(&second[0].kind), 12);
}

#[test]
fn swap_with_nothing_pushed_delivers_nothing() {
    let mut pair = InstructionStreamPair::new();
    pair.swap();
    assert_eq!(pair.drain_consumer().len(), 0);
}

#[test]
fn interleaved_pushes_all_land_exactly_once() {
    // two producers' batches, interleaved the way a lock might serialize
    // them: every push lands exactly once and each producer's own order is
    // kept
    let mut pair = InstructionStreamPair::new();
    let first: Vec<usize> = vec![0, 2, 4, 6];
    let second: Vec<usize> = vec![1, 3, 5, 7];
    for step in 0..4 {
        pair.push(delete_mesh(first[step]), loc());
        pair.push(delete_mesh(second[step]), loc());
    }
    pair.swap();
    let drained = pair.drain_consumer();
    assert_eq!(drained.len(), 8);
    let seen: Vec<usize> = drained.iter().map(|i| mesh_idx(&i.kind)).collect();
    let mut sorted = seen.clone();
    sorted.sort();
    assert_eq!(sorted, vec![0, 1, 2, 3, 4, 5, 6, 7]);
    let evens: Vec<usize> = seen.iter().copied().filter(|v| v % 2 == 0).collect();
    let odds: Vec<usize> = seen.iter().copied().filter(|v| v % 2 == 1).collect();
    assert_eq!(evens, vec![0, 2, 4, 6]);
    assert_eq!(odds, vec![1, 3, 5, 7]);
}

#[test]
fn pushes_during_later_frames_stay_fifo() {
    let mut pair = InstructionStreamPair::new();
    pair.push(delete_mesh(0), loc());
    pair.swap();
    // pushed after the swap: belongs to the next frame
    pair.push(delete_mesh(1), loc());
    let first = pair.drain_consumer();
    assert_eq!(first.len(), 1);
    assert_eq!(mesh_idx(&first[0].kind), 0);
    pair.swap();
    let second = pair.drain_consumer();
    assert_eq!(second.len(), 1);
    assert_eq!(mesh_idx(&second[0].kind), 1);
}

#[test]
fn every_handle_kind_converts_to_its_delete_instruction() {
    assert!(matches!(
        RawMeshHandle { idx: 1 }.into_delete_instruction_kind(),
        InstructionKind::DeleteMesh { handle: RawMeshHandle { idx: 1 } }
    ));
    assert!(matches!(
        RawSkeletonHandle { idx: 2 }.into_delete_instruction_kind(),
        InstructionKind::DeleteSkeleton { handle: RawSkeletonHandle { idx: 2 } }
    ));
    assert!(matches!(
        RawTexture2DHandle { idx: 3 }.into_delete_instruction_kind(),
        InstructionKind::DeleteTexture2D { handle: RawTexture2DHandle { idx: 3 } }
    ));
    assert!(matches!(
        RawTextureCubeHandle { idx: 4 }.into_delete_instruction_kind(),
        InstructionKind::DeleteTextureCube { handle: RawTextureCubeHandle { idx: 4 } }
    ));
    assert!(matches!(
        RawMaterialHandle { idx: 5 }.into_delete_instruction_kind(),
        InstructionKind::DeleteMaterial { handle: RawMaterialHandle { idx: 5 } }
    ));
    assert!(matches!(
        RawObjectHandle { idx: 6 }.into_delete_instruction_kind(),
        InstructionKind::DeleteObject { handle: RawObjectHandle { idx: 6 } }
    ));
    assert!(matches!(
        RawDirectionalLightHandle { idx: 7 }.into_delete_instruction_kind(),
        InstructionKind::DeleteDirectionalLight { handle: RawDirectionalLightHandle { idx: 7 } }
    ));
    assert!(matches!(
        RawPointLightHandle { idx: 8 }.into_delete_instruction_kind(),
        InstructionKind::DeletePointLight { handle: RawPointLightHandle { idx: 8 } }
    ));
    assert!(matches!(
        RawGraphDataHandleUntyped { idx: 9 }.into_delete_instruction_kind(),
        InstructionKind::DeleteGraphData { handle: RawGraphDataHandleUntyped { idx: 9 } }
    ));
}

#[test]
fn sparse_delta_changes_only_named_fields() {
    let mut light = DirectionalLight {
        color: Vec3Bits {
            x: ScalarBits { bits: 1 },
            y: ScalarBits { bits: 2 },
            z: ScalarBits { bits: 3 },
        },
        intensity: ScalarBits { bits: 4 },
        direction: Vec3Bits {
            x: ScalarBits { bits: 5 },
            y: ScalarBits { bits: 6 },
            z: ScalarBits { bits: 7 },
        },
        distance: ScalarBits { bits: 8 },
        resolution: 128,
    };
    let unchanged = light;
    light.update_from_changes(DirectionalLightChange {
        color: None,
        intensity: Some(ScalarBits { bits: 40 }),
        direction: None,
        distance: None,
        resolution: Some(512),
    });
    assert_eq!(light.color, unchanged.color);
    assert_eq!(light.intensity, ScalarBits { bits: 40 });
    assert_eq!(light.direction, unchanged.direction);
    assert_eq!(light.distance, unchanged.distance);
    assert_eq!(light.resolution, 512);
}
