//! Plain data carried by the instruction queue and the light manager.
//!
//! Scalar and matrix values belong to the renderer's numeric layer: this
//! crate stores and moves them but never computes with them, so each one is
//! carried as its raw bit pattern. Handles are stable slot indices into the
//! resource managers' sparse arrays; a handle is valid exactly while its slot
//! is occupied.

use vstd::prelude::*;

verus! {

/// One scalar of the renderer's numeric layer, carried as its raw bit
/// pattern. The device layer converts it back when it talks to the GPU.
#[derive(Clone, Copy, PartialEq, Eq, Structural, Debug)]
pub struct ScalarBits {
    pub bits: u32,
}

/// A two-component vector of texel coordinates inside the shadow atlas.
#[derive(Clone, Copy, PartialEq, Eq, Structural, Debug)]
pub struct Vec2u {
    pub x: u32,
    pub y: u32,
}

/// A three-component vector, each component a raw bit pattern.
#[derive(Clone, Copy, PartialEq, Eq, Structural, Debug)]
pub struct Vec3Bits {
    pub x: ScalarBits,
    pub y: ScalarBits,
    pub z: ScalarBits,
}

/// A column-major 4x4 matrix, each entry a raw bit pattern.
#[derive(Clone, Copy, PartialEq, Eq, Debug)]
pub struct Mat4Bits {
    pub entries: [u32; 16],
}

/// Call-site coordinates recorded on each instruction, purely for
/// diagnostics; never semantically load-bearing.
#[derive(Clone, Copy, PartialEq, Eq, Structural, Debug)]
pub struct InstructionLocation {
    pub line: u32,
    pub column: u32,
}

/// Raw handle to a mesh slot.
#[derive(Clone, Copy, PartialEq, Eq, Structural, Debug)]
pub struct RawMeshHandle {
    pub idx: usize,
}

/// Raw handle to a skeleton slot.
#[derive(Clone, Copy, PartialEq, Eq, Structural, Debug)]
pub struct RawSkeletonHandle {
    pub idx: usize,
}

/// Raw handle to a 2D texture slot.
#[derive(Clone, Copy, PartialEq, Eq, Structural, Debug)]
pub struct RawTexture2DHandle {
    pub idx: usize,
}

/// Raw handle to a cube texture slot.
#[derive(Clone, Copy, PartialEq, Eq, Structural, Debug)]
pub struct RawTextureCubeHandle {
    pub idx: usize,
}

/// Raw handle to a material slot.
#[derive(Clone, Copy, PartialEq, Eq, Structural, Debug)]
pub struct RawMaterialHandle {
    pub idx: usize,
}

/// Raw handle to an object slot.
#[derive(Clone, Copy, PartialEq, Eq, Structural, Debug)]
pub struct RawObjectHandle {
    pub idx: usize,
}

/// Raw handle to a directional-light slot.
#[derive(Clone, Copy, PartialEq, Eq, Structural, Debug)]
pub struct RawDirectionalLightHandle {
    pub idx: usize,
}

/// Raw handle to a point-light slot.
#[derive(Clone, Copy, PartialEq, Eq, Structural, Debug)]
pub struct RawPointLightHandle {
    pub idx: usize,
}

/// Raw handle to a render-graph data slot, with the slot's concrete type
/// erased.
#[derive(Clone, Copy, PartialEq, Eq, Structural, Debug)]
pub struct RawGraphDataHandleUntyped {
    pub idx: usize,
}

/// A directional light as the caller describes it.
#[derive(Clone, Copy, PartialEq, Eq, Structural, Debug)]
pub struct DirectionalLight {
    /// Color of the light.
    pub color: Vec3Bits,
    /// Constant multiplier for the color.
    pub intensity: ScalarBits,
    /// Direction the light points, in world space.
    pub direction: Vec3Bits,
    /// How far shadows reach from the camera.
    pub distance: ScalarBits,
    /// Requested side length, in texels, of this light's square shadow map.
    pub resolution: u16,
}

/// A sparse delta against a [`DirectionalLight`]: only the fields that are
/// present change.
#[derive(Clone, Copy, PartialEq, Eq, Structural, Debug)]
pub struct DirectionalLightChange {
    pub color: Option<Vec3Bits>,
    pub intensity: Option<ScalarBits>,
    pub direction: Option<Vec3Bits>,
    pub distance: Option<ScalarBits>,
    pub resolution: Option<u16>,
}

impl DirectionalLight {
    /// The light after a sparse delta: each field named by the change takes
    /// the change's value, the rest keep theirs.
    pub open spec fn with_changes(self, change: DirectionalLightChange) -> DirectionalLight {
        DirectionalLight {
            color: match change.color {
                Some(c) => c,
                None => self.color,
            },
            intensity: match change.intensity {
                Some(i) => i,
                None => self.intensity,
            },
            direction: match change.direction {
                Some(d) => d,
                None => self.direction,
            },
            distance: match change.distance {
                Some(d) => d,
                None => self.distance,
            },
            resolution: match change.resolution {
                Some(r) => r,
                None => self.resolution,
            },
        }
    }

    /// Applies a sparse delta in place.
    pub fn update_from_changes(&mut self, change: DirectionalLightChange)
        ensures
            *final(self) == old(self).with_changes(change),
    {
        match change.color {
            Some(c) => self.color = c,
            None => {},
        }
        match change.intensity {
            Some(i) => self.intensity = i,
            None => {},
        }
        match change.direction {
            Some(d) => self.direction = d,
            None => {},
        }
        match change.distance {
            Some(d) => self.distance = d,
            None => {},
        }
        match change.resolution {
            Some(r) => self.resolution = r,
            None => {},
        }
    }
}

/// A point light as the caller describes it.
#[derive(Clone, Copy, PartialEq, Eq, Structural, Debug)]
pub struct PointLight {
    pub color: Vec3Bits,
    pub intensity: ScalarBits,
    pub position: Vec3Bits,
    pub radius: ScalarBits,
}

/// A sparse delta against a [`PointLight`].
#[derive(Clone, Copy, PartialEq, Eq, Structural, Debug)]
pub struct PointLightChange {
    pub color: Option<Vec3Bits>,
    pub intensity: Option<ScalarBits>,
    pub position: Option<Vec3Bits>,
    pub radius: Option<ScalarBits>,
}

/// How the user camera projects the scene. The numeric interpretation
/// belongs to the camera manager; this crate only carries it.
#[derive(Clone, Copy, PartialEq, Eq, Debug)]
pub enum CameraProjection {
    Orthographic { size: Vec3Bits },
    Perspective { vfov: ScalarBits, near: ScalarBits },
    Raw { matrix: Mat4Bits },
}

/// The user camera as the caller describes it.
#[derive(Clone, Copy, PartialEq, Eq, Debug)]
pub struct Camera {
    pub projection: CameraProjection,
    pub view: Mat4Bits,
}

/// A view/projection pairing, used both for the user's viewpoint and for a
/// light's shadow-casting viewpoint. The shadow camera fitter of the device
/// layer produces one per placed shadow map.
#[derive(Clone, Copy, PartialEq, Eq, Debug)]
pub struct CameraState {
    /// Combined view/projection matrix.
    pub view_proj: Mat4Bits,
}

/// What an object is rendered from: a skinned skeleton or a static mesh.
#[derive(Clone, Copy, PartialEq, Eq, Structural, Debug)]
pub enum ObjectMeshKind {
    Animated(RawSkeletonHandle),
    Static(RawMeshHandle),
}

/// An object as the caller describes it.
#[derive(Clone, Copy, PartialEq, Eq, Debug)]
pub struct Object {
    pub mesh_kind: ObjectMeshKind,
    pub material: RawMaterialHandle,
    pub transform: Mat4Bits,
}

/// A sparse delta against an [`Object`], applied when an object is
/// duplicated.
#[derive(Clone, Copy, PartialEq, Eq, Debug)]
pub struct ObjectChange {
    pub mesh_kind: Option<ObjectMeshKind>,
    pub material: Option<RawMaterialHandle>,
    pub transform: Option<Mat4Bits>,
}

/// A skeleton's per-joint matrices. Their interpretation belongs to the
/// skeleton manager; the queue carries them without reading them.
#[derive(Clone, PartialEq, Eq, Debug)]
pub struct Skeleton {
    pub joint_matrices: Vec<Mat4Bits>,
    pub mesh: RawMeshHandle,
}

/// Texel contents for a new texture, as the texture manager expects them;
/// the queue never reads them.
#[derive(Clone, PartialEq, Eq, Debug)]
pub struct TextureData {
    pub width: u32,
    pub height: u32,
    pub mip_count: u32,
    pub data: Vec<u8>,
}

/// Description of a texture cut from the mips of an existing texture.
#[derive(Clone, Copy, PartialEq, Eq, Debug)]
pub struct TextureFromTexture {
    pub src: RawTexture2DHandle,
    pub start_mip: u32,
    pub mip_count: Option<u32>,
}

/// Values the material manager needs to fill a new material at apply time.
/// Their layout is the material manager's; the queue carries them opaquely.
#[derive(Clone, PartialEq, Eq, Debug)]
pub struct MaterialFill {
    pub data: Vec<u8>,
}

/// Values the material manager needs to change an existing material at apply
/// time; carried opaquely, like [`MaterialFill`].
#[derive(Clone, PartialEq, Eq, Debug)]
pub struct MaterialChange {
    pub data: Vec<u8>,
}

/// Values the graph-data storage needs to create an entry at apply time;
/// carried opaquely, like [`MaterialFill`].
#[derive(Clone, PartialEq, Eq, Debug)]
pub struct GraphDataAdd {
    pub data: Vec<u8>,
}

} // verus!
