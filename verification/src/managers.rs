//! Resource managers owned by the frame-processing stage.
//!
//! Only the directional-light subsystem lives in this crate; the other
//! managers the drained instructions address (meshes, textures, materials,
//! objects, point lights, graph data, camera) are collaborators behind the
//! instruction-application boundary.

pub mod directional;
pub mod shadow_alloc;
