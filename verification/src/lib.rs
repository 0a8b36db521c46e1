//! Mutation and light-management core of a real-time renderer.
//!
//! The crate has two halves. [`instruction`] is a deferred command queue:
//! callers record scene mutations as [`instruction::Instruction`] values and
//! the frame-processing stage drains them once per frame, so mutation never
//! races rendering. [`managers`] holds the directional-light subsystem: a
//! sparse, handle-indexed light store, a shelf packer that places every live
//! light's shadow map into one square atlas texture, and the assembly of the
//! per-light records the shadow shaders read.
//!
//! Everything here works on plain values. Scalars and matrices belong to the
//! renderer's numeric layer and are carried as raw bit patterns; the device
//! layer around this crate owns the locks, the GPU objects and the
//! floating-point conversions.

pub mod instruction;
pub mod managers;
pub mod types;
