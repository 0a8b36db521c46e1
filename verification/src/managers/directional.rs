//! The directional-light manager: sparse light storage indexed by handle,
//! per-frame shadow atlas evaluation, and assembly of the per-light records
//! the shadow shaders read.
//!
//! The manager is owned by the single frame-processing thread; callers reach
//! it only through drained instructions. One evaluation collects the live
//! lights' shadow requests, packs them with
//! [`crate::managers::shadow_alloc::allocate_shadow_atlas`], and reports the
//! atlas side length to hold (never under [`MINIMUM_SHADOW_MAP_SIZE`]) and
//! the placements. The device layer recreates the atlas texture when the
//! side length changed, fits one shadow camera per placement, and then asks
//! [`DirectionalLightManager::build_shadow_outputs`] for the descriptor list
//! and the GPU buffer contents.

use vstd::prelude::*;

use crate::managers::shadow_alloc::{
    allocate_shadow_atlas, lemma_multiset_member, lemma_prioritized_ensures, map_in_bounds,
    map_request, maps_pairwise_disjoint, prioritized, request_precedes, shelf_fits,
    some_request_exceeds, ShadowRequest,
};

pub use crate::managers::shadow_alloc::ShadowMap;
use crate::types::{
    CameraState, DirectionalLight, DirectionalLightChange, Mat4Bits, RawDirectionalLightHandle,
    ScalarBits, Vec2u, Vec3Bits,
};

verus! {

/// Side length, in texels, below which the atlas texture never shrinks.
pub const MINIMUM_SHADOW_MAP_SIZE: u32 = 32;

/// Internal representation of a directional light.
#[derive(Clone, Copy, PartialEq, Eq, Structural, Debug)]
pub struct InternalDirectionalLight {
    pub inner: DirectionalLight,
}

/// One shadow map placement paired with the camera that renders into it.
#[derive(Clone, Copy, PartialEq, Eq, Debug)]
pub struct ShadowDesc {
    pub map: ShadowMap,
    pub camera: CameraState,
}

/// One record of the GPU-visible light buffer, in plain values. The
/// normalized quantities of the shader layout are carried exactly: the
/// offset and size are texel counts, and the device layer divides them by
/// [`atlas_side`] — which also yields the shader's reciprocal resolution —
/// when it uploads, so a record placed in bounds lands in `[0, 1]`. The
/// device layer likewise multiplies [`color`] by [`intensity`].
///
/// [`atlas_side`]: ShaderDirectionalLight::atlas_side
/// [`color`]: ShaderDirectionalLight::color
/// [`intensity`]: ShaderDirectionalLight::intensity
#[derive(Clone, Copy, PartialEq, Eq, Debug)]
pub struct ShaderDirectionalLight {
    /// View/projection of the light's shadow camera.
    pub view_proj: Mat4Bits,
    /// Color of the light.
    pub color: Vec3Bits,
    /// Direction of the light.
    pub direction: Vec3Bits,
    /// Multiplier the device layer folds into the color.
    pub intensity: ScalarBits,
    /// Side length of the whole atlas, in texels: the denominator of the
    /// normalized fields.
    pub atlas_side: u32,
    /// Offset of this light's shadow map in the atlas, in texels.
    pub atlas_offset: Vec2u,
    /// Side length of this light's shadow map, in texels.
    pub atlas_size: u32,
}

/// What one evaluation decides: the atlas side length to hold, whether the
/// texture must be recreated at that size, and the placements, in packing
/// order.
pub struct ShadowAtlasPlan {
    pub atlas_size: u32,
    pub recreate_texture: bool,
    pub maps: Vec<ShadowMap>,
}

/// Manages directional lights and their associated shadow maps.
pub struct DirectionalLightManager {
    data: Vec<Option<InternalDirectionalLight>>,
    texture_size: u32,
}

/// The shadow requests of the occupied slots, in slot order: slot index as
/// handle, requested resolution as size.
pub open spec fn shadow_requests(slots: Seq<Option<InternalDirectionalLight>>) -> Seq<
    ShadowRequest,
>
    decreases slots.len(),
{
    if slots.len() == 0 {
        Seq::empty()
    } else {
        shadow_requests(slots.drop_last()) + (match slots.last() {
            Some(l) => seq![
                (
                    RawDirectionalLightHandle { idx: (slots.len() - 1) as usize },
                    l.inner.resolution as u32,
                ),
            ],
            None => Seq::empty(),
        })
    }
}

/// Every shadow request names an occupied slot and carries that slot's
/// requested resolution; the requests' handle indices are strictly
/// increasing, so no two requests share a handle.
proof fn lemma_shadow_requests_live(slots: Seq<Option<InternalDirectionalLight>>)
    requires
        slots.len() <= usize::MAX,
    ensures
        forall|k: int|
            0 <= k < shadow_requests(slots).len() ==> {
                let req = #[trigger] shadow_requests(slots)[k];
                &&& req.0.idx < slots.len()
                &&& slots[req.0.idx as int] is Some
                &&& req.1 == slots[req.0.idx as int].unwrap().inner.resolution as u32
            },
        forall|k1: int, k2: int|
            0 <= k1 < k2 < shadow_requests(slots).len() ==> (#[trigger] shadow_requests(
                slots,
            )[k1]).0.idx < (#[trigger] shadow_requests(slots)[k2]).0.idx,
    decreases slots.len(),
{
    if slots.len() > 0 {
        lemma_shadow_requests_live(slots.drop_last());
        assert forall|k: int| 0 <= k < shadow_requests(slots).len() implies {
            let req = #[trigger] shadow_requests(slots)[k];
            &&& req.0.idx < slots.len()
            &&& slots[req.0.idx as int] is Some
            &&& req.1 == slots[req.0.idx as int].unwrap().inner.resolution as u32
        } by {
            let sub = shadow_requests(slots.drop_last());
            if k < sub.len() {
                assert(shadow_requests(slots)[k] == sub[k]);
                assert(slots.drop_last()[sub[k].0.idx as int] == slots[sub[k].0.idx as int]);
            } else {
                match slots.last() {
                    Some(l) => {
                        let tail = seq![
                            (
                                RawDirectionalLightHandle { idx: (slots.len() - 1) as usize },
                                l.inner.resolution as u32,
                            ),
                        ];
                        assert(shadow_requests(slots) == sub + tail);
                        assert(shadow_requests(slots)[k] == tail[k - sub.len()]);
                    },
                    None => {
                        assert(shadow_requests(slots) == sub + Seq::<ShadowRequest>::empty());
                        assert(shadow_requests(slots)[k] == sub[k]);
                    },
                }
            }
        }
        let sub = shadow_requests(slots.drop_last());
        assert forall|k1: int, k2: int|
            0 <= k1 < k2 < shadow_requests(slots).len() implies (#[trigger] shadow_requests(
            slots,
        )[k1]).0.idx < (#[trigger] shadow_requests(slots)[k2]).0.idx by {
            if k2 < sub.len() {
                assert(shadow_requests(slots)[k1] == sub[k1]);
                assert(shadow_requests(slots)[k2] == sub[k2]);
            } else {
                match slots.last() {
                    Some(l) => {
                        // the last request names the last slot; every earlier
                        // request names an earlier one
                        let tail = seq![
                            (
                                RawDirectionalLightHandle { idx: (slots.len() - 1) as usize },
                                l.inner.resolution as u32,
                            ),
                        ];
                        assert(shadow_requests(slots) == sub + tail);
                        assert(shadow_requests(slots)[k2] == tail[k2 - sub.len()]);
                        assert(shadow_requests(slots)[k1] == sub[k1]);
                        assert(sub[k1].0.idx < slots.drop_last().len());
                    },
                    None => {
                        assert(shadow_requests(slots) == sub + Seq::<ShadowRequest>::empty());
                        assert(shadow_requests(slots)[k2] == sub[k2]);
                        assert(shadow_requests(slots)[k1] == sub[k1]);
                    },
                }
            }
        }
    }
}

impl DirectionalLightManager {
    /// The light slots, slot index to occupant.
    pub closed spec fn slots(&self) -> Seq<Option<InternalDirectionalLight>> {
        self.data@
    }

    /// Side length, in texels, of the atlas texture currently held.
    pub closed spec fn texture_side(&self) -> u32 {
        self.texture_size
    }

    /// The handle names an occupied slot.
    pub open spec fn live(&self, handle: RawDirectionalLightHandle) -> bool {
        handle.idx < self.slots().len() && self.slots()[handle.idx as int] is Some
    }

    /// A fresh manager: no lights, the atlas at its minimum size.
    pub fn new() -> (r: Self)
        ensures
            r.slots() =~= Seq::<Option<InternalDirectionalLight>>::empty(),
            r.texture_side() == MINIMUM_SHADOW_MAP_SIZE,
    {
        DirectionalLightManager { data: Vec::new(), texture_size: MINIMUM_SHADOW_MAP_SIZE }
    }

    /// Reads slot `handle`: the light there, or `None` for an empty or
    /// never-grown slot.
    pub fn get(&self, handle: RawDirectionalLightHandle) -> (r: Option<DirectionalLight>)
        ensures
            match r {
                Some(l) => self.live(handle) && self.slots()[handle.idx as int] == Some(
                    InternalDirectionalLight { inner: l },
                ),
                None => !self.live(handle),
            },
    {
        if handle.idx < self.data.len() {
            match self.data[handle.idx] {
                Some(l) => Some(l.inner),
                None => None,
            }
        } else {
            None
        }
    }

    /// Inserts or overwrites slot `handle`, growing storage with empty slots
    /// when the handle lies beyond the current length; no other slot
    /// changes. Pure bookkeeping — no atlas work happens here.
    pub fn add(&mut self, handle: RawDirectionalLightHandle, light: DirectionalLight)
        requires
            handle.idx < usize::MAX,
        ensures
            final(self).slots().len() == if handle.idx + 1 > old(self).slots().len() {
                handle.idx + 1
            } else {
                old(self).slots().len() as int
            },
            final(self).slots()[handle.idx as int] == Some(
                InternalDirectionalLight { inner: light },
            ),
            forall|i: int|
                0 <= i < final(self).slots().len() && i != handle.idx
                    ==> final(self).slots()[i] == (if i < old(self).slots().len() {
                    old(self).slots()[i]
                } else {
                    None::<InternalDirectionalLight>
                }),
            final(self).texture_side() == old(self).texture_side(),
    {
        let ghost slots0 = self.data@;
        let ghost side0 = self.texture_size;
        while self.data.len() < handle.idx + 1
            invariant
                handle.idx < usize::MAX,
                self.data@.len() >= slots0.len(),
                self.data@.len() <= slots0.len() || self.data@.len() <= handle.idx + 1,
                forall|i: int| 0 <= i < slots0.len() ==> self.data@[i] == slots0[i],
                forall|i: int|
                    slots0.len() <= i < self.data@.len() ==> self.data@[i] is None,
                self.texture_size == side0,
            decreases handle.idx + 1 - self.data@.len(),
        {
            self.data.push(None);
        }
        self.data[handle.idx] = Some(InternalDirectionalLight { inner: light });
    }

    /// Applies a sparse delta to the light at `handle`. Calling this for an
    /// empty slot is a caller contract violation, so the slot must be
    /// occupied.
    pub fn update(&mut self, handle: RawDirectionalLightHandle, change: DirectionalLightChange)
        requires
            old(self).live(handle),
        ensures
            final(self).slots() =~= old(self).slots().update(
                handle.idx as int,
                Some(
                    InternalDirectionalLight {
                        inner: old(self).slots()[handle.idx as int].unwrap().inner.with_changes(
                            change,
                        ),
                    },
                ),
            ),
            final(self).texture_side() == old(self).texture_side(),
    {
        let slot = self.data[handle.idx];
        match slot {
            Some(l) => {
                let mut inner = l.inner;
                inner.update_from_changes(change);
                self.data[handle.idx] = Some(InternalDirectionalLight { inner });
            },
            None => {
                proof {
                    assert(false);
                }
            },
        }
    }

    /// Clears slot `handle`; the handle is invalid for any further operation
    /// until a new light is added there. Calling this for an empty slot is a
    /// caller contract violation, so the slot must be occupied.
    pub fn remove(&mut self, handle: RawDirectionalLightHandle)
        requires
            old(self).live(handle),
        ensures
            final(self).slots() =~= old(self).slots().update(
                handle.idx as int,
                None::<InternalDirectionalLight>,
            ),
            final(self).texture_side() == old(self).texture_side(),
    {
        self.data[handle.idx] = None;
    }

    /// Per-frame evaluation, first half: collects every live light's shadow
    /// request, packs the atlas, and records the side length to hold —
    /// `max(MINIMUM_SHADOW_MAP_SIZE, packed side)`, or the minimum when
    /// nothing was placed (no live light, or the largest request alone over
    /// the hardware maximum). Light storage is never mutated. The maps
    /// answer, one for one and in order, a prefix of the live requests in
    /// packing priority order; the whole set is placed whenever it fits the
    /// hardware maximum under the shelf policy, and a shorter prefix only
    /// when the next longer one does not fit there. Each map names a
    /// distinct live slot, carries its requested resolution, and lies inside
    /// the atlas without overlapping any other.
    pub fn evaluate(&mut self, max_texture_dimension: u32) -> (r: ShadowAtlasPlan)
        ensures
            final(self).slots() == old(self).slots(),
            final(self).texture_side() == r.atlas_size,
            r.recreate_texture == (r.atlas_size != old(self).texture_side()),
            r.atlas_size >= MINIMUM_SHADOW_MAP_SIZE,
            r.atlas_size == MINIMUM_SHADOW_MAP_SIZE || r.atlas_size <= max_texture_dimension,
            shadow_requests(old(self).slots()).len() == 0 ==> r.atlas_size
                == MINIMUM_SHADOW_MAP_SIZE,
            some_request_exceeds(shadow_requests(old(self).slots()), max_texture_dimension)
                ==> r.atlas_size == MINIMUM_SHADOW_MAP_SIZE,
            (r.maps@.len() == 0) <==> (shadow_requests(old(self).slots()).len() == 0
                || some_request_exceeds(
                shadow_requests(old(self).slots()),
                max_texture_dimension,
            )),
            r.maps@.len() <= shadow_requests(old(self).slots()).len(),
            forall|k: int|
                0 <= k < r.maps@.len() ==> map_request(#[trigger] r.maps@[k]) == prioritized(
                    shadow_requests(old(self).slots()),
                )[k],
            shelf_fits(prioritized(shadow_requests(old(self).slots())), max_texture_dimension)
                ==> r.maps@.len() == shadow_requests(old(self).slots()).len(),
            r.maps@.len() == shadow_requests(old(self).slots()).len() || r.maps@.len() == 0
                || !shelf_fits(
                prioritized(shadow_requests(old(self).slots())).take(r.maps@.len() + 1 as int),
                max_texture_dimension,
            ),
            forall|k1: int, k2: int|
                0 <= k1 < k2 < r.maps@.len() ==> (#[trigger] r.maps@[k1]).handle != (
                #[trigger] r.maps@[k2]).handle,
            forall|k: int|
                0 <= k < r.maps@.len() ==> {
                    let m = #[trigger] r.maps@[k];
                    &&& m.handle.idx < old(self).slots().len()
                    &&& old(self).slots()[m.handle.idx as int] is Some
                    &&& m.size == old(self).slots()[m.handle.idx as int].unwrap().inner.resolution
                        as u32
                    &&& map_in_bounds(m, r.atlas_size)
                },
            forall|k1: int, k2: int|
                0 <= k1 < k2 < r.maps@.len() ==> request_precedes(
                    map_request(#[trigger] r.maps@[k1]),
                    map_request(#[trigger] r.maps@[k2]),
                ),
            maps_pairwise_disjoint(r.maps@),
    {
        let mut requests: Vec<ShadowRequest> = Vec::new();
        let mut i: usize = 0;
        while i < self.data.len()
            invariant
                i <= self.data@.len(),
                requests@ == shadow_requests(self.data@.take(i as int)),
            decreases self.data@.len() - i,
        {
            let ghost prefix = self.data@.take(i as int);
            match self.data[i] {
                Some(l) => {
                    requests.push(
                        (RawDirectionalLightHandle { idx: i }, l.inner.resolution as u32),
                    );
                },
                None => {},
            }
            proof {
                let next = self.data@.take(i + 1 as int);
                assert(next.drop_last() =~= prefix);
                assert(next.last() == self.data@[i as int]);
                match self.data@[i as int] {
                    Some(l) => {
                        assert(requests@ =~= shadow_requests(next));
                    },
                    None => {
                        assert(shadow_requests(next) =~= shadow_requests(prefix));
                    },
                }
            }
            i = i + 1;
        }
        proof {
            assert(self.data@.take(self.data@.len() as int) =~= self.data@);
        }
        let ghost live_requests = requests@;
        let atlas = allocate_shadow_atlas(requests, max_texture_dimension);
        let (new_side, maps) = match atlas {
            Some(a) => {
                proof {
                    broadcast use vstd::std_specs::vec::axiom_spec_len;

                    assert(vstd::std_specs::vec::spec_vec_len(&self.data) == self.data@.len());
                    lemma_shadow_requests_live(self.data@);
                    assert forall|k: int| 0 <= k < a.maps@.len() implies {
                        let m = #[trigger] a.maps@[k];
                        &&& m.handle.idx < self.data@.len()
                        &&& self.data@[m.handle.idx as int] is Some
                        &&& m.size == self.data@[m.handle.idx as int].unwrap().inner.resolution
                            as u32
                    } by {
                        assert(live_requests.contains(map_request(a.maps@[k])));
                        let j = choose|j: int|
                            0 <= j < live_requests.len() && live_requests[j] == map_request(
                                a.maps@[k],
                            );
                        assert(shadow_requests(self.data@)[j] == map_request(a.maps@[k]));
                    }
                    // the live requests name pairwise distinct handles, so
                    // the placed maps do too
                    assert forall|i: int, j: int|
                        0 <= i < j < live_requests.len() implies (#[trigger] live_requests[i]).0
                        != (#[trigger] live_requests[j]).0 by {
                        assert(shadow_requests(self.data@)[i].0.idx < shadow_requests(
                            self.data@,
                        )[j].0.idx);
                    }
                }
                let s = if a.texture_dimensions < MINIMUM_SHADOW_MAP_SIZE {
                    MINIMUM_SHADOW_MAP_SIZE
                } else {
                    a.texture_dimensions
                };
                (s, a.maps)
            },
            None => {
                proof {
                    if live_requests.len() > 0 && shelf_fits(
                        prioritized(live_requests),
                        max_texture_dimension,
                    ) {
                        // without an atlas some request exceeds the hardware
                        // maximum; the head of the priority order tops it,
                        // so the priority order cannot fit — contradiction
                        lemma_prioritized_ensures(live_requests);
                        let i = choose|i: int|
                            0 <= i < live_requests.len() && live_requests[i].1
                                > max_texture_dimension;
                        assert(live_requests.contains(live_requests[i]));
                        lemma_multiset_member(
                            live_requests,
                            prioritized(live_requests),
                            live_requests[i],
                        );
                        let j = choose|j: int|
                            0 <= j < prioritized(live_requests).len() && prioritized(
                                live_requests,
                            )[j] == live_requests[i];
                        if j > 0 {
                            assert(request_precedes(
                                prioritized(live_requests)[0],
                                prioritized(live_requests)[j],
                            ));
                        }
                        assert(prioritized(live_requests).first().1 > max_texture_dimension);
                        assert(false);
                    }
                }
                (MINIMUM_SHADOW_MAP_SIZE, Vec::new())
            },
        };
        let recreate = new_side != self.texture_size;
        self.texture_size = new_side;
        ShadowAtlasPlan { atlas_size: new_side, recreate_texture: recreate, maps }
    }

    /// Per-frame evaluation, second half, once the device layer has fitted
    /// one shadow camera per placed map: pairs each map with its camera and
    /// emits one GPU buffer record per pair, in placement order. Each
    /// record's texel offset and size stay within the atlas side it carries,
    /// so the normalized values the device layer uploads lie in `[0, 1]`.
    /// The maps must be a plan's: each names an occupied slot and lies
    /// inside the atlas.
    pub fn build_shadow_outputs(
        &self,
        maps: Vec<ShadowMap>,
        atlas_size: u32,
        cameras: &Vec<CameraState>,
    ) -> (r: (Vec<ShadowDesc>, Vec<ShaderDirectionalLight>))
        requires
            cameras@.len() == maps@.len(),
            forall|k: int|
                0 <= k < maps@.len() ==> {
                    let m = #[trigger] maps@[k];
                    &&& m.handle.idx < self.slots().len()
                    &&& self.slots()[m.handle.idx as int] is Some
                    &&& map_in_bounds(m, atlas_size)
                },
        ensures
            r.0@.len() == maps@.len(),
            r.1@.len() == maps@.len(),
            forall|k: int|
                0 <= k < maps@.len() ==> #[trigger] r.0@[k] == (ShadowDesc {
                    map: maps@[k],
                    camera: cameras@[k],
                }),
            forall|k: int|
                0 <= k < maps@.len() ==> {
                    let e = #[trigger] r.1@[k];
                    let light = self.slots()[maps@[k].handle.idx as int].unwrap().inner;
                    &&& e.view_proj == cameras@[k].view_proj
                    &&& e.color == light.color
                    &&& e.intensity == light.intensity
                    &&& e.direction == light.direction
                    &&& e.atlas_side == atlas_size
                    &&& e.atlas_offset == maps@[k].offset
                    &&& e.atlas_size == maps@[k].size
                    &&& e.atlas_offset.x + e.atlas_size <= e.atlas_side
                    &&& e.atlas_offset.y + e.atlas_size <= e.atlas_side
                },
    {
        let mut descs: Vec<ShadowDesc> = Vec::new();
        let mut entries: Vec<ShaderDirectionalLight> = Vec::new();
        let mut k: usize = 0;
        while k < maps.len()
            invariant
                k <= maps@.len(),
                cameras@.len() == maps@.len(),
                descs@.len() == k,
                entries@.len() == k,
                forall|t: int|
                    0 <= t < maps@.len() ==> {
                        let m = #[trigger] maps@[t];
                        &&& m.handle.idx < self.slots().len()
                        &&& self.slots()[m.handle.idx as int] is Some
                        &&& map_in_bounds(m, atlas_size)
                    },
                forall|t: int|
                    0 <= t < k ==> #[trigger] descs@[t] == (ShadowDesc {
                        map: maps@[t],
                        camera: cameras@[t],
                    }),
                forall|t: int|
                    0 <= t < k ==> {
                        let e = #[trigger] entries@[t];
                        let light = self.slots()[maps@[t].handle.idx as int].unwrap().inner;
                        &&& e.view_proj == cameras@[t].view_proj
                        &&& e.color == light.color
                        &&& e.intensity == light.intensity
                        &&& e.direction == light.direction
                        &&& e.atlas_side == atlas_size
                        &&& e.atlas_offset == maps@[t].offset
                        &&& e.atlas_size == maps@[t].size
                        &&& e.atlas_offset.x + e.atlas_size <= e.atlas_side
                        &&& e.atlas_offset.y + e.atlas_size <= e.atlas_side
                    },
            decreases maps@.len() - k,
        {
            let m = maps[k];
            let camera = cameras[k];
            match self.data[m.handle.idx] {
                Some(l) => {
                    descs.push(ShadowDesc { map: m, camera });
                    entries.push(
                        ShaderDirectionalLight {
                            view_proj: camera.view_proj,
                            color: l.inner.color,
                            direction: l.inner.direction,
                            intensity: l.inner.intensity,
                            atlas_side: atlas_size,
                            atlas_offset: m.offset,
                            atlas_size: m.size,
                        },
                    );
                },
                None => {
                    proof {
                        assert(false);
                    }
                },
            }
            k = k + 1;
        }
        (descs, entries)
    }
}

} // verus!
