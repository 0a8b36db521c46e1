//! The shadow atlas allocator: packs every live light's square shadow map
//! into one square atlas texture.
//!
//! Policy, deterministic by construction: requests are sorted by resolution
//! descending, ties by handle index ascending. Maps are placed on shelves,
//! left to right, a new shelf below the current one when a map no longer fits
//! in the remaining width. The candidate side length starts at the largest
//! request's resolution and doubles (clamped to the hardware maximum) while
//! the working set does not fit. If the set still
//! does not fit at the maximum, the lowest-priority requests — smallest
//! resolution, then highest handle index — are dropped one at a time until
//! the remainder fits. If even the largest request alone exceeds the
//! maximum, nothing is placed.

use vstd::prelude::*;

use crate::types::{RawDirectionalLightHandle, Vec2u};

verus! {

/// One placed shadow map: an axis-aligned square inside the atlas.
#[derive(Clone, Copy, PartialEq, Eq, Structural, Debug)]
pub struct ShadowMap {
    /// The light this rectangle belongs to.
    pub handle: RawDirectionalLightHandle,
    /// Top-left corner, in texels.
    pub offset: Vec2u,
    /// Side length, in texels; equals the light's requested resolution.
    pub size: u32,
}

/// A successful packing: the atlas side length and one placement per request
/// that fit.
pub struct ShadowAtlas {
    /// Side length, in texels, of the square atlas the maps were packed into.
    pub texture_dimensions: u32,
    /// The placements, in packing order (resolution descending, ties by
    /// handle index ascending).
    pub maps: Vec<ShadowMap>,
}

/// A shadow request: the light's handle and its requested resolution.
pub type ShadowRequest = (RawDirectionalLightHandle, u32);

/// Packing priority: larger resolutions come first, equal resolutions are
/// ordered by handle index. A total preorder over requests.
pub open spec fn request_precedes(a: ShadowRequest, b: ShadowRequest) -> bool {
    a.1 > b.1 || (a.1 == b.1 && a.0.idx <= b.0.idx)
}

/// The sequence is in packing order.
pub open spec fn requests_sorted(s: Seq<ShadowRequest>) -> bool {
    forall|i: int, j: int| 0 <= i < j < s.len() ==> request_precedes(s[i], s[j])
}

/// The requests in packing priority order: the unique permutation of the
/// input that [`requests_sorted`] holds of.
pub open spec fn prioritized(lights: Seq<ShadowRequest>) -> Seq<ShadowRequest> {
    lights.sort_by(|a: ShadowRequest, b: ShadowRequest| request_precedes(a, b))
}

/// The packing priority is a total ordering over requests.
proof fn lemma_precedes_total_ordering()
    ensures
        vstd::relations::total_ordering(
            |a: ShadowRequest, b: ShadowRequest| request_precedes(a, b),
        ),
{
    let leq = |a: ShadowRequest, b: ShadowRequest| request_precedes(a, b);
    assert forall|x: ShadowRequest| #[trigger] leq(x, x) by {}
    assert forall|x: ShadowRequest, y: ShadowRequest| #[trigger] leq(x, y) && #[trigger] leq(
        y,
        x,
    ) implies x == y by {
        assert(x.0 == (RawDirectionalLightHandle { idx: x.0.idx }));
        assert(y.0 == (RawDirectionalLightHandle { idx: y.0.idx }));
        assert(x =~= y);
    }
    assert forall|x: ShadowRequest, y: ShadowRequest, z: ShadowRequest|
        #[trigger] leq(x, y) && #[trigger] leq(y, z) implies leq(x, z) by {}
    assert forall|x: ShadowRequest, y: ShadowRequest| #[trigger] leq(x, y) || #[trigger] leq(
        y,
        x,
    ) by {}
}

/// What sorting into priority order promises: same requests, packing order,
/// same length.
pub proof fn lemma_prioritized_ensures(lights: Seq<ShadowRequest>)
    ensures
        prioritized(lights).to_multiset() == lights.to_multiset(),
        requests_sorted(prioritized(lights)),
        prioritized(lights).len() == lights.len(),
{
    broadcast use vstd::seq_lib::group_to_multiset_ensures;

    let leq = |a: ShadowRequest, b: ShadowRequest| request_precedes(a, b);
    lemma_precedes_total_ordering();
    lights.lemma_sort_by_ensures(leq);
    let s = prioritized(lights);
    assert(s.to_multiset().len() == s.len());
    assert(lights.to_multiset().len() == lights.len());
    assert forall|i: int, j: int| 0 <= i < j < s.len() implies request_precedes(s[i], s[j]) by {
        assert(leq(s[i], s[j]));
    }
}

/// The first element's occurrence apart, a sequence and its tail hold the
/// same multiset of elements.
proof fn lemma_head_multiset(s: Seq<ShadowRequest>)
    requires
        s.len() > 0,
    ensures
        s.to_multiset() =~= s.drop_first().to_multiset().insert(s.first()),
{
    broadcast use vstd::seq_lib::group_to_multiset_ensures;
    broadcast use vstd::multiset::group_multiset_axioms;

    assert(s.remove(0) =~= s.drop_first());
    assert(s.remove(0).to_multiset() =~= s.to_multiset().remove(s[0]));
    assert(s.contains(s[0]));
    assert(s.to_multiset().count(s[0]) > 0);
}

/// Two sequences in packing order with the same requests are the same
/// sequence: the priority order is total, so sorting is unique.
pub proof fn lemma_sorted_unique(s1: Seq<ShadowRequest>, s2: Seq<ShadowRequest>)
    requires
        requests_sorted(s1),
        requests_sorted(s2),
        s1.to_multiset() == s2.to_multiset(),
    ensures
        s1 =~= s2,
    decreases s1.len(),
{
    broadcast use vstd::seq_lib::group_to_multiset_ensures;
    broadcast use vstd::multiset::group_multiset_axioms;

    assert(s1.to_multiset().len() == s1.len());
    assert(s2.to_multiset().len() == s2.len());
    if s1.len() == 0 {
        assert(s2.len() == 0);
    } else {
        assert(s2.len() == s1.len());
        // each head is bounded by the other, so the heads are equal
        assert(s1.contains(s1[0]));
        assert(s2.to_multiset().count(s1[0]) > 0);
        assert(s2.contains(s1[0]));
        let j = choose|j: int| 0 <= j < s2.len() && s2[j] == s1[0];
        if j > 0 {
            assert(request_precedes(s2[0], s2[j]));
        }
        assert(s1.to_multiset().count(s2[0]) > 0);
        assert(s1.contains(s2[0]));
        let i = choose|i: int| 0 <= i < s1.len() && s1[i] == s2[0];
        if i > 0 {
            assert(request_precedes(s1[0], s1[i]));
        }
        assert(s1[0].0 == (RawDirectionalLightHandle { idx: s1[0].0.idx }));
        assert(s2[0].0 == (RawDirectionalLightHandle { idx: s2[0].0.idx }));
        assert(s1[0] =~= s2[0]);
        // the tails hold the same requests and are sorted, so they are equal
        lemma_head_multiset(s1);
        lemma_head_multiset(s2);
        assert(s1.drop_first().to_multiset() =~= s2.drop_first().to_multiset()) by {
            assert forall|x: ShadowRequest|
                s1.drop_first().to_multiset().count(x) == s2.drop_first().to_multiset().count(
                    x,
                ) by {
                assert(s1.to_multiset().count(x) == s1.drop_first().to_multiset().insert(
                    s1.first(),
                ).count(x));
                assert(s2.to_multiset().count(x) == s2.drop_first().to_multiset().insert(
                    s2.first(),
                ).count(x));
            }
        }
        assert forall|a: int, b: int| 0 <= a < b < s1.drop_first().len() implies request_precedes(
            s1.drop_first()[a],
            s1.drop_first()[b],
        ) by {
            assert(request_precedes(s1[a + 1], s1[b + 1]));
        }
        assert forall|a: int, b: int| 0 <= a < b < s2.drop_first().len() implies request_precedes(
            s2.drop_first()[a],
            s2.drop_first()[b],
        ) by {
            assert(request_precedes(s2[a + 1], s2[b + 1]));
        }
        lemma_sorted_unique(s1.drop_first(), s2.drop_first());
        assert forall|k: int| 0 <= k < s1.len() implies s1[k] == s2[k] by {
            if k > 0 {
                assert(s1[k] == s1.drop_first()[k - 1]);
                assert(s2[k] == s2.drop_first()[k - 1]);
            }
        }
    }
}

/// The map lies entirely inside the square of the given side length.
pub open spec fn map_in_bounds(m: ShadowMap, side: u32) -> bool {
    m.offset.x + m.size <= side && m.offset.y + m.size <= side
}

/// The two maps' rectangles do not overlap: they are separated along at
/// least one axis.
pub open spec fn maps_disjoint(a: ShadowMap, b: ShadowMap) -> bool {
    ||| a.offset.x + a.size <= b.offset.x
    ||| b.offset.x + b.size <= a.offset.x
    ||| a.offset.y + a.size <= b.offset.y
    ||| b.offset.y + b.size <= a.offset.y
}

/// No two maps of the sequence overlap.
pub open spec fn maps_pairwise_disjoint(maps: Seq<ShadowMap>) -> bool {
    forall|i: int, j: int| 0 <= i < j < maps.len() ==> maps_disjoint(maps[i], maps[j])
}

/// Whether the shelf policy places all the requests inside the square of
/// the given side length, continuing from a cursor: `x` texels are used on
/// the current shelf, which starts at row `shelf_y` with height `shelf_h`.
/// A request goes on the current shelf when the remaining width holds it;
/// otherwise a new shelf of the request's height opens below, and the
/// request must fit the square there.
pub open spec fn shelf_fits_from(
    items: Seq<ShadowRequest>,
    side: u32,
    x: int,
    shelf_y: int,
    shelf_h: int,
) -> bool
    decreases items.len(),
{
    if items.len() == 0 {
        true
    } else {
        let r = items.first().1 as int;
        if x + r <= side {
            shelf_fits_from(items.drop_first(), side, x + r, shelf_y, shelf_h)
        } else {
            &&& r <= side
            &&& shelf_y + shelf_h + r <= side
            &&& shelf_fits_from(items.drop_first(), side, r, shelf_y + shelf_h, r)
        }
    }
}

/// Whether the shelf policy places all the requests, in the given order,
/// inside the square of the given side length. This predicate is the
/// policy's observable decision: the packer places a request sequence
/// exactly when this holds of it.
pub open spec fn shelf_fits(items: Seq<ShadowRequest>, side: u32) -> bool {
    if items.len() == 0 {
        true
    } else {
        items.first().1 <= side && shelf_fits_from(
            items.drop_first(),
            side,
            items.first().1 as int,
            0,
            items.first().1 as int,
        )
    }
}

/// What the shelf policy places, it also places any shorter run from the
/// same cursor: dropping trailing requests never breaks a fit.
proof fn lemma_shelf_fits_from_prefix(
    items: Seq<ShadowRequest>,
    side: u32,
    x: int,
    shelf_y: int,
    shelf_h: int,
    c: int,
)
    requires
        shelf_fits_from(items, side, x, shelf_y, shelf_h),
        0 <= c <= items.len(),
    ensures
        shelf_fits_from(items.take(c), side, x, shelf_y, shelf_h),
    decreases c,
{
    if c > 0 {
        let r = items.first().1 as int;
        assert(items.take(c).first() == items.first());
        assert(items.take(c).drop_first() =~= items.drop_first().take(c - 1));
        if x + r <= side {
            lemma_shelf_fits_from_prefix(items.drop_first(), side, x + r, shelf_y, shelf_h, c - 1);
        } else {
            lemma_shelf_fits_from_prefix(
                items.drop_first(),
                side,
                r,
                shelf_y + shelf_h,
                r,
                c - 1,
            );
        }
    } else {
        assert(items.take(0).len() == 0);
    }
}

/// Dropping trailing requests never breaks a fit.
pub proof fn lemma_shelf_fits_prefix(items: Seq<ShadowRequest>, side: u32, c: int)
    requires
        shelf_fits(items, side),
        0 <= c <= items.len(),
    ensures
        shelf_fits(items.take(c), side),
{
    if c > 0 {
        assert(items.take(c).first() == items.first());
        assert(items.take(c).drop_first() =~= items.drop_first().take(c - 1));
        lemma_shelf_fits_from_prefix(
            items.drop_first(),
            side,
            items.first().1 as int,
            0,
            items.first().1 as int,
            c - 1,
        );
    } else {
        assert(items.take(0).len() == 0);
    }
}

/// Exact executable form of [`request_precedes`].
fn precedes(a: ShadowRequest, b: ShadowRequest) -> (r: bool)
    ensures
        r == request_precedes(a, b),
{
    a.1 > b.1 || (a.1 == b.1 && a.0.idx <= b.0.idx)
}

/// Exchanging two elements of a sequence keeps its multiset of elements.
proof fn lemma_swap_preserves_multiset<A>(s: Seq<A>, a: int, b: int)
    requires
        0 <= a < b < s.len(),
    ensures
        s.update(a, s[b]).update(b, s[a]).to_multiset() =~= s.to_multiset(),
{
    broadcast use vstd::seq_lib::to_multiset_update;
    broadcast use vstd::seq_lib::to_multiset_contains;
    broadcast use vstd::multiset::group_multiset_axioms;

    let s1 = s.update(a, s[b]);
    assert(s.contains(s[a]));
    assert(s1[b] == s[b]);
    assert(s1.to_multiset() == s.to_multiset().insert(s[b]).remove(s[a]));
    assert(s1.update(b, s[a]).to_multiset() == s1.to_multiset().insert(s[a]).remove(s1[b]));
}

/// Sorts the requests into packing order, keeping exactly the same requests.
fn sort_requests(v: &mut Vec<ShadowRequest>)
    ensures
        requests_sorted(final(v)@),
        final(v)@.to_multiset() == old(v)@.to_multiset(),
        final(v)@.len() == old(v)@.len(),
{
    let mut i: usize = 1;
    while i < v.len()
        invariant
            i >= 1,
            v@.len() == old(v)@.len(),
            v@.to_multiset() == old(v)@.to_multiset(),
            forall|a: int, b: int|
                0 <= a < b < i && b < v@.len() ==> request_precedes(v@[a], v@[b]),
        decreases v@.len() - i,
    {
        let mut j: usize = i;
        loop
            invariant
                j <= i < v@.len(),
                v@.len() == old(v)@.len(),
                v@.to_multiset() == old(v)@.to_multiset(),
                forall|a: int, b: int|
                    0 <= a < b <= i && b != j ==> request_precedes(v@[a], v@[b]),
                forall|a: int| j < a <= i ==> request_precedes(v@[j as int], v@[a]),
            ensures
                j <= i < v@.len(),
                v@.len() == old(v)@.len(),
                v@.to_multiset() == old(v)@.to_multiset(),
                forall|a: int, b: int| 0 <= a < b <= i ==> request_precedes(v@[a], v@[b]),
            decreases j,
        {
            if j == 0 {
                break;
            }
            if precedes(v[j - 1], v[j]) {
                proof {
                    assert forall|a: int| 0 <= a < j as int implies request_precedes(
                        v@[a],
                        v@[j as int],
                    ) by {
                        if a < j as int - 1 {
                            assert(request_precedes(v@[a], v@[j as int - 1]));
                        }
                    }
                }
                break;
            }
            let ghost s_before = v@;
            let tmp = v[j - 1];
            v[j - 1] = v[j];
            v[j] = tmp;
            proof {
                lemma_swap_preserves_multiset(s_before, j - 1, j as int);
                assert(v@ =~= s_before.update(j - 1, s_before[j as int]).update(
                    j as int,
                    s_before[j - 1],
                ));
            }
            j -= 1;
        }
        i += 1;
    }
}

/// Places the sorted requests on shelves inside a square of the given side
/// length: left to right along the current shelf, a new shelf below it when
/// the remaining width runs out. Returns the placements in request order, or
/// `None` when the square cannot hold them under this policy. A single
/// request no larger than the square always fits.
fn try_pack(items: &Vec<ShadowRequest>, side: u32) -> (r: Option<Vec<ShadowMap>>)
    requires
        requests_sorted(items@),
    ensures
        match r {
            Some(maps) => {
                &&& maps@.len() == items@.len()
                &&& forall|t: int|
                    0 <= t < maps@.len() ==> (#[trigger] maps@[t]).handle == items@[t].0
                        && maps@[t].size == items@[t].1 && map_in_bounds(maps@[t], side)
                &&& maps_pairwise_disjoint(maps@)
            },
            None => true,
        },
        items@.len() == 1 && items@[0].1 <= side ==> r is Some,
        items@.len() >= 1 && items@[0].1 == 0 ==> r is Some,
        r is Some <==> shelf_fits(items@, side),
{
    let mut maps: Vec<ShadowMap> = Vec::new();
    let mut x: u32 = 0;
    let mut shelf_y: u32 = 0;
    let mut shelf_h: u32 = 0;
    let mut k: usize = 0;
    while k < items.len()
        invariant
            requests_sorted(items@),
            k <= items@.len(),
            maps@.len() == k,
            x <= side,
            shelf_y + shelf_h <= side,
            k == 0 ==> x == 0 && shelf_y == 0 && shelf_h == 0,
            k > 0 ==> items@[k - 1].1 <= shelf_h,
            k > 0 ==> (shelf_fits(items@, side) == shelf_fits_from(
                items@.skip(k as int),
                side,
                x as int,
                shelf_y as int,
                shelf_h as int,
            )),
            forall|t: int|
                0 <= t < k ==> (#[trigger] maps@[t]).handle == items@[t].0 && maps@[t].size
                    == items@[t].1 && map_in_bounds(maps@[t], side),
            forall|t: int|
                0 <= t < k ==> (#[trigger] maps@[t]).offset.y + maps@[t].size <= shelf_y || (
                maps@[t].offset.y == shelf_y && maps@[t].offset.x + maps@[t].size <= x
                    && maps@[t].size <= shelf_h),
            maps_pairwise_disjoint(maps@),
        decreases items@.len() - k,
    {
        let r = items[k].1;
        proof {
            assert(items@.skip(k as int).first() == items@[k as int]);
            assert(items@.skip(k as int).drop_first() =~= items@.skip(k as int + 1));
        }
        if k == 0 || r > side - x {
            // the remaining width cannot hold the map: open a new shelf
            // directly below the current one
            if r > side {
                proof {
                    if k > 0 {
                        assert(request_precedes(items@[0], items@[k as int]));
                        assert(!shelf_fits_from(
                            items@.skip(k as int),
                            side,
                            x as int,
                            shelf_y as int,
                            shelf_h as int,
                        ));
                    } else {
                        assert(items@.first() == items@[0]);
                        assert(!shelf_fits(items@, side));
                    }
                }
                return None;
            }
            let ny = shelf_y + shelf_h;
            if ny > side - r {
                proof {
                    if k > 0 {
                        assert(request_precedes(items@[0], items@[k as int]));
                        assert(!shelf_fits_from(
                            items@.skip(k as int),
                            side,
                            x as int,
                            shelf_y as int,
                            shelf_h as int,
                        ));
                    }
                }
                return None;
            }
            proof {
                // every placed map ends above the new shelf
                assert forall|t: int| 0 <= t < k implies (#[trigger] maps@[t]).offset.y
                    + maps@[t].size <= ny by {}
                if k == 0 {
                    assert(items@.first() == items@[0]);
                    assert(items@.drop_first() =~= items@.skip(1));
                    assert(shelf_fits(items@, side) == shelf_fits_from(
                        items@.skip(1),
                        side,
                        r as int,
                        0,
                        r as int,
                    ));
                } else {
                    assert(shelf_fits_from(
                        items@.skip(k as int),
                        side,
                        x as int,
                        shelf_y as int,
                        shelf_h as int,
                    ) == shelf_fits_from(
                        items@.skip(k as int + 1),
                        side,
                        r as int,
                        shelf_y as int + shelf_h as int,
                        r as int,
                    ));
                }
            }
            shelf_y = ny;
            shelf_h = r;
            x = 0;
        } else {
            proof {
                assert(shelf_fits_from(
                    items@.skip(k as int),
                    side,
                    x as int,
                    shelf_y as int,
                    shelf_h as int,
                ) == shelf_fits_from(
                    items@.skip(k as int + 1),
                    side,
                    x as int + r as int,
                    shelf_y as int,
                    shelf_h as int,
                ));
            }
        }
        let m = ShadowMap {
            handle: items[k].0,
            offset: Vec2u { x, y: shelf_y },
            size: r,
        };
        proof {
            if k > 0 {
                // the shelf holds the map's height: requests only shrink
                assert(request_precedes(items@[k - 1], items@[k as int]));
            }
            assert forall|t: int| 0 <= t < k implies maps_disjoint(maps@[t], m) by {}
        }
        maps.push(m);
        x = x + r;
        k = k + 1;
    }
    proof {
        if items@.len() > 0 {
            assert(items@.skip(items@.len() as int).len() == 0);
        }
    }
    Some(maps)
}

/// Some request asks for more than the hardware permits.
pub open spec fn some_request_exceeds(lights: Seq<ShadowRequest>, max_dim: u32) -> bool {
    exists|i: int| 0 <= i < lights.len() && lights[i].1 > max_dim
}

/// The request a placed map answers.
pub open spec fn map_request(m: ShadowMap) -> ShadowRequest {
    (m.handle, m.size)
}

/// Two sequences with the same multiset of elements contain the same
/// elements.
pub(crate) proof fn lemma_multiset_member(s1: Seq<ShadowRequest>, s2: Seq<ShadowRequest>, x: ShadowRequest)
    requires
        s1.to_multiset() == s2.to_multiset(),
        s1.contains(x),
    ensures
        s2.contains(x),
{
    broadcast use vstd::seq_lib::to_multiset_contains;

    assert(s1.to_multiset().count(x) > 0);
    assert(s2.to_multiset().count(x) > 0);
}

/// Packs the given lights' shadow maps into one square atlas no larger than
/// the hardware maximum, under the policy documented at the top of this
/// module. Returns `None` exactly when there is nothing to place or the
/// largest request alone exceeds the hardware maximum. Otherwise the maps
/// answer, one for one and in order, a prefix of the requests in priority
/// order ([`prioritized`]); when the whole priority order fits the hardware
/// maximum under the shelf policy ([`shelf_fits`]), every request is placed,
/// and a shorter prefix is only ever placed because the next longer one does
/// not fit at the hardware maximum. Maps lie inside the atlas, do not
/// overlap, and — when no two requests share a handle — name pairwise
/// distinct lights.
pub fn allocate_shadow_atlas(lights: Vec<ShadowRequest>, max_texture_dimension: u32) -> (r: Option<
    ShadowAtlas,
>)
    ensures
        r is None <==> (lights@.len() == 0 || some_request_exceeds(
            lights@,
            max_texture_dimension,
        )),
        match r {
            Some(atlas) => {
                &&& atlas.texture_dimensions <= max_texture_dimension
                &&& 1 <= atlas.maps@.len() <= lights@.len()
                &&& forall|k: int|
                    0 <= k < atlas.maps@.len() ==> map_in_bounds(
                        #[trigger] atlas.maps@[k],
                        atlas.texture_dimensions,
                    )
                &&& forall|k: int|
                    0 <= k < atlas.maps@.len() ==> lights@.contains(map_request(
                        #[trigger] atlas.maps@[k],
                    ))
                &&& forall|k: int|
                    0 <= k < atlas.maps@.len() ==> map_request(#[trigger] atlas.maps@[k])
                        == prioritized(lights@)[k]
                &&& forall|k1: int, k2: int|
                    0 <= k1 < k2 < atlas.maps@.len() ==> request_precedes(
                        map_request(#[trigger] atlas.maps@[k1]),
                        map_request(#[trigger] atlas.maps@[k2]),
                    )
                &&& maps_pairwise_disjoint(atlas.maps@)
                &&& shelf_fits(
                    prioritized(lights@).take(atlas.maps@.len() as int),
                    atlas.texture_dimensions,
                )
                &&& (shelf_fits(prioritized(lights@), max_texture_dimension) ==> atlas.maps@.len()
                    == lights@.len())
                &&& (atlas.maps@.len() == lights@.len() || (atlas.texture_dimensions
                    == max_texture_dimension && !shelf_fits(
                    prioritized(lights@).take(atlas.maps@.len() + 1 as int),
                    max_texture_dimension,
                )))
                &&& ((forall|i: int, j: int|
                    0 <= i < j < lights@.len() ==> (#[trigger] lights@[i]).0 != (
                    #[trigger] lights@[j]).0) ==> (forall|k1: int, k2: int|
                    0 <= k1 < k2 < atlas.maps@.len() ==> (#[trigger] atlas.maps@[k1]).handle != (
                    #[trigger] atlas.maps@[k2]).handle))
            },
            None => true,
        },
{
    let ghost orig = lights@;
    let mut work = lights;
    sort_requests(&mut work);
    let ghost sorted_full = work@;
    proof {
        // sorting into priority order is unique, so the working sequence is
        // exactly the priority order of the input
        lemma_prioritized_ensures(orig);
        lemma_sorted_unique(sorted_full, prioritized(orig));
    }
    if work.len() == 0 {
        return None;
    }
    let res0 = work[0].1;
    if res0 > max_texture_dimension {
        proof {
            assert(sorted_full.contains(sorted_full[0]));
            lemma_multiset_member(sorted_full, orig, sorted_full[0]);
        }
        return None;
    }
    proof {
        // every request is one of the sorted requests, and the first sorted
        // request bounds them all, so none exceeds the hardware maximum
        assert forall|i: int| 0 <= i < orig.len() implies (#[trigger] orig[i]).1
            <= max_texture_dimension by {
            assert(orig.contains(orig[i]));
            lemma_multiset_member(orig, sorted_full, orig[i]);
            let j = choose|j: int| 0 <= j < sorted_full.len() && sorted_full[j] == orig[i];
            if j > 0 {
                assert(request_precedes(sorted_full[0], sorted_full[j]));
            }
        }
    }
    let mut side: u32 = res0;
    loop
        invariant
            orig == lights@,
            requests_sorted(sorted_full),
            sorted_full.to_multiset() == orig.to_multiset(),
            sorted_full.len() == orig.len(),
            1 <= work@.len() <= orig.len(),
            work@ =~= sorted_full.take(work@.len() as int),
            sorted_full =~= prioritized(orig),
            res0 == sorted_full[0].1,
            res0 <= side <= max_texture_dimension,
            forall|i: int| 0 <= i < orig.len() ==> (#[trigger] orig[i]).1 <= max_texture_dimension,
            work@.len() == orig.len() || (side == max_texture_dimension && !shelf_fits(
                sorted_full.take(work@.len() + 1 as int),
                max_texture_dimension,
            )),
        decreases work@.len(), max_texture_dimension - side,
    {
        proof {
            assert(requests_sorted(work@));
            assert(work@[0] == sorted_full[0]);
        }
        let packed = try_pack(&work, side);
        match packed {
            Some(maps) => {
                proof {
                    assert forall|k: int| 0 <= k < maps@.len() implies orig.contains(map_request(
                        #[trigger] maps@[k],
                    )) by {
                        assert(map_request(maps@[k]) == work@[k]);
                        assert(sorted_full.contains(work@[k]));
                        lemma_multiset_member(sorted_full, orig, work@[k]);
                    }
                    assert forall|k1: int, k2: int|
                        0 <= k1 < k2 < maps@.len() implies request_precedes(
                        map_request(#[trigger] maps@[k1]),
                        map_request(#[trigger] maps@[k2]),
                    ) by {
                        assert(map_request(maps@[k1]) == work@[k1]);
                        assert(map_request(maps@[k2]) == work@[k2]);
                    }
                    // the maps answer the priority order's prefix exactly
                    assert forall|k: int| 0 <= k < maps@.len() implies map_request(
                        #[trigger] maps@[k],
                    ) == prioritized(orig)[k] by {
                        assert(map_request(maps@[k]) == work@[k]);
                        assert(work@[k] == sorted_full[k]);
                    }
                    // when the whole priority order fits the maximum,
                    // nothing is dropped
                    if shelf_fits(prioritized(orig), max_texture_dimension) && work@.len()
                        < orig.len() {
                        lemma_shelf_fits_prefix(
                            prioritized(orig),
                            max_texture_dimension,
                            work@.len() + 1 as int,
                        );
                        assert(false);
                    }
                    // distinct input handles give distinct placed handles
                    if forall|i: int, j: int|
                        0 <= i < j < orig.len() ==> (#[trigger] orig[i]).0 != (
                        #[trigger] orig[j]).0 {
                        assert forall|i: int, j: int|
                            0 <= i < orig.len() && 0 <= j < orig.len() && i != j implies orig[i]
                            != orig[j] by {
                            if i < j {
                                assert(orig[i].0 != orig[j].0);
                            } else {
                                assert(orig[j].0 != orig[i].0);
                            }
                        }
                        assert(orig.no_duplicates());
                        orig.lemma_multiset_has_no_duplicates();
                        assert forall|x: ShadowRequest|
                            sorted_full.to_multiset().contains(x) implies sorted_full.to_multiset()
                            .count(x) == 1 by {
                            assert(orig.to_multiset().contains(x));
                        }
                        sorted_full.lemma_multiset_has_no_duplicates_conv();
                        assert forall|k1: int, k2: int|
                            0 <= k1 < k2 < maps@.len() implies (#[trigger] maps@[k1]).handle != (
                        #[trigger] maps@[k2]).handle by {
                            if maps@[k1].handle == maps@[k2].handle {
                                // two prefix entries with one handle would be
                                // two input requests with one handle
                                assert(map_request(maps@[k1]) == sorted_full[k1]);
                                assert(map_request(maps@[k2]) == sorted_full[k2]);
                                assert(sorted_full[k1] != sorted_full[k2]);
                                assert(sorted_full.contains(sorted_full[k1]));
                                lemma_multiset_member(sorted_full, orig, sorted_full[k1]);
                                assert(sorted_full.contains(sorted_full[k2]));
                                lemma_multiset_member(sorted_full, orig, sorted_full[k2]);
                                let i1 = choose|i: int|
                                    0 <= i < orig.len() && orig[i] == sorted_full[k1];
                                let i2 = choose|i: int|
                                    0 <= i < orig.len() && orig[i] == sorted_full[k2];
                                assert(i1 != i2);
                                if i1 < i2 {
                                    assert(orig[i1].0 != orig[i2].0);
                                } else {
                                    assert(orig[i2].0 != orig[i1].0);
                                }
                                assert(false);
                            }
                        }
                    }
                }
                return Some(ShadowAtlas { texture_dimensions: side, maps });
            },
            None => {
                if side < max_texture_dimension {
                    proof {
                        if side == 0 {
                            // only zero-sized requests fit a zero-sided
                            // square, and those always pack
                            assert(work@[0].1 == 0);
                            assert(false);
                        }
                    }
                    if side <= max_texture_dimension - side {
                        side = side + side;
                    } else {
                        side = max_texture_dimension;
                    }
                } else {
                    proof {
                        if work@.len() == 1 {
                            // a single request no larger than the square
                            // always packs, and the largest fits the maximum
                            assert(work@[0].1 <= side);
                            assert(false);
                        }
                    }
                    // the working set does not fit even at the hardware
                    // maximum: drop the lowest-priority request
                    let ghost before = work@;
                    let _dropped = work.pop();
                    proof {
                        assert(work@ =~= sorted_full.take(work@.len() as int));
                        // what was just tried is exactly the one-longer
                        // prefix, and it did not fit
                        assert(!shelf_fits(before, side));
                        assert(before =~= sorted_full.take(work@.len() + 1 as int));
                    }
                }
            },
        }
    }
}

} // verus!
