//! Numeric helpers for the binary wire format.
//!
//! Coordinates are held as signed fixed-point integers.  One degree is
//! `COORD_UNITS_PER_DEGREE` units; the unit is chosen so that both wire
//! encodings of a coordinate are exact in it:
//! * an absolute 24-bit wire value covers 360 degrees in 2^24 steps with a
//!   half-step sign correction, so one wire step is 281_250 units and the
//!   half step 140_625 units;
//! * a relative 16-bit wire value is a count of 1/100_000 degree, which is
//!   131_072 units.

use vstd::prelude::*;
use crate::astar::find_acceptable_shortest_path;
use crate::candidate_edge::{cand_leq, CandidateEdge};
use crate::edge::{Edge, GeoPoint};
use crate::errors::OpenLrErr;
use crate::location_reference_point::{cand_sorted, LocationReferencePoint};
use crate::map::MapServer;
use crate::request_context::RequestContext;
use crate::route_generator::{combo_valid, RouteGenerator};

verus! {

/// How a walk along `s` consumes an offset: the number of whole edges
/// whose lengths fit into the offset one after another, and what is
/// left of the offset after them.
pub open spec fn spec_trim_steps(s: Seq<Edge>, offset: int) -> (int, int)
    decreases s.len(),
{
    if s.len() == 0 || s[0].len > offset {
        (0, offset)
    } else {
        let t = spec_trim_steps(s.drop_first(), offset - s[0].len);
        (t.0 + 1, t.1)
    }
}

/// The result of trimming `s` by `offset`: the count of wholly consumed
/// leading edges and the remaining offset into the next edge, or
/// nothing when the offset consumes the whole sequence.
pub open spec fn spec_trim(s: Seq<Edge>, offset: int) -> Option<(int, int)> {
    let t = spec_trim_steps(s, offset);
    if t.0 == s.len() {
        None
    } else {
        Some(t)
    }
}

/// The trim walk consumes between zero and all edges, and never makes
/// the offset negative or larger.
pub proof fn lemma_trim_steps_bounds(s: Seq<Edge>, offset: int)
    requires
        offset >= 0,
    ensures
        0 <= spec_trim_steps(s, offset).0 <= s.len(),
        0 <= spec_trim_steps(s, offset).1 <= offset,
    decreases s.len(),
{
    if s.len() != 0 && s[0].len <= offset {
        lemma_trim_steps_bounds(s.drop_first(), offset - s[0].len);
    }
}

/// The length of the edge a trim walk looks at next: the `i`-th from
/// the front, or from the back when walking from the end.
fn pick_len(edges: &Vec<Edge>, from_end: bool, i: usize) -> (r: u32)
    requires
        i < edges@.len(),
    ensures
        r == (if from_end {
            edges@.reverse()
        } else {
            edges@
        })[i as int].len,
{
    if from_end {
        edges[edges.len() - 1 - i].len
    } else {
        edges[i].len
    }
}

/// Walks the edge sequence — from its end when `from_end` is set —
/// consuming whole edges while the remaining offset covers them.
/// Returns the number of consumed edges and the leftover offset, or
/// `None` when the offset spans every edge.
pub fn trim(edges: &Vec<Edge>, from_end: bool, offset: u32) -> (r: Option<(usize, u32)>)
    ensures
        ({
            let s = if from_end {
                edges@.reverse()
            } else {
                edges@
            };
            match spec_trim(s, offset as int) {
                None => r is None,
                Some(t) => r == Some((t.0 as usize, t.1 as u32)),
            }
        }),
        r matches Some(p) ==> p.0 < edges@.len() && p.1 <= offset,
        ({
            let s = if from_end {
                edges@.reverse()
            } else {
                edges@
            };
            spec_trim(s, offset as int) matches Some(t) ==> 0 <= t.0 < s.len() && 0 <= t.1
                <= offset
        }),
{
    let ghost s = if from_end {
        edges@.reverse()
    } else {
        edges@
    };
    let n = edges.len();
    let mut i: usize = 0;
    let mut rem: u32 = offset;
    proof {
        assert(s.skip(0) =~= s);
        lemma_trim_steps_bounds(s, offset as int);
    }
    while i < n && pick_len(edges, from_end, i) <= rem
        invariant
            0 <= i <= n,
            n == edges@.len(),
            s == (if from_end {
                edges@.reverse()
            } else {
                edges@
            }),
            s.len() == n,
            rem <= offset,
            spec_trim_steps(s, offset as int).0 == i + spec_trim_steps(s.skip(i as int), rem as int).0,
            spec_trim_steps(s, offset as int).1 == spec_trim_steps(s.skip(i as int), rem as int).1,
        decreases n - i,
    {
        let ghost before = s.skip(i as int);
        proof {
            assert(before[0] == s[i as int]);
            assert(before.drop_first() =~= s.skip(i as int + 1));
        }
        let step = pick_len(edges, from_end, i);
        proof {
            assert(s[i as int].len == step);
        }
        rem = rem - step;
        i = i + 1;
    }
    proof {
        if i < n {
            assert(s.skip(i as int)[0] == s[i as int]);
        } else {
            assert(s.skip(i as int).len() == 0);
        }
    }
    if i == n {
        None
    } else {
        Some((i, rem))
    }
}

/// Fixed-point coordinate units in one degree of longitude or latitude.
pub const COORD_UNITS_PER_DEGREE: i64 = 13_107_200_000;

/// Coordinate units in one step of the absolute 24-bit wire encoding
/// (360 degrees / 2^24).
pub const COORD_UNITS_PER_WIRE_STEP: i64 = 281_250;

/// Coordinate units in half a wire step: the sign correction of the
/// absolute encoding.
pub const COORD_UNITS_PER_HALF_WIRE_STEP: i64 = 140_625;

/// Coordinate units in one step of the relative 16-bit wire encoding
/// (1/100_000 degree).
pub const COORD_UNITS_PER_RELATIVE_STEP: i64 = 131_072;

/// A bound on the magnitude of every coordinate this crate computes;
/// wire decoding keeps all intermediate coordinates inside it, and one
/// further relative step cannot leave the signed 64-bit range.
pub const COORD_MAGNITUDE_LIMIT: i64 = 9_000_000_000_000_000_000;

/// Centidegrees in one bearing sector: a full circle is 32 sectors of
/// 11.25 degrees each.
pub const CENTIDEGREES_PER_SECTOR: u32 = 1_125;

/// The distance-to-next-point byte covers 15_000 m in 256 sections;
/// one section is 15_000/256 = 1875/32 m.
pub const DNP_SCALE_NUMERATOR: u32 = 1_875;

/// Denominator of the distance-to-next-point section width.
pub const DNP_SCALE_DENOMINATOR: u32 = 32;

/// The memo of sub-path searches within one decode: per ordered pair
/// of candidate edge ids, either the found connecting path or the
/// knowledge that none exists.
pub struct SubPathCache {
    pub entries: Vec<(i64, i64, Option<Vec<Edge>>)>,
}

impl SubPathCache {
    /// Whether the pair has any entry.
    pub open spec fn spec_has(&self, a: i64, b: i64) -> bool {
        exists|i: int|
            0 <= i < self.entries@.len() && (#[trigger] self.entries@[i]).0 == a
                && self.entries@[i].1 == b
    }

    /// Whether the pair has a positive entry: a known connecting path.
    pub open spec fn spec_is_some(&self, a: i64, b: i64) -> bool {
        exists|i: int|
            0 <= i < self.entries@.len() && (#[trigger] self.entries@[i]).0 == a
                && self.entries@[i].1 == b && self.entries@[i].2 is Some
    }

    /// Well-formedness: one entry per pair, and every stored path runs
    /// from the first id of its pair to the second.
    pub open spec fn wf(&self) -> bool {
        &&& forall|i: int, j: int|
            0 <= i < j < self.entries@.len() ==> !((#[trigger] self.entries@[i]).0 == (
            #[trigger] self.entries@[j]).0 && self.entries@[i].1 == self.entries@[j].1)
        &&& forall|i: int|
            0 <= i < self.entries@.len() ==> match (#[trigger] self.entries@[i]).2 {
                Some(v) => v@.len() >= 1 && v@[0].id == self.entries@[i].0 && v@.last().id
                    == self.entries@[i].1,
                None => true,
            }
    }

    pub fn new() -> (r: SubPathCache)
        ensures
            r.wf(),
            forall|a: i64, b: i64| !r.spec_has(a, b),
    {
        SubPathCache { entries: Vec::new() }
    }

    /// Looks a pair up; a positive entry comes back as a copy of the
    /// stored path.
    pub fn get(&self, a: i64, b: i64) -> (r: Option<Option<Vec<Edge>>>)
        requires
            self.wf(),
        ensures
            r is Some <==> self.spec_has(a, b),
            r matches Some(inner) ==> {
                &&& (inner is Some <==> self.spec_is_some(a, b))
                &&& inner matches Some(v) ==> v@.len() >= 1 && v@[0].id == a && v@.last().id == b
            },
    {
        let mut i: usize = 0;
        while i < self.entries.len()
            invariant
                i <= self.entries@.len(),
                self.wf(),
                forall|t: int|
                    0 <= t < i ==> !((#[trigger] self.entries@[t]).0 == a && self.entries@[t].1
                        == b),
            decreases self.entries@.len() - i,
        {
            if self.entries[i].0 == a && self.entries[i].1 == b {
                proof {
                    assert(self.spec_has(a, b));
                    assert forall|j: int|
                        0 <= j < self.entries@.len() && (#[trigger] self.entries@[j]).0 == a
                            && self.entries@[j].1 == b implies j == i by {}
                }
                match &self.entries[i].2 {
                    None => {
                        return Some(None);
                    },
                    Some(v) => {
                        let copy = crate::edge::clone_edges(v);
                        proof {
                            assert(self.entries@[i as int].2 matches Some(sv) ==> copy@.len()
                                == sv@.len());
                        }
                        return Some(Some(copy));
                    },
                }
            }
            i = i + 1;
        }
        proof {
            assert(!self.spec_has(a, b));
        }
        None
    }

    /// Records an entry for a pair, replacing any prior one.  A
    /// positive entry must run from the first id of the pair to the
    /// second.
    #[verifier::rlimit(100)]
    pub fn insert(&mut self, a: i64, b: i64, val: Option<Vec<Edge>>)
        requires
            old(self).wf(),
            val matches Some(v) ==> v@.len() >= 1 && v@[0].id == a && v@.last().id == b,
        ensures
            final(self).wf(),
            final(self).spec_has(a, b),
            final(self).spec_is_some(a, b) <==> val is Some,
            forall|x: i64, y: i64|
                !(x == a && y == b) ==> (final(self).spec_has(x, y) <==> old(self).spec_has(x, y)),
            forall|x: i64, y: i64|
                !(x == a && y == b) ==> (final(self).spec_is_some(x, y) <==> old(self).spec_is_some(
                    x,
                    y,
                )),
    {
        let ghost pre = self.entries@;
        let mut i: usize = 0;
        let mut found = false;
        while !found && i < self.entries.len()
            invariant
                i <= self.entries@.len(),
                old(self).wf(),
                !found ==> self.entries@ == pre,
                !found ==> forall|t: int|
                    0 <= t < i ==> !((#[trigger] self.entries@[t]).0 == a && self.entries@[t].1
                        == b),
                found ==> i < pre.len() && pre[i as int].0 == a && pre[i as int].1 == b
                    && self.entries@ == pre.remove(i as int),
            decreases self.entries@.len() - i + (if found { 0int } else { 1int }),
        {
            if self.entries[i].0 == a && self.entries[i].1 == b {
                self.entries.remove(i);
                found = true;
            } else {
                i = i + 1;
            }
        }
        let ghost mid = self.entries@;
        proof {
            // after any removal, no entry for the pair remains, entries
            // are drawn from the old ones, and uniqueness is kept
            assert forall|t: int| 0 <= t < mid.len() implies !((#[trigger] mid[t]).0 == a
                && mid[t].1 == b) by {
                if found {
                    let w = if t < i { t } else { t + 1 };
                    assert(pre[w] == mid[t]);
                    if pre[w].0 == a && pre[w].1 == b {
                        assert(pre[i as int].0 == a && pre[i as int].1 == b);
                        assert(w != i);
                    }
                }
            }
            assert forall|p2: int, q2: int| 0 <= p2 < q2 < mid.len() implies !((
            #[trigger] mid[p2]).0 == (#[trigger] mid[q2]).0 && mid[p2].1 == mid[q2].1) by {
                if found {
                    let wp = if p2 < i { p2 } else { p2 + 1 };
                    let wq = if q2 < i { q2 } else { q2 + 1 };
                    assert(pre[wp] == mid[p2]);
                    assert(pre[wq] == mid[q2]);
                    assert(wp < wq);
                }
            }
            assert forall|t: int| 0 <= t < mid.len() implies match (#[trigger] mid[t]).2 {
                Some(v) => v@.len() >= 1 && v@[0].id == mid[t].0 && v@.last().id == mid[t].1,
                None => true,
            } by {
                if found {
                    let w = if t < i { t } else { t + 1 };
                    assert(pre[w] == mid[t]);
                }
            }
        }
        self.entries.push((a, b, val));
        proof {
            assert(self.entries@ == mid.push((a, b, val)));
            assert((#[trigger] self.entries@[mid.len() as int]).0 == a);
            assert(self.spec_has(a, b));
            assert forall|x: i64, y: i64| !(x == a && y == b) implies (self.spec_has(x, y)
                <==> old(self).spec_has(x, y)) by {
                if self.spec_has(x, y) {
                    let w = choose|w: int|
                        0 <= w < self.entries@.len() && (#[trigger] self.entries@[w]).0 == x
                            && self.entries@[w].1 == y;
                    assert(w < mid.len());
                    assert(mid[w] == self.entries@[w]);
                    if found {
                        let w2 = if w < i { w } else { w + 1 };
                        assert(pre[w2] == mid[w]);
                    }
                }
                if old(self).spec_has(x, y) {
                    let w = choose|w: int|
                        0 <= w < pre.len() && (#[trigger] pre[w]).0 == x && pre[w].1 == y;
                    if found {
                        assert(w != i);
                        let w2 = if w < i { w } else { w - 1 };
                        assert(mid[w2] == pre[w]);
                        assert(self.entries@[w2] == mid[w2]);
                    } else {
                        assert(self.entries@[w] == pre[w]);
                    }
                }
            }
            assert forall|x: i64, y: i64| !(x == a && y == b) implies (self.spec_is_some(x, y)
                <==> old(self).spec_is_some(x, y)) by {
                if self.spec_is_some(x, y) {
                    let w = choose|w: int|
                        0 <= w < self.entries@.len() && (#[trigger] self.entries@[w]).0 == x
                            && self.entries@[w].1 == y && self.entries@[w].2 is Some;
                    assert(w < mid.len());
                    assert(mid[w] == self.entries@[w]);
                    if found {
                        let w2 = if w < i { w } else { w + 1 };
                        assert(pre[w2] == mid[w]);
                    }
                }
                if old(self).spec_is_some(x, y) {
                    let w = choose|w: int|
                        0 <= w < pre.len() && (#[trigger] pre[w]).0 == x && pre[w].1 == y
                            && pre[w].2 is Some;
                    if found {
                        assert(w != i);
                        let w2 = if w < i { w } else { w - 1 };
                        assert(mid[w2] == pre[w]);
                        assert(self.entries@[w2] == mid[w2]);
                    } else {
                        assert(self.entries@[w] == pre[w]);
                    }
                }
            }
            assert(self.spec_is_some(a, b) <==> val is Some) by {
                if self.spec_is_some(a, b) {
                    let w = choose|w: int|
                        0 <= w < self.entries@.len() && (#[trigger] self.entries@[w]).0 == a
                            && self.entries@[w].1 == b && self.entries@[w].2 is Some;
                    if w < mid.len() {
                        assert(!((mid[w]).0 == a && mid[w].1 == b));
                        assert(false);
                    }
                }
                if val is Some {
                    assert(self.entries@[mid.len() as int].2 is Some);
                }
            }
        }
    }
}

/// A ranked candidate list as the batched search yields it: nonempty,
/// ordered by the candidate order, every entry bound to point `i` with
/// a score within four fully weighted components.
pub open spec fn candidate_row_ok(row: Seq<CandidateEdge>, i: int) -> bool {
    &&& row.len() >= 1
    &&& cand_sorted(row)
    &&& forall|k: int| 0 <= k < row.len() ==> (#[trigger] row[k]).lrp_index == i
    &&& forall|k: int| 0 <= k < row.len() ==> (#[trigger] row[k]).score <= 40_000_000
}

/// Queries the map provider once for the edges near every point, then
/// scores, filters and ranks them per point.  Fails when the provider
/// fails, answers for the wrong number of points, or leaves some point
/// without an acceptable candidate.
pub fn find_candidates<M: MapServer>(
    map_server: &M,
    lrps: &Vec<LocationReferencePoint>,
    context: &mut RequestContext,
) -> (r: Result<Vec<Vec<CandidateEdge>>, OpenLrErr>)
    requires
        old(context).params.wf(),
        forall|i: int| 0 <= i < lrps@.len() ==> (#[trigger] lrps@[i]).wf(),
        forall|i: int| 0 <= i < lrps@.len() ==> (#[trigger] lrps@[i]).index == i,
    ensures
        final(context).params == old(context).params,
        final(context).spec_log_level() == old(context).spec_log_level(),
        r matches Ok(c) ==> {
            &&& c@.len() == lrps@.len()
            &&& forall|i: int| 0 <= i < c@.len() ==> candidate_row_ok((#[trigger] c@[i])@, i)
        },
{
    let params = context.params;
    let mut points: Vec<GeoPoint> = Vec::new();
    let mut i: usize = 0;
    while i < lrps.len()
        invariant
            i <= lrps@.len(),
            points@.len() == i,
        decreases lrps@.len() - i,
    {
        points.push(GeoPoint { lon: lrps[i].longitude, lat: lrps[i].latitude });
        i = i + 1;
    }
    let nearby = match map_server.get_nearby_edges(&points, params.search_radius, params.bearing_distance) {
        Ok(v) => v,
        Err(e) => {
            context.debug("nearby-edge search failed");
            return Err(e);
        },
    };
    if nearby.len() != lrps.len() {
        return Err(
            OpenLrErr::NearbyEdgesError(
                String::from_str("provider answered for a different number of points"),
            ),
        );
    }
    let mut pending = nearby;
    let mut candidates: Vec<Vec<CandidateEdge>> = Vec::new();
    let mut j: usize = 0;
    while j < lrps.len()
        invariant
            j <= lrps@.len(),
            pending@.len() == lrps@.len() - j,
            candidates@.len() == j,
            context.params == old(context).params,
            context.spec_log_level() == old(context).spec_log_level(),
            params == old(context).params,
            params.wf(),
            forall|i2: int| 0 <= i2 < lrps@.len() ==> (#[trigger] lrps@[i2]).wf(),
            forall|i2: int| 0 <= i2 < lrps@.len() ==> (#[trigger] lrps@[i2]).index == i2,
            forall|i2: int|
                0 <= i2 < j ==> candidate_row_ok((#[trigger] candidates@[i2])@, i2),
        decreases lrps@.len() - j,
    {
        let batch = pending.remove(0);
        match lrps[j].find_candidate_edges(batch, context) {
            Ok(v) => {
                proof {
                    assert(candidate_row_ok(v@, j as int));
                }
                candidates.push(v);
            },
            Err(e) => {
                return Err(e);
            },
        }
        j = j + 1;
    }
    Ok(candidates)
}

/// Whether no two neighboring edges of a path share an id.
pub open spec fn no_adjacent_dup(p: Seq<Edge>) -> bool {
    forall|j: int| 0 <= j < p.len() - 1 ==> (#[trigger] p[j]).id != p[j + 1].id
}

/// The ordered edge-id pair of neighboring candidates `k` and `k + 1`.
pub open spec fn pair_ids(c: Seq<CandidateEdge>, k: int) -> (i64, i64) {
    (c[k].candidate.id, c[k + 1].candidate.id)
}

/// Whether no two neighboring pairs of a candidate sequence carry the
/// same ordered id pair.
pub open spec fn pairs_distinct(c: Seq<CandidateEdge>) -> bool {
    forall|j: int, j2: int|
        #![trigger pair_ids(c, j), pair_ids(c, j2)]
        0 <= j < j2 < c.len() - 1 ==> pair_ids(c, j) != pair_ids(c, j2)
}

/// Whether the cache holds nothing for any neighboring pair of the
/// candidate sequence.
pub open spec fn no_pair_cached(cache: SubPathCache, c: Seq<CandidateEdge>) -> bool {
    forall|k: int|
        0 <= k < c.len() - 1 ==> !(#[trigger] cache.spec_has(pair_ids(c, k).0, pair_ids(c, k).1))
}

/// Whether the cache holds a found sub-path for pair `k` of the
/// candidate sequence.
pub open spec fn pair_cached_positive(cache: SubPathCache, c: Seq<CandidateEdge>, k: int) -> bool {
    cache.spec_has(pair_ids(c, k).0, pair_ids(c, k).1) && cache.spec_is_some(
        pair_ids(c, k).0,
        pair_ids(c, k).1,
    )
}

/// Whether the cache records pair `k` of the candidate sequence as
/// unreachable.
pub open spec fn pair_cached_negative(cache: SubPathCache, c: Seq<CandidateEdge>, k: int) -> bool {
    cache.spec_has(pair_ids(c, k).0, pair_ids(c, k).1) && !cache.spec_is_some(
        pair_ids(c, k).0,
        pair_ids(c, k).1,
    )
}


/// Whether the recorded sub-path pairs are pairwise distinct and none
/// of them is the failing pair itself: under that separation, committing
/// cannot overwrite one recorded pair with another.
pub open spec fn work_pairs_separate(work: Seq<(usize, i64, i64)>, a: i64, b: i64) -> bool {
    &&& forall|w1: int, w2: int|
        #![trigger work[w1], work[w2]]
        0 <= w1 < w2 < work.len() ==> !(work[w1].1 == work[w2].1 && work[w1].2 == work[w2].2)
    &&& forall|w: int|
        0 <= w < work.len() ==> !((#[trigger] work[w]).1 == a && work[w].2 == b)
}

/// Commits the sub-paths a failed combination found into the cache as
/// positive entries, then records the failing pair as negative.  When
/// the recorded pairs are separate, every one of them ends up cached
/// positive.
fn commit_failed_combination(
    cache: &mut SubPathCache,
    cache_work: &Vec<(usize, i64, i64)>,
    location_path: &Vec<Vec<Edge>>,
    a: i64,
    b: i64,
)
    requires
        old(cache).wf(),
        forall|w: int|
            0 <= w < cache_work@.len() ==> {
                &&& (#[trigger] cache_work@[w]).0 < location_path@.len()
                &&& location_path@[cache_work@[w].0 as int]@.len() >= 1
                &&& location_path@[cache_work@[w].0 as int]@[0].id == cache_work@[w].1
                &&& location_path@[cache_work@[w].0 as int]@.last().id == cache_work@[w].2
                &&& !old(cache).spec_has(cache_work@[w].1, cache_work@[w].2)
            },
        !old(cache).spec_has(a, b),
    ensures
        final(cache).wf(),
        forall|x: i64, y: i64|
            old(cache).spec_has(x, y) ==> final(cache).spec_has(x, y) && (final(cache).spec_is_some(
                x,
                y,
            ) <==> old(cache).spec_is_some(x, y)),
        final(cache).spec_has(a, b),
        !final(cache).spec_is_some(a, b),
        work_pairs_separate(cache_work@, a, b) ==> forall|w: int|
            0 <= w < cache_work@.len() ==> #[trigger] final(cache).spec_has(
                cache_work@[w].1,
                cache_work@[w].2,
            ) && final(cache).spec_is_some(cache_work@[w].1, cache_work@[w].2),
{
    let ghost ok = work_pairs_separate(cache_work@, a, b);
    let mut ci: usize = 0;
    while ci < cache_work.len()
        invariant
            ci <= cache_work@.len(),
            cache.wf(),
            ok == work_pairs_separate(cache_work@, a, b),
            forall|x: i64, y: i64|
                old(cache).spec_has(x, y) ==> cache.spec_has(x, y) && (cache.spec_is_some(x, y)
                    <==> old(cache).spec_is_some(x, y)),
            ok ==> forall|w: int|
                0 <= w < ci ==> #[trigger] cache.spec_has(cache_work@[w].1, cache_work@[w].2)
                    && cache.spec_is_some(cache_work@[w].1, cache_work@[w].2),
            forall|w: int|
                0 <= w < cache_work@.len() ==> {
                    &&& (#[trigger] cache_work@[w]).0 < location_path@.len()
                    &&& location_path@[cache_work@[w].0 as int]@.len() >= 1
                    &&& location_path@[cache_work@[w].0 as int]@[0].id == cache_work@[w].1
                    &&& location_path@[cache_work@[w].0 as int]@.last().id == cache_work@[w].2
                    &&& !old(cache).spec_has(cache_work@[w].1, cache_work@[w].2)
                },
        decreases cache_work@.len() - ci,
    {
        let (idx, x, y) = cache_work[ci];
        let pathcopy = crate::edge::clone_edges(&location_path[idx]);
        proof {
            assert(pathcopy@[0].id == location_path@[idx as int]@[0].id);
            assert(pathcopy@.last().id == location_path@[idx as int]@.last().id);
        }
        cache.insert(x, y, Some(pathcopy));
        proof {
            if ok {
                assert forall|w: int|
                    0 <= w < ci + 1 implies #[trigger] cache.spec_has(
                    cache_work@[w].1,
                    cache_work@[w].2,
                ) && cache.spec_is_some(cache_work@[w].1, cache_work@[w].2) by {
                    if w < ci {
                        assert(cache_work@[w].1 != x || cache_work@[w].2 != y) by {
                            assert(!(cache_work@[w].1 == cache_work@[ci as int].1
                                && cache_work@[w].2 == cache_work@[ci as int].2));
                        }
                    }
                }
            }
        }
        ci = ci + 1;
    }
    cache.insert(a, b, None);
    proof {
        if ok {
            assert forall|w: int|
                0 <= w < cache_work@.len() implies #[trigger] cache.spec_has(
                cache_work@[w].1,
                cache_work@[w].2,
            ) && cache.spec_is_some(cache_work@[w].1, cache_work@[w].2) by {
                assert(!(cache_work@[w].1 == a && cache_work@[w].2 == b));
            }
        }
    }
}

/// Concatenates the per-pair sub-paths into one path, dropping an edge
/// wherever it repeats its predecessor's id at a boundary.
#[verifier::rlimit(100)]
#[verifier::spinoff_prover]
fn concat_dedup(parts_vec: Vec<Vec<Edge>>, candidates: &Vec<CandidateEdge>) -> (r: Vec<Edge>)
    requires
        candidates@.len() >= 2,
        parts_vec@.len() == candidates@.len() - 1,
        forall|t: int|
            0 <= t < parts_vec@.len() ==> {
                &&& (#[trigger] parts_vec@[t])@.len() >= 1
                &&& parts_vec@[t]@[0].id == candidates@[t].candidate.id
                &&& parts_vec@[t]@.last().id == candidates@[t + 1].candidate.id
            },
    ensures
        r@.len() >= 1,
        r@[0].id == candidates@[0].candidate.id,
        r@.last().id == candidates@.last().candidate.id,
        no_adjacent_dup(r@),
{
    let ghost parts = parts_vec@;
    let mut location_path = parts_vec;
    proof {
        vstd::std_specs::vec::axiom_spec_len(&location_path);
    }
    let mut result: Vec<Edge> = Vec::new();
    let mut t: usize = 0;
    while location_path.len() > 0
        invariant
            t <= parts.len(),
            parts.len() <= usize::MAX,
            location_path@ == parts.skip(t as int),
            parts.len() == candidates@.len() - 1,
            candidates@.len() >= 2,
            forall|t2: int|
                0 <= t2 < parts.len() ==> {
                    &&& (#[trigger] parts[t2])@.len() >= 1
                    &&& parts[t2]@[0].id == candidates@[t2].candidate.id
                    &&& parts[t2]@.last().id == candidates@[t2 + 1].candidate.id
                },
            t == 0 ==> result@.len() == 0,
            t > 0 ==> result@.len() >= 1 && result@[0].id == candidates@[0].candidate.id
                && result@.last().id == candidates@[t as int].candidate.id,
            no_adjacent_dup(result@),
        decreases parts.len() - t,
    {
        let ghost pre_lp = location_path@;
        let mut sub = location_path.remove(0);
        proof {
            assert(pre_lp[0] == parts[t as int]);
            assert(location_path@ =~= parts.skip(t as int + 1));
        }
        let ghost orig_sub = sub@;
        proof {
            vstd::std_specs::vec::axiom_spec_len(&sub);
        }
        let mut j: usize = 0;
        while sub.len() > 0
            invariant
                j <= orig_sub.len(),
                orig_sub.len() <= usize::MAX,
                sub@ == orig_sub.skip(j as int),
                orig_sub.len() >= 1,
                t < candidates@.len() - 1,
                t == 0 && j == 0 ==> result@.len() == 0,
                t > 0 || j > 0 ==> result@.len() >= 1 && result@[0].id
                    == candidates@[0].candidate.id,
                j > 0 ==> result@.len() >= 1 && result@.last().id == orig_sub[j - 1].id,
                t > 0 && j == 0 ==> result@.len() >= 1 && result@.last().id
                    == candidates@[t as int].candidate.id,
                no_adjacent_dup(result@),
                orig_sub[0].id == candidates@[t as int].candidate.id,
                orig_sub.last().id == candidates@[t as int + 1].candidate.id,
            decreases sub@.len(),
        {
            let ghost pre_sub = sub@;
            let e = sub.remove(0);
            proof {
                assert(e == orig_sub[j as int]);
                assert(sub@ =~= orig_sub.skip(j as int + 1));
            }
            let eid = e.get_id();
            if result.len() == 0 {
                result.push(e);
            } else {
                let last_id = result[result.len() - 1].get_id();
                if last_id != eid {
                    let ghost pre_res = result@;
                    result.push(e);
                    proof {
                        assert forall|q: int|
                            0 <= q < result@.len() - 1 implies (#[trigger] result@[q]).id
                            != result@[q + 1].id by {
                            if q < pre_res.len() - 1 {
                                assert(result@[q] == pre_res[q]);
                                assert(result@[q + 1] == pre_res[q + 1]);
                            }
                        }
                    }
                }
            }
            j = j + 1;
        }
        t = t + 1;
    }
    proof {
        assert(t == parts.len());
        assert(candidates@.last() == candidates@[candidates@.len() - 1]);
        assert(result@.last().id == candidates@[t as int].candidate.id);
    }
    result
}

/// After a failed combination with nothing pre-cached, the committed
/// cache records the failing pair as negative and every earlier pair of
/// the combination as positive.
proof fn lemma_failure_cache_state(
    cache: SubPathCache,
    candidates: Seq<CandidateEdge>,
    cache_work: Seq<(usize, i64, i64)>,
    k: int,
)
    requires
        0 <= k < candidates.len() - 1,
        pairs_distinct(candidates),
        cache_work.len() == k,
        forall|w: int| 0 <= w < k ==> (#[trigger] cache_work[w]).0 == w,
        forall|w: int|
            0 <= w < cache_work.len() ==> (#[trigger] cache_work[w]).1
                == candidates[cache_work[w].0 as int].candidate.id && cache_work[w].2
                == candidates[cache_work[w].0 as int + 1].candidate.id,
        cache.spec_has(pair_ids(candidates, k).0, pair_ids(candidates, k).1),
        !cache.spec_is_some(pair_ids(candidates, k).0, pair_ids(candidates, k).1),
        work_pairs_separate(
            cache_work,
            pair_ids(candidates, k).0,
            pair_ids(candidates, k).1,
        ) ==> forall|w: int|
            0 <= w < cache_work.len() ==> #[trigger] cache.spec_has(
                cache_work[w].1,
                cache_work[w].2,
            ) && cache.spec_is_some(cache_work[w].1, cache_work[w].2),
    ensures
        pair_cached_negative(cache, candidates, k),
        forall|j: int| 0 <= j < k ==> #[trigger] pair_cached_positive(cache, candidates, j),
{
    assert forall|w: int|
        0 <= w < cache_work.len() implies (#[trigger] cache_work[w]).1 == pair_ids(candidates, w).0
        && cache_work[w].2 == pair_ids(candidates, w).1 by {
        assert(cache_work[w].0 == w);
    }
    assert(work_pairs_separate(
        cache_work,
        pair_ids(candidates, k).0,
        pair_ids(candidates, k).1,
    )) by {
        assert forall|w1: int, w2: int|
            #![trigger cache_work[w1], cache_work[w2]]
            0 <= w1 < w2 < cache_work.len() implies !(cache_work[w1].1 == cache_work[w2].1
            && cache_work[w1].2 == cache_work[w2].2) by {
            assert(pair_ids(candidates, w1) != pair_ids(candidates, w2));
        }
        assert forall|w: int|
            0 <= w < cache_work.len() implies !((#[trigger] cache_work[w]).1 == pair_ids(
            candidates,
            k,
        ).0 && cache_work[w].2 == pair_ids(candidates, k).1) by {
            assert(pair_ids(candidates, w) != pair_ids(candidates, k));
        }
    }
    assert forall|j: int| 0 <= j < k implies #[trigger] pair_cached_positive(
        cache,
        candidates,
        j,
    ) by {
        assert(cache.spec_has(cache_work[j].1, cache_work[j].2));
        assert(cache.spec_is_some(cache_work[j].1, cache_work[j].2));
    }
}

/// Tries to connect one candidate combination into a full path: for
/// each neighboring pair of chosen candidates the sub-path comes from
/// the cache when known, or from a fresh search.  A cached negative
/// answer fails the combination at once — success therefore implies
/// that no pair of the combination was cached negative.  On a failed
/// combination, the sub-paths found so far and the failing pair's
/// negative answer go into the cache: starting from an empty cache with
/// pairwise-distinct id pairs, a failure leaves the failing pair
/// negative and every earlier pair positive.  A fully connected
/// combination writes nothing, and when every pair is already
/// positively cached the combination connects without any new search.
#[verifier::rlimit(100)]
#[verifier::spinoff_prover]
pub fn find_location_route<M: MapServer>(
    map_server: &M,
    candidates: &Vec<CandidateEdge>,
    lrps: &Vec<LocationReferencePoint>,
    cache: &mut SubPathCache,
    context: &mut RequestContext,
) -> (r: Option<Vec<Edge>>)
    requires
        old(context).params.wf(),
        old(cache).wf(),
        candidates@.len() == lrps@.len(),
        candidates@.len() >= 2,
        forall|i: int|
            0 <= i < lrps@.len() ==> (#[trigger] lrps@[i]).wf() && ((lrps@[i].is_last) <==> i
                == lrps@.len() - 1),
    ensures
        final(context).params == old(context).params,
        final(context).spec_log_level() == old(context).spec_log_level(),
        final(cache).wf(),
        forall|x: i64, y: i64|
            old(cache).spec_has(x, y) ==> final(cache).spec_has(x, y) && (final(cache).spec_is_some(x, y) <==> old(cache).spec_is_some(x, y)),
        r matches Some(p) ==> {
            &&& p@.len() >= 1
            &&& p@[0].id == candidates@[0].candidate.id
            &&& p@.last().id == candidates@.last().candidate.id
            &&& no_adjacent_dup(p@)
            &&& *final(cache) == *old(cache)
        },
        (forall|k: int|
            0 <= k < candidates@.len() - 1 ==> old(cache).spec_is_some(
                (#[trigger] candidates@[k]).candidate.id,
                candidates@[k + 1].candidate.id,
            )) ==> r is Some,
        r is None ==> exists|k: int|
            0 <= k < candidates@.len() - 1 && final(cache).spec_has(
                (#[trigger] candidates@[k]).candidate.id,
                candidates@[k + 1].candidate.id,
            ) && !final(cache).spec_is_some(
                candidates@[k].candidate.id,
                candidates@[k + 1].candidate.id,
            ),
        r is Some ==> forall|k: int|
            0 <= k < candidates@.len() - 1 ==> ((#[trigger] old(cache).spec_has(
                pair_ids(candidates@, k).0,
                pair_ids(candidates@, k).1,
            )) ==> old(cache).spec_is_some(
                pair_ids(candidates@, k).0,
                pair_ids(candidates@, k).1,
            )),
        pairs_distinct(candidates@) && no_pair_cached(*old(cache), candidates@) && r is None
            ==> exists|k: int|
            0 <= k < candidates@.len() - 1 && #[trigger] pair_cached_negative(
                *final(cache),
                candidates@,
                k,
            ) && (forall|j: int|
                0 <= j < k ==> #[trigger] pair_cached_positive(*final(cache), candidates@, j)),
{
    let n = candidates.len();
    let mut location_path: Vec<Vec<Edge>> = Vec::new();
    let mut cache_work: Vec<(usize, i64, i64)> = Vec::new();
    let mut k: usize = 0;
    while k < n - 1
        invariant
            k <= n - 1,
            n == candidates@.len(),
            n == lrps@.len(),
            n >= 2,
            context.params == old(context).params,
            context.spec_log_level() == old(context).spec_log_level(),
            old(context).params.wf(),
            *cache == *old(cache),
            old(cache).wf(),
            forall|i: int|
                0 <= i < lrps@.len() ==> (#[trigger] lrps@[i]).wf() && ((lrps@[i].is_last) <==> i
                    == lrps@.len() - 1),
            location_path@.len() == k,
            forall|t: int|
                0 <= t < k ==> {
                    &&& (#[trigger] location_path@[t])@.len() >= 1
                    &&& location_path@[t]@[0].id == candidates@[t].candidate.id
                    &&& location_path@[t]@.last().id == candidates@[t + 1].candidate.id
                },
            forall|w: int|
                0 <= w < cache_work@.len() ==> {
                    &&& (#[trigger] cache_work@[w]).0 < k
                    &&& cache_work@[w].1 == candidates@[cache_work@[w].0 as int].candidate.id
                    &&& cache_work@[w].2 == candidates@[cache_work@[w].0 as int
                        + 1].candidate.id
                    &&& !old(cache).spec_has(cache_work@[w].1, cache_work@[w].2)
                },
            forall|j: int|
                0 <= j < k ==> ((#[trigger] old(cache).spec_has(
                    pair_ids(candidates@, j).0,
                    pair_ids(candidates@, j).1,
                )) ==> old(cache).spec_is_some(
                    pair_ids(candidates@, j).0,
                    pair_ids(candidates@, j).1,
                )),
            no_pair_cached(*old(cache), candidates@) ==> (cache_work@.len() == k && forall|w: int|
                0 <= w < k ==> (#[trigger] cache_work@[w]).0 == w),
        decreases n - 1 - k,
    {
        let a = candidates[k].candidate.get_id();
        let b = candidates[k + 1].candidate.get_id();
        proof {
            assert(pair_ids(candidates@, k as int).0 == a && pair_ids(candidates@, k as int).1
                == b);
        }
        match cache.get(a, b) {
            Some(None) => {
                context.trace("sub-path search avoided: pair known unreachable");
                proof {
                    assert(old(cache).spec_has(
                        pair_ids(candidates@, k as int).0,
                        pair_ids(candidates@, k as int).1,
                    ));
                    assert(!old(cache).spec_is_some(
                        pair_ids(candidates@, k as int).0,
                        pair_ids(candidates@, k as int).1,
                    ));
                }
                return None;
            },
            Some(Some(v)) => {
                context.trace("sub-path search avoided: pair cached");
                proof {
                    assert(old(cache).spec_has(
                        pair_ids(candidates@, k as int).0,
                        pair_ids(candidates@, k as int).1,
                    ));
                    assert(old(cache).spec_is_some(
                        pair_ids(candidates@, k as int).0,
                        pair_ids(candidates@, k as int).1,
                    ));
                }
                location_path.push(v);
            },
            None => {
                let lowest = lrps[k].lowest_frc_to_next_point.unwrap();
                let dnp_high = lrps[k].dnp.unwrap().1;
                match find_acceptable_shortest_path(
                    map_server,
                    &candidates[k],
                    &candidates[k + 1],
                    lowest,
                    dnp_high,
                    context,
                ) {
                    Ok(sp) => {
                        cache_work.push((location_path.len(), a, b));
                        location_path.push(sp);
                    },
                    Err(_e) => {
                        context.debug("routing failed for a candidate pair");
                        proof {
                            assert(!old(cache).spec_has(
                                candidates@[k as int].candidate.id,
                                candidates@[k as int + 1].candidate.id,
                            ));
                        }
                        commit_failed_combination(cache, &cache_work, &location_path, a, b);
                        proof {
                            assert(!old(cache).spec_is_some(
                                candidates@[k as int].candidate.id,
                                candidates@[k as int + 1].candidate.id,
                            ));
                            assert(cache.spec_has(
                                pair_ids(candidates@, k as int).0,
                                pair_ids(candidates@, k as int).1,
                            ));
                            if pairs_distinct(candidates@) && no_pair_cached(
                                *old(cache),
                                candidates@,
                            ) {
                                lemma_failure_cache_state(
                                    *cache,
                                    candidates@,
                                    cache_work@,
                                    k as int,
                                );
                            }
                        }
                        return None;
                    },
                }
            },
        }
        k = k + 1;
    }

    let result = concat_dedup(location_path, candidates);
    context.debug("combination connected");
    Some(result)
}

/// Finds one connected path across all points: ranks candidates per
/// point, then tries candidate combinations in order of ascending
/// aggregate score — at most the configured number of attempts — with
/// sub-path results memoized across combinations.  On success the path
/// comes back with the placement offsets of the winning combination's
/// first and last candidate.
pub fn find_route_across_lrps<M: MapServer>(
    map_server: &M,
    lrps: &Vec<LocationReferencePoint>,
    context: &mut RequestContext,
) -> (r: Result<(Vec<Edge>, u32, u32), OpenLrErr>)
    requires
        old(context).params.wf(),
        2 <= lrps@.len() <= 613_566_756,
        forall|i: int|
            0 <= i < lrps@.len() ==> (#[trigger] lrps@[i]).wf() && lrps@[i].index == i && ((
            lrps@[i].is_last) <==> i == lrps@.len() - 1),
    ensures
        final(context).params == old(context).params,
        final(context).spec_log_level() == old(context).spec_log_level(),
        r matches Ok(t) ==> t.0@.len() >= 1 && no_adjacent_dup(t.0@),
{
    let lrp_candidates = match find_candidates(map_server, lrps, context) {
        Ok(c) => c,
        Err(e) => {
            return Err(e);
        },
    };
    let n = lrps.len();
    let mut scores: Vec<Vec<u64>> = Vec::new();
    let mut i: usize = 0;
    while i < n
        invariant
            i <= n,
            n == lrps@.len(),
            2 <= n <= 613_566_756,
            lrp_candidates@.len() == n,
            forall|i2: int|
                0 <= i2 < n ==> candidate_row_ok((#[trigger] lrp_candidates@[i2])@, i2),
            scores@.len() == i,
            forall|i2: int|
                0 <= i2 < i ==> (#[trigger] scores@[i2])@.len() == lrp_candidates@[i2]@.len(),
            forall|i2: int, j2: int|
                0 <= i2 < i && 0 <= j2 < scores@[i2]@.len() ==> (#[trigger] scores@[i2]@[j2])
                    == lrp_candidates@[i2]@[j2].score,
            forall|i2: int| 0 <= i2 < i ==> (#[trigger] scores@[i2])@.len() >= 1,
            forall|i2: int, j2: int|
                0 <= i2 < i && 0 <= j2 < scores@[i2]@.len() ==> (#[trigger] scores@[i2]@[j2])
                    <= 40_000_000,
            forall|i2: int, a2: int, b2: int|
                0 <= i2 < i && 0 <= a2 <= b2 < scores@[i2]@.len()
                    ==> #[trigger] scores@[i2]@[a2] <= #[trigger] scores@[i2]@[b2],
        decreases n - i,
    {
        let row = &lrp_candidates[i];
        let mut srow: Vec<u64> = Vec::new();
        let mut j: usize = 0;
        while j < row.len()
            invariant
                j <= row@.len(),
                srow@.len() == j,
                candidate_row_ok(row@, i as int),
                forall|j2: int| 0 <= j2 < j ==> (#[trigger] srow@[j2]) == row@[j2].score,
            decreases row@.len() - j,
        {
            srow.push(row[j].score);
            j = j + 1;
        }
        proof {
            assert forall|a2: int, b2: int| 0 <= a2 <= b2 < srow@.len() implies #[trigger] srow@[a2]
                <= #[trigger] srow@[b2] by {
                assert(cand_leq(row@[a2], row@[b2]));
            }
        }
        scores.push(srow);
        i = i + 1;
    }
    let mut rg = RouteGenerator::new(scores);
    let mut cache = SubPathCache::new();
    let max_attempts = context.params.max_routing_attempts;
    let mut attempt: usize = 0;
    while attempt < max_attempts
        invariant
            attempt <= max_attempts,
            context.params == old(context).params,
            context.spec_log_level() == old(context).spec_log_level(),
            old(context).params.wf(),
            n == lrps@.len(),
            2 <= n <= 613_566_756,
            lrp_candidates@.len() == n,
            forall|i2: int|
                0 <= i2 < n ==> candidate_row_ok((#[trigger] lrp_candidates@[i2])@, i2),
            forall|i2: int|
                0 <= i2 < lrps@.len() ==> (#[trigger] lrps@[i2]).wf() && ((lrps@[i2].is_last) <==> i2
                    == lrps@.len() - 1),
            rg.wf(),
            rg.scores@.len() == n,
            forall|i2: int|
                0 <= i2 < n ==> (#[trigger] rg.scores@[i2])@.len() == lrp_candidates@[i2]@.len(),
            cache.wf(),
        decreases max_attempts - attempt,
    {
        match rg.next() {
            None => {
                context.debug("no further candidate combinations");
                return Err(OpenLrErr::NoPathFound);
            },
            Some(indices) => {
                proof {
                    assert(combo_valid(rg.scores@, indices@));
                }
                let mut combo: Vec<CandidateEdge> = Vec::new();
                let mut c: usize = 0;
                while c < n
                    invariant
                        c <= n,
                        n == indices@.len(),
                        lrp_candidates@.len() == n,
                        combo_valid(rg.scores@, indices@),
                        rg.scores@.len() == n,
                        forall|i2: int|
                            0 <= i2 < n ==> (#[trigger] rg.scores@[i2])@.len()
                                == lrp_candidates@[i2]@.len(),
                        combo@.len() == c,
                        forall|i2: int|
                            0 <= i2 < n ==> candidate_row_ok((#[trigger] lrp_candidates@[i2])@, i2),
                        forall|i2: int|
                            0 <= i2 < c ==> (#[trigger] combo@[i2]).lrp_index == i2,
                    decreases n - c,
                {
                    proof {
                        assert(indices@[c as int] < rg.scores@[c as int]@.len());
                    }
                    let pick = lrp_candidates[c][indices[c]].clone();
                    combo.push(pick);
                    c = c + 1;
                }
                match find_location_route(map_server, &combo, lrps, &mut cache, context) {
                    Some(lp) => {
                        let so = combo[0].offset;
                        let eo = combo[combo.len() - 1].offset;
                        context.debug("path found");
                        return Ok((lp, so, eo));
                    },
                    None => {
                        context.debug("unable to connect this candidate combination");
                    },
                }
            },
        }
        attempt = attempt + 1;
    }
    Err(OpenLrErr::NoPathFound)
}

/// The circular distance between two sector values on a circle of
/// `sectors` positions: the number of steps between them the short way
/// around.
pub open spec fn spec_circular_delta(v1: u16, v2: u16, sectors: u16) -> int {
    if v1 > v2 {
        if v1 - v2 <= v2 + sectors - v1 {
            v1 - v2
        } else {
            v2 + sectors - v1
        }
    } else {
        if v2 - v1 <= v1 + sectors - v2 {
            v2 - v1
        } else {
            v1 + sectors - v2
        }
    }
}

/// Computes the circular distance between two sector values `v1` and `v2`
/// on a circle of `sectors` positions.
pub fn calculate_circular_delta(v1: u16, v2: u16, sectors: u16) -> (r: u16)
    requires
        v1 + sectors <= u16::MAX,
        v2 + sectors <= u16::MAX,
        v1 <= v2 + sectors,
        v2 <= v1 + sectors,
    ensures
        r == spec_circular_delta(v1, v2, sectors),
{
    if v1 > v2 {
        let a = v1 - v2;
        let b = v2 + sectors - v1;
        if a <= b { a } else { b }
    } else {
        let a = v2 - v1;
        let b = v1 + sectors - v2;
        if a <= b { a } else { b }
    }
}

/// The circular distance does not depend on the order of its two
/// arguments, and for an even number of sectors it is at most half the
/// circle.
pub proof fn lemma_circular_delta_symmetric_and_bounded(v1: u16, v2: u16, sectors: u16)
    requires
        v1 < sectors,
        v2 < sectors,
        sectors % 2 == 0,
    ensures
        spec_circular_delta(v1, v2, sectors) == spec_circular_delta(v2, v1, sectors),
        spec_circular_delta(v1, v2, sectors) <= sectors / 2,
{
}

/// The unsigned 24-bit big-endian value of three bytes.
pub open spec fn spec_wire24(f: u8, m: u8, l: u8) -> int {
    f * 0x1_0000 + m * 0x100 + l
}

/// The 24-bit wire value read as a signed number: values strictly above
/// 2^23 wrap to negative.
pub open spec fn spec_signed24(f: u8, m: u8, l: u8) -> int {
    let j = spec_wire24(f, m, l);
    if j > 0x80_0000 {
        j - 0x100_0000
    } else {
        j
    }
}

/// The sign of an integer: 1, -1 or 0.
pub open spec fn spec_sign(i: int) -> int {
    if i > 0 {
        1
    } else if i < 0 {
        -1
    } else {
        0
    }
}

/// The fixed-point coordinate encoded absolutely by three wire bytes:
/// the signed 24-bit value scaled by one wire step, corrected by half a
/// step toward zero.
pub open spec fn spec_int2deg(f: u8, m: u8, l: u8) -> int {
    let i = spec_signed24(f, m, l);
    i * COORD_UNITS_PER_WIRE_STEP - spec_sign(i) * COORD_UNITS_PER_HALF_WIRE_STEP
}

/// Decodes an absolute coordinate from its three wire bytes into
/// fixed-point units.
pub fn int2deg(f: u8, m: u8, l: u8) -> (r: i64)
    ensures
        r == spec_int2deg(f, m, l),
        -2_359_296_000_000 <= r <= 2_359_296_000_000,
{
    let j: u32 = (f as u32) * 0x1_0000 + (m as u32) * 0x100 + (l as u32);
    let i: i64 = if j > 0x80_0000 {
        (j as i64) - 0x100_0000
    } else {
        j as i64
    };
    let s: i64 = if i > 0 {
        1
    } else if i < 0 {
        -1
    } else {
        0
    };
    i * COORD_UNITS_PER_WIRE_STEP - s * COORD_UNITS_PER_HALF_WIRE_STEP
}

/// The signed 16-bit big-endian value of two bytes: values of 2^15 and
/// above wrap to negative.
pub open spec fn spec_signed16(ub: u8, lb: u8) -> int {
    let j = ub * 0x100 + lb;
    if j >= 0x8000 {
        j - 0x1_0000
    } else {
        j
    }
}

/// The coordinate one relative wire pair encodes, starting from `prev`:
/// the signed 16-bit delta scaled by one relative step.
pub open spec fn spec_next_coordinate(ub: u8, lb: u8, prev: int) -> int {
    prev + spec_signed16(ub, lb) * COORD_UNITS_PER_RELATIVE_STEP
}

/// Decodes a relative coordinate from its two wire bytes and the previous
/// point's coordinate, in fixed-point units.
pub fn get_next_coordinate(ub: u8, lb: u8, prev: i64) -> (r: i64)
    requires
        -COORD_MAGNITUDE_LIMIT < prev < COORD_MAGNITUDE_LIMIT,
    ensures
        r == spec_next_coordinate(ub, lb, prev as int),
        prev - 4_294_967_296 <= r <= prev + 4_294_967_296,
{
    let j: u32 = (ub as u32) * 0x100 + (lb as u32);
    let rel: i64 = if j >= 0x8000 {
        (j as i64) - 0x1_0000
    } else {
        j as i64
    };
    prev + rel * COORD_UNITS_PER_RELATIVE_STEP
}

/// The distance range one distance-to-next-point byte stands for, in
/// meters: section `d` covers `d*1875/32` up to `(d+1)*1875/32`.
pub open spec fn spec_distance_to_next_lrp(d: u8) -> (int, int) {
    (d * 1875 / 32, (d + 1) * 1875 / 32)
}

/// Decodes a distance-to-next-point byte into its meter range.
pub fn distance_to_next_lrp(d: u8) -> (r: (u32, u32))
    ensures
        r.0 == spec_distance_to_next_lrp(d).0,
        r.1 == spec_distance_to_next_lrp(d).1,
        r.0 <= r.1 <= 15_000,
{
    let du: u32 = d as u32;
    (du * DNP_SCALE_NUMERATOR / DNP_SCALE_DENOMINATOR,
     (du + 1) * DNP_SCALE_NUMERATOR / DNP_SCALE_DENOMINATOR)
}

/// The bearing range one sector value stands for, in centidegrees.
pub open spec fn spec_int2bearing(sector: u8) -> (int, int) {
    (sector * 1125, (sector + 1) * 1125)
}

/// Decodes a bearing sector value into its centidegree range.
pub fn int2bearing(sector: u8) -> (r: (u32, u32))
    ensures
        r.0 == spec_int2bearing(sector).0,
        r.1 == spec_int2bearing(sector).1,
        r.1 <= 288_000,
{
    let s: u32 = sector as u32;
    (s * CENTIDEGREES_PER_SECTOR, (s + 1) * CENTIDEGREES_PER_SECTOR)
}

/// The offset range one trailing offset byte stands for: the byte scales
/// both bounds of the matching distance-to-next-point range by 1/256.
pub open spec fn spec_calculate_offset(offset: u8, dnp: (u32, u32)) -> (int, int) {
    (offset * dnp.0 / 256, offset * dnp.1 / 256)
}

/// Scales a trailing offset byte against a distance-to-next-point range,
/// giving the offset's meter range.
pub fn calculate_offset(offset: u8, dnp: (u32, u32)) -> (r: (u32, u32))
    requires
        offset * dnp.0 <= u32::MAX,
        offset * dnp.1 <= u32::MAX,
    ensures
        r.0 == spec_calculate_offset(offset, dnp).0,
        r.1 == spec_calculate_offset(offset, dnp).1,
{
    ((offset as u32) * dnp.0 / 256, (offset as u32) * dnp.1 / 256)
}

} // verus!
