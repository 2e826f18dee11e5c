//! Location reference points and the candidate scorer.
//!
//! A location reference point carries a position, the road attributes
//! expected of the matching edge, and — except on the last point — the
//! lowest permitted road class and the expected distance to the next
//! point.  The scorer weighs each nearby edge's bearing, form, class
//! and distance against the point's expectations.

use vstd::prelude::*;
use vstd::multiset::Multiset;
use crate::candidate_edge::{cand_leq, CandidateEdge};
use crate::common::{
    calculate_circular_delta, distance_to_next_lrp, int2bearing, spec_circular_delta,
    spec_distance_to_next_lrp, spec_int2bearing,
};
use crate::decoding_parameters::DecodingParameters;
use crate::errors::OpenLrErr;
use crate::fow::FOW;
use crate::frc::FRC;
use crate::map::NearbyEdge;
use crate::request_context::RequestContext;

verus! {

/// One waypoint of a location reference.
#[derive(Debug)]
pub struct LocationReferencePoint {
    /// Longitude in fixed-point coordinate units.
    pub longitude: i64,
    /// Latitude in fixed-point coordinate units.
    pub latitude: i64,
    /// Expected form of way of the matching edge.
    pub fow: FOW,
    /// Expected road class of the matching edge.
    pub frc: FRC,
    /// Lowest road class permitted on the way to the next point; absent
    /// exactly on the last point.
    pub lowest_frc_to_next_point: Option<FRC>,
    /// Expected bearing as a centidegree range; a range of zero width is
    /// a scalar bearing.
    pub bearing: (u32, u32),
    /// The bearing's sector on the 32-sector circle.
    pub bearing_sector: u16,
    /// Expected path distance to the next point as a meter range; absent
    /// exactly on the last point.
    pub dnp: Option<(u32, u32)>,
    /// Position of this point in the reference's point sequence.
    pub index: usize,
    /// Whether this is the reference's last point.
    pub is_last: bool,
}

impl LocationReferencePoint {
    /// Well-formedness: exactly the last point lacks the forward-looking
    /// fields, and the bearing values are on the circle.
    pub open spec fn wf(&self) -> bool {
        &&& self.is_last <==> self.lowest_frc_to_next_point is None
        &&& self.is_last <==> self.dnp is None
        &&& self.bearing.0 <= self.bearing.1 <= 36_000
        &&& self.bearing_sector < 32
    }

    /// Builds a point from its position, its attribute bytes, and its
    /// place in the sequence.  `ba` holds the attribute bytes: form and
    /// class in the first, lowest class and bearing sector in the
    /// second, and — except for the last point — the distance byte in
    /// the third.
    pub fn new_from_byte_array(
        longitude: i64,
        latitude: i64,
        ba: &[u8],
        index: usize,
        is_last: bool,
    ) -> (r: LocationReferencePoint)
        requires
            is_last ==> ba@.len() >= 2,
            !is_last ==> ba@.len() >= 3,
        ensures
            r.longitude == longitude,
            r.latitude == latitude,
            r.index == index,
            r.is_last == is_last,
            r.fow == FOW::spec_from_u8(ba@[0] & 0x07),
            r.frc == FRC::spec_from_u8((ba@[0] >> 3) & 0x07),
            is_last ==> r.lowest_frc_to_next_point is None,
            !is_last ==> r.lowest_frc_to_next_point == Some(FRC::spec_from_u8(ba@[1] >> 5)),
            r.bearing.0 == spec_int2bearing(ba@[1] & 0x1f).0,
            r.bearing.1 == spec_int2bearing(ba@[1] & 0x1f).1,
            r.bearing_sector == ba@[1] & 0x1f,
            is_last ==> r.dnp is None,
            !is_last ==> r.dnp == Some(
                (
                    spec_distance_to_next_lrp(ba@[2]).0 as u32,
                    spec_distance_to_next_lrp(ba@[2]).1 as u32,
                ),
            ),
            r.wf(),
    {
        let b0 = ba[0];
        let b1 = ba[1];
        proof {
            assert((b0 & 0x07) < 8 && ((b0 >> 3) & 0x07) < 8 && (b1 >> 5) < 8 && (b1 & 0x1f)
                < 32) by (bit_vector);
        }
        let sector = b1 & 0x1f;
        let bearing = int2bearing(sector);
        LocationReferencePoint {
            longitude,
            latitude,
            fow: FOW::from_u8(b0 & 0x07),
            frc: FRC::from_u8((b0 >> 3) & 0x07),
            lowest_frc_to_next_point: if !is_last {
                Some(FRC::from_u8(b1 >> 5))
            } else {
                None
            },
            bearing,
            bearing_sector: sector as u16,
            dnp: if !is_last {
                Some(distance_to_next_lrp(ba[2]))
            } else {
                None
            },
            index,
            is_last,
        }
    }
}

/// The sector of a bearing value on the 32-sector circle; bearings are
/// first folded onto the circle.
pub open spec fn spec_sector_of_bearing(cdeg: u32) -> u16 {
    (((cdeg % 36_000) / 1_125) as u16)
}

/// The raw bearing score of an edge bearing against a point.  A scalar
/// expected bearing scores by the folded centidegree difference,
/// normalized to a half circle; a ranged one scores by the bearing
/// table at the circular sector distance.
pub open spec fn spec_bearing_raw(
    lrp: LocationReferencePoint,
    edge_cdeg: u32,
    params: DecodingParameters,
) -> int {
    if lrp.bearing.0 == lrp.bearing.1 {
        let eb = edge_cdeg % 36_000;
        let lb = lrp.bearing.0 % 36_000;
        let d0 = if lb >= eb {
            lb - eb
        } else {
            eb - lb
        };
        let d = if d0 <= 18_000 {
            d0
        } else {
            36_000 - d0
        };
        d * 100_000 / 18_000
    } else {
        params.bearing_score_table@[spec_circular_delta(
            lrp.bearing_sector,
            spec_sector_of_bearing(edge_cdeg),
            32,
        )] as int
    }
}

/// The raw distance score: the distance to the point normalized to the
/// search radius, capped at one.
pub open spec fn spec_distance_raw(distance_m: u32, radius: u32) -> int {
    let x = distance_m * 100_000 / (radius as int);
    if x <= 100_000 {
        x
    } else {
        100_000
    }
}

/// The edge bearing a point measures: forward from the edge's start,
/// except that the last point measures backward from its end.
pub open spec fn spec_edge_bearing(lrp: LocationReferencePoint, ne: NearbyEdge) -> u32 {
    if lrp.is_last {
        ne.bearing_end_cdeg
    } else {
        ne.bearing_start_cdeg
    }
}

/// The weighted score of a nearby edge against a point: the four raw
/// component scores, each multiplied by its configured weight, summed.
pub open spec fn spec_score(
    lrp: LocationReferencePoint,
    ne: NearbyEdge,
    params: DecodingParameters,
) -> int {
    spec_bearing_raw(lrp, spec_edge_bearing(lrp, ne), params) * params.bearing_weight
        + params.fow_score_table@[lrp.fow.spec_to_usize() as int]@[ne.edge.fow.spec_to_usize() as int]
        * params.fow_weight
        + params.frc_score_table@[lrp.frc.spec_to_usize() as int]@[ne.edge.frc.spec_to_usize() as int]
        * params.frc_weight
        + spec_distance_raw(ne.distance_m, params.search_radius) * params.distance_weight
}

/// Where a point sits on a candidate edge: the projection's distance
/// from the edge's start — from its end for the last point — clamped to
/// the edge length; it snaps to zero when within both the absolute and
/// the relative snapping thresholds.  The projection is kept as soon as
/// either threshold is exceeded: on a short edge a one-meter end offset
/// survives, which is what the encoded offset tolerances require — a
/// rule that snapped unless both thresholds were exceeded would erase
/// such offsets.
pub open spec fn spec_candidate_offset(
    lrp: LocationReferencePoint,
    ne: NearbyEdge,
    params: DecodingParameters,
) -> u32 {
    let along = if ne.along_m <= ne.edge.len {
        ne.along_m
    } else {
        ne.edge.len
    };
    let d = if lrp.is_last {
        (ne.edge.len - along) as u32
    } else {
        along
    };
    if d > params.absolute_snapping_threshold || d * 1_000
        > params.relative_snapping_threshold_milli * ne.edge.len {
        d
    } else {
        0
    }
}

/// A product of two bounded factors is bounded by the product of the
/// bounds.
proof fn lemma_mul_bounds(a: u64, b: u64, ca: u64, cb: u64)
    requires
        a <= ca,
        b <= cb,
    ensures
        a * b <= ca * cb,
{
    assert(a * b <= ca * cb) by (nonlinear_arith)
        requires
            a <= ca,
            b <= cb,
    ;
}

/// The candidate a nearby edge becomes for a point: the edge, its
/// offset, the point's index and the weighted score.
pub open spec fn spec_mk_candidate(
    lrp: LocationReferencePoint,
    ne: NearbyEdge,
    params: DecodingParameters,
) -> CandidateEdge {
    CandidateEdge {
        candidate: ne.edge,
        offset: spec_candidate_offset(lrp, ne, params),
        lrp_index: lrp.index,
        score: spec_score(lrp, ne, params) as u64,
    }
}

/// Whether a nearby edge scores within the acceptable rating.
pub open spec fn spec_acceptable(
    lrp: LocationReferencePoint,
    ne: NearbyEdge,
    params: DecodingParameters,
) -> bool {
    spec_score(lrp, ne, params) <= params.max_acceptable_rating
}

/// The acceptable candidates of a point among the given nearby edges,
/// in the order the provider listed them.
pub open spec fn spec_candidates(
    lrp: LocationReferencePoint,
    nearby: Seq<NearbyEdge>,
    params: DecodingParameters,
) -> Seq<CandidateEdge>
    decreases nearby.len(),
{
    if nearby.len() == 0 {
        Seq::empty()
    } else {
        let rest = spec_candidates(lrp, nearby.drop_last(), params);
        if spec_acceptable(lrp, nearby.last(), params) {
            rest.push(spec_mk_candidate(lrp, nearby.last(), params))
        } else {
            rest
        }
    }
}

/// A candidate sequence ordered by ascending score, ties by ascending
/// offset.
pub open spec fn cand_sorted(s: Seq<CandidateEdge>) -> bool {
    forall|i: int, j: int| 0 <= i <= j < s.len() ==> cand_leq(s[i], s[j])
}

/// An empty candidate sequence has the empty multiset.
proof fn lemma_cand_empty_to_multiset(s: Seq<CandidateEdge>)
    requires
        s.len() == 0,
    ensures
        s.to_multiset() =~= Multiset::<CandidateEdge>::empty(),
{
    broadcast use vstd::seq_lib::group_to_multiset_ensures;

    assert forall|x: CandidateEdge| s.to_multiset().count(x) == 0 by {
        assert(!s.contains(x));
    }
}

/// Every candidate a point's nearby edges yield carries that point's
/// index, and — for well-formed inputs — a score within four fully
/// weighted components.
pub proof fn lemma_candidates_indexed(
    lrp: LocationReferencePoint,
    nearby: Seq<NearbyEdge>,
    params: DecodingParameters,
)
    requires
        lrp.wf(),
        params.wf(),
    ensures
        forall|k: int|
            0 <= k < spec_candidates(lrp, nearby, params).len() ==> (#[trigger] spec_candidates(
                lrp,
                nearby,
                params,
            )[k]).lrp_index == lrp.index,
        forall|k: int|
            0 <= k < spec_candidates(lrp, nearby, params).len() ==> (#[trigger] spec_candidates(
                lrp,
                nearby,
                params,
            )[k]).score <= 40_000_000,
    decreases nearby.len(),
{
    if nearby.len() > 0 {
        lemma_candidates_indexed(lrp, nearby.drop_last(), params);
        let ne = nearby.last();
        lemma_score_bounds(lrp, ne, params);
    }
}

/// For a well-formed point and parameters, every weighted score stays
/// within four fully weighted components.
pub proof fn lemma_score_bounds(
    lrp: LocationReferencePoint,
    ne: NearbyEdge,
    params: DecodingParameters,
)
    requires
        lrp.wf(),
        params.wf(),
    ensures
        0 <= spec_score(lrp, ne, params) <= 40_000_000,
{
    let braw = spec_bearing_raw(lrp, spec_edge_bearing(lrp, ne), params);
    assert(0 <= braw <= 100_000) by {
        if lrp.bearing.0 != lrp.bearing.1 {
            let d = spec_circular_delta(
                lrp.bearing_sector,
                spec_sector_of_bearing(spec_edge_bearing(lrp, ne)),
                32,
            );
            assert(0 <= d < 17);
        }
    }
    let fraw = params.fow_score_table@[lrp.fow.spec_to_usize() as int]@[ne.edge.fow.spec_to_usize() as int] as int;
    let craw = params.frc_score_table@[lrp.frc.spec_to_usize() as int]@[ne.edge.frc.spec_to_usize() as int] as int;
    let draw = spec_distance_raw(ne.distance_m, params.search_radius);
    assert(0 <= fraw <= 100_000);
    assert(0 <= craw <= 100_000);
    assert(0 <= draw <= 100_000);
    assert(braw * params.bearing_weight <= 100_000 * 100) by (nonlinear_arith)
        requires
            0 <= braw <= 100_000,
            params.bearing_weight <= 100,
    ;
    assert(fraw * params.fow_weight <= 100_000 * 100) by (nonlinear_arith)
        requires
            0 <= fraw <= 100_000,
            params.fow_weight <= 100,
    ;
    assert(craw * params.frc_weight <= 100_000 * 100) by (nonlinear_arith)
        requires
            0 <= craw <= 100_000,
            params.frc_weight <= 100,
    ;
    assert(draw * params.distance_weight <= 100_000 * 100) by (nonlinear_arith)
        requires
            0 <= draw <= 100_000,
            params.distance_weight <= 100,
    ;
    assert(braw * params.bearing_weight >= 0) by (nonlinear_arith)
        requires
            0 <= braw,
            0 <= params.bearing_weight,
    ;
    assert(fraw * params.fow_weight >= 0) by (nonlinear_arith)
        requires
            0 <= fraw,
            0 <= params.fow_weight,
    ;
    assert(craw * params.frc_weight >= 0) by (nonlinear_arith)
        requires
            0 <= craw,
            0 <= params.frc_weight,
    ;
    assert(draw * params.distance_weight >= 0) by (nonlinear_arith)
        requires
            0 <= draw,
            0 <= params.distance_weight,
    ;
}

impl LocationReferencePoint {
    /// Scores a nearby edge against this point.
    pub fn score_candidate_edge(
        &self,
        candidate: &NearbyEdge,
        params: &DecodingParameters,
    ) -> (r: u64)
        requires
            self.wf(),
            params.wf(),
        ensures
            r == spec_score(*self, *candidate, *params),
            r <= 4 * crate::decoding_parameters::RATING_SCALE,
    {
        let edge_cdeg: u32 = if self.is_last {
            candidate.bearing_end_cdeg
        } else {
            candidate.bearing_start_cdeg
        };
        let bearing_raw: u64 = if self.bearing.0 == self.bearing.1 {
            let eb = edge_cdeg % 36_000;
            let lb = self.bearing.0 % 36_000;
            let d0 = if lb >= eb {
                lb - eb
            } else {
                eb - lb
            };
            let d = if d0 <= 18_000 {
                d0
            } else {
                36_000 - d0
            };
            assert(d <= 18_000);
            (d as u64) * 100_000 / 18_000
        } else {
            let edge_sector = ((edge_cdeg % 36_000) / 1_125) as u16;
            let delta = calculate_circular_delta(self.bearing_sector, edge_sector, 32);
            assert(delta < 17);
            params.bearing_score_table[delta as usize] as u64
        };
        assert(bearing_raw <= 100_000);
        let fow_raw: u64 = params.fow_score_table[self.fow.to_usize()][candidate.edge.fow.to_usize()] as u64;
        let frc_raw: u64 = params.frc_score_table[self.frc.to_usize()][candidate.edge.frc.to_usize()] as u64;
        let scaled: u64 = (candidate.distance_m as u64) * 100_000 / (params.search_radius as u64);
        let distance_raw: u64 = if scaled <= 100_000 {
            scaled
        } else {
            100_000
        };
        assert(fow_raw <= 100_000 && frc_raw <= 100_000);
        proof {
            lemma_mul_bounds(bearing_raw, params.bearing_weight as u64, 100_000, 100);
            lemma_mul_bounds(fow_raw, params.fow_weight as u64, 100_000, 100);
            lemma_mul_bounds(frc_raw, params.frc_weight as u64, 100_000, 100);
            lemma_mul_bounds(distance_raw, params.distance_weight as u64, 100_000, 100);
        }
        bearing_raw * (params.bearing_weight as u64) + fow_raw * (params.fow_weight as u64)
            + frc_raw * (params.frc_weight as u64) + distance_raw * (params.distance_weight as u64)
    }

    /// Scores every nearby edge, keeps the acceptable ones ranked by
    /// ascending score with ties broken by ascending offset, and
    /// truncates to the configured candidate limit.  Fails exactly when
    /// no nearby edge scores acceptably.
    pub fn find_candidate_edges(
        &self,
        nearby: Vec<NearbyEdge>,
        context: &mut RequestContext,
    ) -> (r: Result<Vec<CandidateEdge>, OpenLrErr>)
        requires
            self.wf(),
            old(context).params.wf(),
        ensures
            final(context).params == old(context).params,
            final(context).spec_log_level() == old(context).spec_log_level(),
            ({
                let cs = spec_candidates(*self, nearby@, *old(context).params);
                let limit = old(context).params.max_candidates_per_lrp;
                match r {
                    Ok(v) => {
                        &&& cs.len() > 0
                        &&& v@.len() == if limit <= cs.len() {
                            limit as int
                        } else {
                            cs.len() as int
                        }
                        &&& cand_sorted(v@)
                        &&& exists|s: Seq<CandidateEdge>|
                            {
                                &&& s.to_multiset() == cs.to_multiset()
                                &&& cand_sorted(s)
                                &&& v@ == s.take(v@.len() as int)
                            }
                        &&& forall|k: int|
                            0 <= k < v@.len() ==> (#[trigger] v@[k]).lrp_index == self.index
                        &&& forall|k: int|
                            0 <= k < v@.len() ==> (#[trigger] v@[k]).score <= 40_000_000
                    },
                    Err(e) => {
                        &&& cs.len() == 0
                        &&& e == OpenLrErr::NoCandidatesFoundForLRP(self.index)
                    },
                }
            }),
    {
        let params = context.params;
        let ghost orig = nearby@;
        let mut pending = nearby;
        let mut cands: Vec<CandidateEdge> = Vec::new();
        let ghost mut seen: int = 0;
        while pending.len() > 0
            invariant
                self.wf(),
                params.wf(),
                0 <= seen <= orig.len(),
                pending@ == orig.subrange(seen, orig.len() as int),
                cands@ == spec_candidates(*self, orig.take(seen), *params),
            decreases pending@.len(),
        {
            let ghost old_pending = pending@;
            let ne = pending.remove(0);
            let score = self.score_candidate_edge(&ne, params);
            let offset = self.get_candidate_offset(&ne, params);
            proof {
                assert(ne == orig[seen]);
                assert(orig.take(seen + 1).drop_last() =~= orig.take(seen));
                assert(orig.take(seen + 1).last() == orig[seen]);
                assert(pending@ =~= orig.subrange(seen + 1, orig.len() as int));
            }
            if score <= params.max_acceptable_rating {
                let cand = CandidateEdge { candidate: ne.edge, offset, lrp_index: self.index, score };
                proof {
                    assert(cand == spec_mk_candidate(*self, orig[seen], *params));
                }
                cands.push(cand);
            }
            proof {
                seen = seen + 1;
            }
        }
        proof {
            assert(orig.take(orig.len() as int) =~= orig);
        }
        if cands.len() == 0 {
            context.debug("no acceptable candidates for point");
            return Err(OpenLrErr::NoCandidatesFoundForLRP(self.index));
        }
        let ghost all = spec_candidates(*self, orig, *params);
        let mut rest = cands;
        let mut sorted: Vec<CandidateEdge> = Vec::new();
        proof {
            broadcast use vstd::seq_lib::group_to_multiset_ensures;
            broadcast use vstd::multiset::group_multiset_axioms;

            lemma_cand_empty_to_multiset(sorted@);
            assert(sorted@.to_multiset().add(rest@.to_multiset()) =~= all.to_multiset());
        }
        while rest.len() > 0
            invariant
                sorted@.to_multiset().add(rest@.to_multiset()) == all.to_multiset(),
                sorted@.len() + rest@.len() == all.len(),
                cand_sorted(sorted@),
                forall|p: int, j: int|
                    0 <= p < sorted@.len() && 0 <= j < rest@.len() ==> cand_leq(
                        sorted@[p],
                        rest@[j],
                    ),
            decreases rest@.len(),
        {
            let mut mi: usize = 0;
            let mut j: usize = 1;
            while j < rest.len()
                invariant
                    mi < j <= rest@.len(),
                    rest@.len() > 0,
                    forall|q: int| 0 <= q < j ==> cand_leq(rest@[mi as int], rest@[q]),
                decreases rest@.len() - j,
            {
                if rest[j].score < rest[mi].score || (rest[j].score == rest[mi].score
                    && rest[j].offset < rest[mi].offset) {
                    mi = j;
                }
                j = j + 1;
            }
            let ghost old_rest = rest@;
            let ghost old_sorted = sorted@;
            let x = rest.remove(mi);
            sorted.push(x);
            proof {
                broadcast use vstd::seq_lib::group_to_multiset_ensures;

                assert(old_rest.contains(x)) by {
                    assert(old_rest[mi as int] == x);
                }
                assert(old_rest.to_multiset().count(x) > 0);
                assert(sorted@.to_multiset() =~= old_sorted.to_multiset().insert(x));
                assert(rest@.to_multiset() =~= old_rest.to_multiset().remove(x));
                assert(sorted@.to_multiset().add(rest@.to_multiset()) =~= old_sorted.to_multiset().add(
                    old_rest.to_multiset(),
                ));
                assert forall|p: int, q: int|
                    0 <= p < sorted@.len() && 0 <= q < rest@.len() implies cand_leq(
                    sorted@[p],
                    rest@[q],
                ) by {
                    if q < mi {
                        assert(rest@[q] == old_rest[q]);
                    } else {
                        assert(rest@[q] == old_rest[q + 1]);
                    }
                }
            }
        }
        proof {
            broadcast use vstd::multiset::group_multiset_axioms;

            lemma_cand_empty_to_multiset(rest@);
            assert(sorted@.to_multiset() =~= all.to_multiset());
        }
        let ghost full = sorted@;
        let limit = params.max_candidates_per_lrp;
        if sorted.len() > limit {
            sorted.truncate(limit);
        }
        proof {
            assert(sorted@ =~= full.take(sorted@.len() as int));
            lemma_candidates_indexed(*self, orig, *params);
            assert forall|k: int| 0 <= k < sorted@.len() implies ((#[trigger] sorted@[k]).lrp_index
                == self.index && sorted@[k].score <= 40_000_000) by {
                broadcast use vstd::seq_lib::group_to_multiset_ensures;

                assert(full.contains(full[k]));
                assert(full.to_multiset().count(full[k]) > 0);
                assert(all.to_multiset().count(full[k]) > 0);
                assert(all.contains(full[k]));
            }
        }
        Ok(sorted)
    }

    /// Determines where this point sits on a candidate edge.
    pub fn get_candidate_offset(&self, ne: &NearbyEdge, params: &DecodingParameters) -> (r: u32)
        requires
            params.wf(),
        ensures
            r == spec_candidate_offset(*self, *ne, *params),
    {
        let along = if ne.along_m <= ne.edge.len {
            ne.along_m
        } else {
            ne.edge.len
        };
        let d = if self.is_last {
            ne.edge.len - along
        } else {
            along
        };
        proof {
            lemma_mul_bounds(
                params.relative_snapping_threshold_milli as u64,
                ne.edge.len as u64,
                1_000,
                0xffff_ffff,
            );
        }
        if d > params.absolute_snapping_threshold || (d as u64) * 1_000
            > (params.relative_snapping_threshold_milli as u64) * (ne.edge.len as u64) {
            d
        } else {
            0
        }
    }
}

} // verus!
