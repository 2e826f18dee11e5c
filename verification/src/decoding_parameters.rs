//! The configuration bundle of one decode request.
//!
//! All scores are integers: a raw component score runs from 0 (perfect
//! match) to `SCORE_SCALE` (worst), a weight from 0 to `WEIGHT_SCALE`,
//! and a weighted total from 0 to `SCORE_SCALE * WEIGHT_SCALE`.
//! Fractional thresholds are given in thousandths.

use vstd::prelude::*;

verus! {

/// A raw component score of 1.0 in integer units.
pub const SCORE_SCALE: u32 = 100_000;

/// A component weight of 1.0 in integer units.
pub const WEIGHT_SCALE: u32 = 100;

/// A full weighted score of 1.0 in integer units:
/// `SCORE_SCALE * WEIGHT_SCALE`.
pub const RATING_SCALE: u64 = 10_000_000;

/// The immutable parameter set of one decode request.
#[derive(Debug)]
pub struct DecodingParameters {
    /// Per lowest-class value of a source point, the numerically highest
    /// (least important) road class an edge may have during the sub-path
    /// search; indexed by the point's lowest-class field, 8 entries.
    pub allowed_frc_delta_table: Vec<usize>,
    /// Road-class score table: row is the point's class, column the
    /// edge's class, 8 by 8, entries up to `SCORE_SCALE`.
    pub frc_score_table: Vec<Vec<u32>>,
    /// Form-of-way score table: row is the point's form, column the
    /// edge's form, 8 by 8, entries up to `SCORE_SCALE`.
    pub fow_score_table: Vec<Vec<u32>>,
    /// Bearing score by circular sector distance, 17 entries, entries up
    /// to `SCORE_SCALE`.
    pub bearing_score_table: Vec<u32>,
    /// Weight of the road-class component, up to `WEIGHT_SCALE`.
    pub frc_weight: u32,
    /// Weight of the form-of-way component, up to `WEIGHT_SCALE`.
    pub fow_weight: u32,
    /// Weight of the bearing component, up to `WEIGHT_SCALE`.
    pub bearing_weight: u32,
    /// Weight of the distance component, up to `WEIGHT_SCALE`.
    pub distance_weight: u32,
    /// At most this many candidates are kept per point.
    pub max_candidates_per_lrp: usize,
    /// At most this many candidate combinations are tried.
    pub max_routing_attempts: usize,
    /// Meters a sub-path may exceed the encoded distance absolutely.
    pub max_absolute_dnp_variance: u32,
    /// Thousandths a sub-path may exceed the encoded distance
    /// relatively; any factor up to a thousandfold is accepted.
    pub max_relative_dnp_variance_milli: u32,
    /// A candidate is rejected above this weighted score.
    pub max_acceptable_rating: u64,
    /// Radius in meters of the nearby-edge search around a point.
    pub search_radius: u32,
    /// A projection at most this many meters from the relevant end of an
    /// edge snaps to that end.
    pub absolute_snapping_threshold: u32,
    /// A projection at most this many thousandths of the edge length from
    /// the relevant end snaps to that end.
    pub relative_snapping_threshold_milli: u32,
    /// Meters from the relevant end of an edge at which its bearing is
    /// measured.
    pub bearing_distance: u32,
}

impl DecodingParameters {
    /// Well-formedness: the tables have their fixed shapes, scores and
    /// weights are within their scales, and the search radius is
    /// positive.
    pub open spec fn wf(&self) -> bool {
        &&& self.allowed_frc_delta_table@.len() == 8
        &&& self.frc_score_table@.len() == 8
        &&& forall|i: int|
            0 <= i < 8 ==> (#[trigger] self.frc_score_table@[i])@.len() == 8
        &&& forall|i: int, j: int|
            0 <= i < 8 && 0 <= j < 8 ==> (#[trigger] self.frc_score_table@[i]@[j])
                <= SCORE_SCALE
        &&& self.fow_score_table@.len() == 8
        &&& forall|i: int|
            0 <= i < 8 ==> (#[trigger] self.fow_score_table@[i])@.len() == 8
        &&& forall|i: int, j: int|
            0 <= i < 8 && 0 <= j < 8 ==> (#[trigger] self.fow_score_table@[i]@[j])
                <= SCORE_SCALE
        &&& self.bearing_score_table@.len() == 17
        &&& forall|i: int|
            0 <= i < 17 ==> (#[trigger] self.bearing_score_table@[i]) <= SCORE_SCALE
        &&& self.frc_weight <= WEIGHT_SCALE
        &&& self.fow_weight <= WEIGHT_SCALE
        &&& self.bearing_weight <= WEIGHT_SCALE
        &&& self.distance_weight <= WEIGHT_SCALE
        &&& self.max_relative_dnp_variance_milli <= 1_000_000
        &&& self.relative_snapping_threshold_milli <= 1000
        &&& self.search_radius >= 1
        &&& self.max_candidates_per_lrp >= 1
    }
}

/// The default entry of the class and form score tables: one tenth of
/// the scale per step of disagreement between row and column.
pub open spec fn spec_default_table_score(i: int, j: int) -> int {
    if i >= j {
        (i - j) * 10_000
    } else {
        (j - i) * 10_000
    }
}

/// The default bearing score for a sector distance: zero up to one
/// sector apart, then a fifth of the scale per further sector, capped at
/// the full scale from six sectors on.
pub open spec fn spec_default_bearing_score(k: int) -> int {
    if k <= 1 {
        0
    } else if k <= 5 {
        (k - 1) * 20_000
    } else {
        100_000
    }
}

/// Builds one default 8-by-8 score table.
fn default_score_table() -> (r: Vec<Vec<u32>>)
    ensures
        r@.len() == 8,
        forall|i: int| 0 <= i < 8 ==> (#[trigger] r@[i])@.len() == 8,
        forall|i: int, j: int|
            0 <= i < 8 && 0 <= j < 8 ==> (#[trigger] r@[i]@[j]) == spec_default_table_score(i, j),
{
    let mut t: Vec<Vec<u32>> = Vec::new();
    let mut i: usize = 0;
    while i < 8
        invariant
            i <= 8,
            t@.len() == i,
            forall|a: int| 0 <= a < i ==> (#[trigger] t@[a])@.len() == 8,
            forall|a: int, b: int|
                0 <= a < i && 0 <= b < 8 ==> (#[trigger] t@[a]@[b]) == spec_default_table_score(
                    a,
                    b,
                ),
        decreases 8 - i,
    {
        let mut row: Vec<u32> = Vec::new();
        let mut j: usize = 0;
        while j < 8
            invariant
                j <= 8,
                i < 8,
                row@.len() == j,
                forall|b: int|
                    0 <= b < j ==> (#[trigger] row@[b]) == spec_default_table_score(i as int, b),
            decreases 8 - j,
        {
            let d: u32 = if i >= j {
                (i - j) as u32
            } else {
                (j - i) as u32
            };
            row.push(d * 10_000);
            j = j + 1;
        }
        t.push(row);
        i = i + 1;
    }
    t
}

impl Default for DecodingParameters {
    /// The stock parameter set: tenth-per-step score tables, the stock
    /// bearing table, weights of a tenth for class, a fifth for form, a
    /// fifth for bearing and a half for distance, five candidates and
    /// five attempts, 100 m and 40 % distance slack, a 0.6 rating cap, a
    /// 30 m search radius, 10 m and 5 % snapping, and a 20 m bearing
    /// distance.
    fn default() -> (r: Self)
        ensures
            r.wf(),
            r.allowed_frc_delta_table@ == seq![2usize, 3, 4, 5, 6, 7, 7, 7],
            forall|i: int, j: int|
                0 <= i < 8 && 0 <= j < 8 ==> (#[trigger] r.frc_score_table@[i]@[j])
                    == spec_default_table_score(i, j),
            forall|i: int, j: int|
                0 <= i < 8 && 0 <= j < 8 ==> (#[trigger] r.fow_score_table@[i]@[j])
                    == spec_default_table_score(i, j),
            forall|k: int|
                0 <= k < 17 ==> (#[trigger] r.bearing_score_table@[k])
                    == spec_default_bearing_score(k),
            r.frc_weight == 10,
            r.fow_weight == 20,
            r.bearing_weight == 20,
            r.distance_weight == 50,
            r.max_candidates_per_lrp == 5,
            r.max_routing_attempts == 5,
            r.max_absolute_dnp_variance == 100,
            r.max_relative_dnp_variance_milli == 400,
            r.max_acceptable_rating == 6_000_000,
            r.search_radius == 30,
            r.absolute_snapping_threshold == 10,
            r.relative_snapping_threshold_milli == 50,
            r.bearing_distance == 20,
    {
        let mut allowed: Vec<usize> = Vec::new();
        allowed.push(2);
        allowed.push(3);
        allowed.push(4);
        allowed.push(5);
        allowed.push(6);
        allowed.push(7);
        allowed.push(7);
        allowed.push(7);
        proof {
            assert(allowed@ =~= seq![2usize, 3, 4, 5, 6, 7, 7, 7]);
        }
        let mut bearing: Vec<u32> = Vec::new();
        let mut k: usize = 0;
        while k < 17
            invariant
                k <= 17,
                bearing@.len() == k,
                forall|a: int|
                    0 <= a < k ==> (#[trigger] bearing@[a]) == spec_default_bearing_score(a),
            decreases 17 - k,
        {
            let v: u32 = if k <= 1 {
                0
            } else if k <= 5 {
                (k as u32 - 1) * 20_000
            } else {
                100_000
            };
            bearing.push(v);
            k = k + 1;
        }
        DecodingParameters {
            allowed_frc_delta_table: allowed,
            frc_score_table: default_score_table(),
            fow_score_table: default_score_table(),
            bearing_score_table: bearing,
            frc_weight: 10,
            fow_weight: 20,
            bearing_weight: 20,
            distance_weight: 50,
            max_candidates_per_lrp: 5,
            max_routing_attempts: 5,
            max_absolute_dnp_variance: 100,
            max_relative_dnp_variance_milli: 400,
            max_acceptable_rating: 6_000_000,
            search_radius: 30,
            absolute_snapping_threshold: 10,
            relative_snapping_threshold_milli: 50,
            bearing_distance: 20,
        }
    }
}

} // verus!
