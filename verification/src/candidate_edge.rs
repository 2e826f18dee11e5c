//! A map edge proposed as the match for one location reference point.

use vstd::prelude::*;
use crate::edge::Edge;

verus! {

/// One candidate: an edge, the offset at which the point sits on it,
/// the index of the point it belongs to, and its weighted match score
/// (0 is a perfect match).
#[derive(Debug)]
pub struct CandidateEdge {
    pub candidate: Edge,
    /// Meters from the edge's relevant endpoint to the point's
    /// projection; zero when snapped to that endpoint.
    pub offset: u32,
    /// Index of the originating point in the reference's point sequence.
    pub lrp_index: usize,
    /// Weighted score, up to `crate::decoding_parameters::RATING_SCALE`
    /// times the number of components; lower is better.
    pub score: u64,
}

impl Clone for CandidateEdge {
    /// A clone carries the same offset, point index and score, and an
    /// edge of the same content.
    fn clone(&self) -> (r: CandidateEdge)
        ensures
            crate::edge::edge_eq(r.candidate, self.candidate),
            r.offset == self.offset,
            r.lrp_index == self.lrp_index,
            r.score == self.score,
    {
        CandidateEdge {
            candidate: self.candidate.clone(),
            offset: self.offset,
            lrp_index: self.lrp_index,
            score: self.score,
        }
    }
}

/// The candidate order: ascending score, ties broken by ascending
/// offset.
pub open spec fn cand_leq(a: CandidateEdge, b: CandidateEdge) -> bool {
    a.score < b.score || (a.score == b.score && a.offset <= b.offset)
}

} // verus!
