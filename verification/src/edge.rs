//! Directed road-network edges and their fixed-point geometry.

use vstd::prelude::*;
use crate::fow::FOW;
use crate::frc::FRC;

verus! {

/// A geographic point in fixed-point coordinate units
/// (`crate::common::COORD_UNITS_PER_DEGREE` units per degree).
#[derive(Debug, Clone, Copy, PartialEq, Eq, Structural)]
pub struct GeoPoint {
    pub lon: i64,
    pub lat: i64,
}

/// A directed road segment of the map.
///
/// A negative `id` denotes the synthetically reversed direction of the
/// positive-id edge.  `meta` is an opaque pass-through string of the map
/// provider.  `len` is the segment's length in meters along its geometry.
/// `start_node` and `end_node` identify the segment's endpoints in the
/// provider's network; the end identity is what a successor query is
/// keyed by.
#[derive(Debug)]
pub struct Edge {
    pub id: i64,
    pub meta: String,
    pub fow: FOW,
    pub frc: FRC,
    pub len: u32,
    pub start_node: i64,
    pub end_node: i64,
    pub geom: Vec<GeoPoint>,
}

/// Whether two edges have the same content: every field equal, with
/// the geometry compared point by point.
pub open spec fn edge_eq(a: Edge, b: Edge) -> bool {
    &&& a.id == b.id
    &&& a.meta == b.meta
    &&& a.fow == b.fow
    &&& a.frc == b.frc
    &&& a.len == b.len
    &&& a.start_node == b.start_node
    &&& a.end_node == b.end_node
    &&& a.geom@ == b.geom@
}

impl Clone for Edge {
    /// A clone has the same content as the original.
    fn clone(&self) -> (r: Edge)
        ensures
            edge_eq(r, *self),
    {
        let mut geom: Vec<GeoPoint> = Vec::new();
        let mut i: usize = 0;
        while i < self.geom.len()
            invariant
                i <= self.geom@.len(),
                geom@.len() == i,
                forall|j: int| 0 <= j < i ==> geom@[j] == self.geom@[j],
            decreases self.geom@.len() - i,
        {
            geom.push(self.geom[i]);
            i = i + 1;
        }
        proof {
            assert(geom@ =~= self.geom@);
        }
        Edge {
            id: self.id,
            meta: self.meta.clone(),
            fow: self.fow,
            frc: self.frc,
            len: self.len,
            start_node: self.start_node,
            end_node: self.end_node,
            geom,
        }
    }
}

impl Edge {
    /// A well-formed edge has at least two geometry points.
    pub open spec fn wf(&self) -> bool {
        self.geom@.len() >= 2
    }

    /// Whether `r` is `self` with its direction reversed: negated id,
    /// endpoints swapped, geometry reversed, everything else kept.
    pub open spec fn is_reverse_of(&self, e: &Edge) -> bool {
        &&& self.id == -e.id
        &&& self.meta == e.meta
        &&& self.fow == e.fow
        &&& self.frc == e.frc
        &&& self.len == e.len
        &&& self.start_node == e.end_node
        &&& self.end_node == e.start_node
        &&& self.geom@ == e.geom@.reverse()
    }

    /// Builds an edge from its parts.
    pub fn new(
        id: i64,
        meta: String,
        fow: FOW,
        frc: FRC,
        len: u32,
        start_node: i64,
        end_node: i64,
        geom: Vec<GeoPoint>,
    ) -> (r: Edge)
        ensures
            r.id == id,
            r.meta == meta,
            r.fow == fow,
            r.frc == frc,
            r.len == len,
            r.start_node == start_node,
            r.end_node == end_node,
            r.geom == geom,
    {
        Edge { id, meta, fow, frc, len, start_node, end_node, geom }
    }

    /// Builds the edge that traverses `peer` in the opposite direction,
    /// under the negated id.
    pub fn new_from_reverse(peer: &Edge) -> (r: Edge)
        requires
            peer.id != i64::MIN,
        ensures
            r.is_reverse_of(peer),
    {
        let mut rev_geom: Vec<GeoPoint> = Vec::new();
        let n = peer.geom.len();
        let mut i: usize = 0;
        while i < n
            invariant
                i <= n,
                n == peer.geom@.len(),
                rev_geom@.len() == i,
                forall|j: int| 0 <= j < i ==> rev_geom@[j] == peer.geom@[n - 1 - j],
            decreases n - i,
        {
            rev_geom.push(peer.geom[n - 1 - i]);
            i = i + 1;
        }
        proof {
            assert(rev_geom@ =~= peer.geom@.reverse());
        }
        Edge {
            id: -peer.id,
            meta: peer.meta.clone(),
            fow: peer.fow,
            frc: peer.frc,
            len: peer.len,
            start_node: peer.end_node,
            end_node: peer.start_node,
            geom: rev_geom,
        }
    }

    /// The first point of the edge's geometry.
    pub fn get_start_point(&self) -> (r: GeoPoint)
        requires
            self.wf(),
        ensures
            r == self.geom@[0],
    {
        self.geom[0]
    }

    /// The last point of the edge's geometry.
    pub fn get_end_point(&self) -> (r: GeoPoint)
        requires
            self.wf(),
        ensures
            r == self.geom@[self.geom@.len() - 1],
    {
        self.geom[self.geom.len() - 1]
    }

    pub fn get_fow(&self) -> (r: FOW)
        ensures
            r == self.fow,
    {
        self.fow
    }

    pub fn get_frc(&self) -> (r: FRC)
        ensures
            r == self.frc,
    {
        self.frc
    }

    /// The edge's length in meters.
    pub fn get_line_length(&self) -> (r: u32)
        ensures
            r == self.len,
    {
        self.len
    }

    pub fn get_id(&self) -> (r: i64)
        ensures
            r == self.id,
    {
        self.id
    }

    pub fn get_metadata(&self) -> (r: String)
        ensures
            r == self.meta,
    {
        self.meta.clone()
    }

    /// The identity of the node the edge leads into; successor queries
    /// are keyed by it.
    pub fn get_end_node_id(&self) -> (r: i64)
        ensures
            r == self.end_node,
    {
        self.end_node
    }

    /// The identity of the node the edge leaves from.
    pub fn get_start_node_id(&self) -> (r: i64)
        ensures
            r == self.start_node,
    {
        self.start_node
    }
}

/// Clones every edge of a vector, preserving content and order.
pub fn clone_edges(v: &Vec<Edge>) -> (r: Vec<Edge>)
    ensures
        r@.len() == v@.len(),
        forall|i: int| 0 <= i < v@.len() ==> edge_eq(#[trigger] r@[i], v@[i]),
{
    let mut out: Vec<Edge> = Vec::new();
    let mut i: usize = 0;
    while i < v.len()
        invariant
            i <= v@.len(),
            out@.len() == i,
            forall|j: int| 0 <= j < i ==> edge_eq(#[trigger] out@[j], v@[j]),
        decreases v@.len() - i,
    {
        out.push(v[i].clone());
        i = i + 1;
    }
    out
}

/// Reversing an edge twice gives the edge back: the id, the endpoints
/// and the geometry all return to their original values.
pub proof fn lemma_reverse_involutive(e: Edge, r1: Edge, r2: Edge)
    requires
        r1.is_reverse_of(&e),
        r2.is_reverse_of(&r1),
    ensures
        r2.id == e.id,
        r2.meta == e.meta,
        r2.fow == e.fow,
        r2.frc == e.frc,
        r2.len == e.len,
        r2.start_node == e.start_node,
        r2.end_node == e.end_node,
        r2.geom@ == e.geom@,
{
    assert(r2.geom@ =~= e.geom@);
}

} // verus!
