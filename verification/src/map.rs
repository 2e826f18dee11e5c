//! The map-provider interface the decoder consumes.
//!
//! The provider owns the road network and all floating-point geodesy.
//! Every geometric measurement the scorer needs — distances, projections
//! and bearings — is computed by the provider and handed over as plain
//! integer values, so the decoding logic itself works only on those.

use vstd::prelude::*;
use crate::edge::{Edge, GeoPoint};
use crate::errors::OpenLrErr;

verus! {

/// One edge found near a query point, together with the measurements
/// the provider took of it against that point.
#[derive(Debug, Clone)]
pub struct NearbyEdge {
    /// The edge itself.
    pub edge: Edge,
    /// Smallest distance from the query point to the edge's geometry,
    /// in meters.
    pub distance_m: u32,
    /// Distance along the edge from its start to the projection of the
    /// query point onto it, in meters.
    pub along_m: u32,
    /// Bearing of the edge measured at its start toward a point the
    /// requested bearing distance along it, in centidegrees below 36000.
    pub bearing_start_cdeg: u32,
    /// Bearing of the edge measured at its end back toward a point the
    /// requested bearing distance before it, in centidegrees below 36000.
    pub bearing_end_cdeg: u32,
}

/// One successor edge, together with its straight-line distance to a
/// search target.
#[derive(Debug, Clone)]
pub struct NextEdge {
    /// The edge itself.
    pub edge: Edge,
    /// Smallest distance from the edge's geometry to the target point
    /// given in the query, in meters; the search uses it as its
    /// remaining-distance estimate.
    pub distance_to_target_m: u32,
}

/// A road-network provider.  Implementations answer geometric queries
/// about their network; nothing is assumed of their answers, and the
/// decoder is checked against every answer they could give.
pub trait MapServer {
    /// Returns, for each query point in order, the edges within `radius`
    /// meters of it, each with its measurements taken against that point
    /// using the given bearing distance.
    fn get_nearby_edges(
        &self,
        points: &Vec<GeoPoint>,
        radius: u32,
        bearing_distance: u32,
    ) -> Result<Vec<Vec<NearbyEdge>>, OpenLrErr>;

    /// Returns the edges leaving the end node of the given edge in
    /// traversal direction, each with its distance to `target`.
    fn get_next_edges(
        &self,
        id: i64,
        end_node: i64,
        target: &GeoPoint,
    ) -> Result<Vec<NextEdge>, OpenLrErr>;
}

} // verus!
