//! The error taxonomy of the decoder.

use vstd::prelude::*;
use crate::location_type::LocationType;

verus! {

/// Every failure the decoder can report.
///
/// Malformed input (bad base64, bad length, unknown or unsupported
/// location type) is distinguished from data-dependent no-match outcomes
/// (no candidates for a point, no sub-path, no full path, an offset
/// spanning the whole path), and both from map-provider failures, so a
/// caller can tell a bad request from a decode that merely found nothing.
#[derive(Debug, Clone)]
pub enum OpenLrErr {
    /// The edge geometry text handed to a constructor could not be parsed.
    InvalidEdgeWKT,
    /// The header byte and length match no known location type.
    UnknownLocationTypeError,
    /// The reference is of a recognized type that this decoder does not
    /// decode; carries the detected type.
    UnsupportedLocationTypeError(LocationType),
    /// An internal invariant failed; carries a short description.
    ImplementationError(String),
    /// The map provider failed a nearby-edges search.
    NearbyEdgesError(String),
    /// The offsets trim away the entire found path from the rear.
    NegativeOffsetTooLong,
    /// The offsets trim away the entire found path from the front.
    PostiveOffsetTooLong,
    /// No candidate combination could be connected into a full path.
    NoPathFound,
    /// No sub-path connects the candidates of the two named points.
    NoSubPathFound(usize, usize),
    /// No nearby edge scored acceptably for the named point.
    NoCandidatesFoundForLRP(usize),
    /// The input is not valid base64; carries the input and the reason.
    Base64ParseError(String, String),
    /// The byte length fits no valid line reference; carries the length.
    InvalidBinaryStringLength(usize),
    /// The map provider failed a next-edges search.
    NextEdgeError(String),
    /// A failure that fits no other variant.
    Unknown,
}

} // verus!
