//! Decoder for OpenLR line location references.
//!
//! A location reference describes a path on a road network in a compact,
//! map-agnostic binary form.  This crate reconstructs such a reference
//! against a caller-supplied map: it parses the binary wire format into
//! location reference points, scores nearby map edges against each point,
//! and connects the chosen candidates into one edge path by a bounded
//! best-first search.

use vstd::prelude::*;

mod outside;

pub mod astar;
pub mod binary_header;
pub mod common;
pub mod decoding_parameters;
pub mod edge;
pub mod errors;
pub mod fow;
pub mod frc;
pub mod candidate_edge;
pub mod location_reference_point;
pub mod line;
pub mod location;
pub mod location_reference;
pub mod location_type;
pub mod log;
pub mod map;
pub mod request_context;
pub mod request_result;
pub mod route_generator;

use crate::decoding_parameters::DecodingParameters;
use crate::errors::OpenLrErr;
use crate::line::LineLocationReference;
use crate::location::Location;
use crate::location_reference::LocationReference;
use crate::location_type::{spec_location_type, LocationType};
use crate::log::{LogEntry, LogLevel};
use crate::map::MapServer;
use crate::outside::{decode_base64, duration_micros, instant_elapsed, instant_now, spec_base64_decoding};
use crate::request_context::RequestContext;
use crate::request_result::RequestResult;

verus! {

/// Parses a base64 wire string into a location reference.  Bad base64
/// is a parse error; a payload that is no known type is an
/// unknown-type error; a recognized type other than a line is an
/// unsupported-type error naming the type; a line payload is decoded
/// in full or rejected with a length error.
pub fn deserialize_binary(bin: &str) -> (r: Result<LocationReference, OpenLrErr>)
    ensures
        ({
            match spec_base64_decoding(bin@) {
                None => r matches Err(e) && e is Base64ParseError,
                Some(b) => {
                    let t = spec_location_type(b);
                    &&& t is Line && crate::line::spec_wire_ok(b) ==> (r matches Ok(
                        LocationReference::Line(l),
                    ) && l.wf())
                    &&& t is Line && !crate::line::spec_wire_ok(b) ==> r == Result::<
                        LocationReference,
                        OpenLrErr,
                    >::Err(OpenLrErr::InvalidBinaryStringLength(b.len() as usize))
                    &&& t is Unknown ==> r == Result::<LocationReference, OpenLrErr>::Err(
                        OpenLrErr::UnknownLocationTypeError,
                    )
                    &&& !(t is Line) && !(t is Unknown) ==> r == Result::<
                        LocationReference,
                        OpenLrErr,
                    >::Err(OpenLrErr::UnsupportedLocationTypeError(t))
                },
            }
        }),
{
    let bytes: Vec<u8> = match decode_base64(bin) {
        Ok(b) => b,
        Err(reason) => {
            return Err(OpenLrErr::Base64ParseError(String::from_str(bin), reason));
        },
    };
    match LocationType::from(&bytes) {
        LocationType::Line => match LineLocationReference::from_binary(&bytes) {
            Ok(l) => Ok(LocationReference::Line(l)),
            Err(e) => Err(e),
        },
        LocationType::Unknown => Err(OpenLrErr::UnknownLocationTypeError),
        loc => Err(OpenLrErr::UnsupportedLocationTypeError(loc)),
    }
}

/// Resolves a parsed location reference against the map, wrapping the
/// outcome with the request id, the elapsed time and the request log.
pub fn decode<M: MapServer>(
    id: u64,
    locref: &LocationReference,
    map_server: &M,
    params: &DecodingParameters,
    level: LogLevel,
) -> (r: RequestResult<Location>)
    requires
        locref.wf(),
        params.wf(),
    ensures
        r.id == id,
        r.result matches Ok(loc) ==> loc is Line,
{
    let start = instant_now();
    let mut context = RequestContext::new(params, level);
    let result = match locref {
        LocationReference::Line(line_loc_ref) => line_loc_ref.decode(map_server, &mut context),
    };
    let elapsed = duration_micros(&instant_elapsed(&start));
    RequestResult::new(id, result, elapsed, context.take_log())
}

/// Parses a base64 wire string and resolves it in one step; a parse
/// failure comes back in the same envelope with zero elapsed time and
/// an empty log, and the map provider is never consulted for it.
pub fn decode_binary<M: MapServer>(
    bin: &str,
    id: u64,
    map_server: &M,
    params: &DecodingParameters,
    level: LogLevel,
) -> (r: RequestResult<Location>)
    requires
        params.wf(),
    ensures
        r.id == id,
        r.result matches Ok(loc) ==> loc is Line,
        ({
            match spec_base64_decoding(bin@) {
                None => {
                    &&& (r.result matches Err(e) && e is Base64ParseError)
                    &&& r.elapsed_micros == 0
                    &&& r.log@.len() == 0
                },
                Some(b) => {
                    let t = spec_location_type(b);
                    &&& t is Unknown ==> r.result == Result::<Location, OpenLrErr>::Err(
                        OpenLrErr::UnknownLocationTypeError,
                    ) && r.elapsed_micros == 0 && r.log@.len() == 0
                    &&& !(t is Line) && !(t is Unknown) ==> r.result == Result::<
                        Location,
                        OpenLrErr,
                    >::Err(OpenLrErr::UnsupportedLocationTypeError(t)) && r.elapsed_micros == 0
                        && r.log@.len() == 0
                    &&& t is Line && !crate::line::spec_wire_ok(b) ==> r.result == Result::<
                        Location,
                        OpenLrErr,
                    >::Err(OpenLrErr::InvalidBinaryStringLength(b.len() as usize))
                        && r.elapsed_micros == 0 && r.log@.len() == 0
                },
            }
        }),
{
    let locref = match deserialize_binary(bin) {
        Ok(l) => l,
        Err(e) => {
            return RequestResult::new(id, Err(e), 0, Vec::<LogEntry>::new());
        },
    };
    decode(id, &locref, map_server, params, level)
}

} // verus!
