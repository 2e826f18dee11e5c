//! The decode result: a location resolved onto the map.

use vstd::prelude::*;
use crate::line::LineLocation;

verus! {

/// A resolved location.  Only line locations are produced today; the
/// variant for anything else names the gap explicitly.
#[derive(Debug)]
pub enum Location {
    Line(LineLocation),
    Unknown,
}

} // verus!
