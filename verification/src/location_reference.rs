//! The decoded wire object: a location reference awaiting resolution.

use vstd::prelude::*;
use crate::line::LineLocationReference;

verus! {

/// A parsed location reference.  Only the line variant is decodable.
#[derive(Debug)]
pub enum LocationReference {
    Line(LineLocationReference),
}

impl LocationReference {
    /// Well-formedness of the carried reference.
    pub open spec fn wf(&self) -> bool {
        match self {
            LocationReference::Line(l) => l.wf(),
        }
    }
}

} // verus!
