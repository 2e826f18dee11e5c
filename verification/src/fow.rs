//! Form of way: the shape classification of a road segment.

use vstd::prelude::*;

verus! {

/// Form-of-way classification of a road segment, as carried both by
/// location reference points and by map edges.
#[derive(Debug, Clone, Copy, PartialEq, Eq, Structural, Hash)]
pub enum FOW {
    Undefined,
    Motorway,
    MultipleCarriageway,
    SingleCarriageway,
    Roundabout,
    TrafficSquare,
    SlipRoad,
    Other,
}

impl FOW {
    /// The numeric code of this form of way, as used in the wire format
    /// and as a row or column index into the form-of-way score table.
    pub open spec fn spec_to_usize(&self) -> usize {
        match self {
            FOW::Undefined => 0,
            FOW::Motorway => 1,
            FOW::MultipleCarriageway => 2,
            FOW::SingleCarriageway => 3,
            FOW::Roundabout => 4,
            FOW::TrafficSquare => 5,
            FOW::SlipRoad => 6,
            FOW::Other => 7,
        }
    }

    /// The form of way denoted by a wire code below 8.
    pub open spec fn spec_from_u8(i: u8) -> FOW {
        if i == 0 {
            FOW::Undefined
        } else if i == 1 {
            FOW::Motorway
        } else if i == 2 {
            FOW::MultipleCarriageway
        } else if i == 3 {
            FOW::SingleCarriageway
        } else if i == 4 {
            FOW::Roundabout
        } else if i == 5 {
            FOW::TrafficSquare
        } else if i == 6 {
            FOW::SlipRoad
        } else {
            FOW::Other
        }
    }

    pub fn to_usize(&self) -> (r: usize)
        ensures
            r == self.spec_to_usize(),
            r < 8,
    {
        match self {
            FOW::Undefined => 0,
            FOW::Motorway => 1,
            FOW::MultipleCarriageway => 2,
            FOW::SingleCarriageway => 3,
            FOW::Roundabout => 4,
            FOW::TrafficSquare => 5,
            FOW::SlipRoad => 6,
            FOW::Other => 7,
        }
    }

    pub fn from_u8(i: u8) -> (r: FOW)
        requires
            i < 8,
        ensures
            r == FOW::spec_from_u8(i),
            r.spec_to_usize() == i,
    {
        match i {
            0 => FOW::Undefined,
            1 => FOW::Motorway,
            2 => FOW::MultipleCarriageway,
            3 => FOW::SingleCarriageway,
            4 => FOW::Roundabout,
            5 => FOW::TrafficSquare,
            6 => FOW::SlipRoad,
            _ => FOW::Other,
        }
    }
}

} // verus!
