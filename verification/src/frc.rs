//! Functional road class: the importance classification of a road segment.

use vstd::prelude::*;

verus! {

/// Functional road class of a road segment, from FRC0 (most important)
/// down to FRC7 (least important).
#[derive(Debug, Clone, Copy, PartialEq, Eq, Structural, Hash)]
pub enum FRC {
    FRC0,
    FRC1,
    FRC2,
    FRC3,
    FRC4,
    FRC5,
    FRC6,
    FRC7,
}

impl FRC {
    /// The numeric code of this road class, as used in the wire format
    /// and as a row or column index into the road-class score table.
    pub open spec fn spec_to_usize(&self) -> usize {
        match self {
            FRC::FRC0 => 0,
            FRC::FRC1 => 1,
            FRC::FRC2 => 2,
            FRC::FRC3 => 3,
            FRC::FRC4 => 4,
            FRC::FRC5 => 5,
            FRC::FRC6 => 6,
            FRC::FRC7 => 7,
        }
    }

    /// The road class denoted by a wire code below 8.
    pub open spec fn spec_from_u8(i: u8) -> FRC {
        if i == 0 {
            FRC::FRC0
        } else if i == 1 {
            FRC::FRC1
        } else if i == 2 {
            FRC::FRC2
        } else if i == 3 {
            FRC::FRC3
        } else if i == 4 {
            FRC::FRC4
        } else if i == 5 {
            FRC::FRC5
        } else if i == 6 {
            FRC::FRC6
        } else {
            FRC::FRC7
        }
    }

    pub fn to_usize(&self) -> (r: usize)
        ensures
            r == self.spec_to_usize(),
            r < 8,
    {
        match self {
            FRC::FRC0 => 0,
            FRC::FRC1 => 1,
            FRC::FRC2 => 2,
            FRC::FRC3 => 3,
            FRC::FRC4 => 4,
            FRC::FRC5 => 5,
            FRC::FRC6 => 6,
            FRC::FRC7 => 7,
        }
    }

    pub fn from_u8(i: u8) -> (r: FRC)
        requires
            i < 8,
        ensures
            r == FRC::spec_from_u8(i),
            r.spec_to_usize() == i,
    {
        match i {
            0 => FRC::FRC0,
            1 => FRC::FRC1,
            2 => FRC::FRC2,
            3 => FRC::FRC3,
            4 => FRC::FRC4,
            5 => FRC::FRC5,
            6 => FRC::FRC6,
            _ => FRC::FRC7,
        }
    }
}

} // verus!
