//! The first byte of a wire payload: version, flags and area code.

use vstd::prelude::*;

verus! {

/// The header byte of a binary location reference.
#[derive(Debug, Clone, Copy)]
pub struct BinaryHeader {
    header_byte: u8,
}

/// The two-bit area code of the header: which family of area location
/// types the reference belongs to.
#[derive(Debug, Clone, Copy, PartialEq, Eq, Structural)]
pub enum AreaFlag {
    CircleOrNoAreaLocation,
    Polygon,
    RectangleOrGrid,
    ClosedLine,
}

/// Whether bit 3 of the header byte is set: the reference carries
/// attribute bytes.
pub open spec fn spec_has_attrs(b: u8) -> bool {
    b & 0x08 != 0
}

/// Whether bit 5 of the header byte is set: the reference is a point
/// location.
pub open spec fn spec_is_point(b: u8) -> bool {
    b & 0x20 != 0
}

/// The low three bits of the header byte: the protocol version.
pub open spec fn spec_version(b: u8) -> u8 {
    b & 0x07
}

/// The two-bit area code of the header byte: bit 6 contributes two,
/// bit 4 contributes one.
pub open spec fn spec_area_code(b: u8) -> int {
    ((b >> 5) & 0x02) + ((b >> 4) & 0x01)
}

/// The area flag denoted by the header byte's area code.
pub open spec fn spec_area_flag(b: u8) -> AreaFlag {
    let c = spec_area_code(b);
    if c == 0 {
        AreaFlag::CircleOrNoAreaLocation
    } else if c == 1 {
        AreaFlag::Polygon
    } else if c == 2 {
        AreaFlag::RectangleOrGrid
    } else {
        AreaFlag::ClosedLine
    }
}

impl BinaryHeader {
    /// The byte this header was made from.
    pub closed spec fn spec_byte(&self) -> u8 {
        self.header_byte
    }

    pub fn new(b: u8) -> (r: Self)
        ensures
            r.spec_byte() == b,
    {
        BinaryHeader { header_byte: b }
    }

    pub fn has_attrs(&self) -> (r: bool)
        ensures
            r == spec_has_attrs(self.spec_byte()),
    {
        self.header_byte & 0x08 > 0
    }

    pub fn area_flag(&self) -> (r: AreaFlag)
        ensures
            r == spec_area_flag(self.spec_byte()),
    {
        let b = self.header_byte;
        proof {
            assert(((b >> 5) & 0x02) <= 2 && ((b >> 4) & 0x01) <= 1) by (bit_vector);
        }
        let code = ((b >> 5) & 0x02) + ((b >> 4) & 0x01);
        match code {
            0 => AreaFlag::CircleOrNoAreaLocation,
            1 => AreaFlag::Polygon,
            2 => AreaFlag::RectangleOrGrid,
            _ => AreaFlag::ClosedLine,
        }
    }

    pub fn version(&self) -> (r: u8)
        ensures
            r == spec_version(self.spec_byte()),
    {
        self.header_byte & 0x07
    }

    pub fn is_point(&self) -> (r: bool)
        ensures
            r == spec_is_point(self.spec_byte()),
    {
        self.header_byte & 0x20 > 0
    }
}

} // verus!
