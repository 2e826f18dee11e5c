//! Classification of a wire payload into a location-reference type.

use vstd::prelude::*;
use crate::binary_header::{spec_area_flag, spec_has_attrs, spec_is_point, AreaFlag, BinaryHeader};

verus! {

/// The location-reference type a wire payload announces.  Only `Line`
/// is decoded further; the others are recognized so the decoder can
/// name what it refuses.
#[derive(Debug, Clone, Copy, PartialEq, Eq, Structural)]
pub enum LocationType {
    Line,
    GeoCoordinate,
    PointAlongLine,
    PoiWithAccessPoint,
    Circle,
    Rectangle,
    Grid,
    Polygon,
    ClosedLine,
    Unknown,
}

/// The type a payload of the given first byte and length classifies as.
/// The combination of the point flag, the area flag, the attribute flag
/// and, for some types, the byte length decides; anything else, and an
/// empty payload, is `Unknown`.
pub open spec fn spec_location_type(bytes: Seq<u8>) -> LocationType {
    if bytes.len() == 0 {
        LocationType::Unknown
    } else {
        let b = bytes[0];
        let len = bytes.len();
        let point = spec_is_point(b);
        let area = spec_area_flag(b);
        let attrs = spec_has_attrs(b);
        if !point && area == AreaFlag::CircleOrNoAreaLocation && attrs {
            LocationType::Line
        } else if point && area == AreaFlag::CircleOrNoAreaLocation && !attrs {
            LocationType::GeoCoordinate
        } else if point && area == AreaFlag::CircleOrNoAreaLocation && attrs && (len == 16 || len
            == 17) {
            LocationType::PointAlongLine
        } else if point && area == AreaFlag::CircleOrNoAreaLocation && attrs && (len == 20 || len
            == 21) {
            LocationType::PoiWithAccessPoint
        } else if !point && area == AreaFlag::CircleOrNoAreaLocation && !attrs {
            LocationType::Circle
        } else if !point && area == AreaFlag::RectangleOrGrid && !attrs && (len == 11 || len
            == 13) {
            LocationType::Rectangle
        } else if !point && area == AreaFlag::RectangleOrGrid && !attrs && (len == 15 || len
            == 17) {
            LocationType::Grid
        } else if !point && area == AreaFlag::Polygon && !attrs {
            LocationType::Polygon
        } else if !point && area == AreaFlag::ClosedLine && attrs {
            LocationType::ClosedLine
        } else {
            LocationType::Unknown
        }
    }
}

impl LocationType {
    /// Classifies a wire payload by its first byte and length.
    pub fn from(value: &Vec<u8>) -> (r: LocationType)
        ensures
            r == spec_location_type(value@),
    {
        let len = value.len();
        if len == 0 {
            LocationType::Unknown
        } else {
            let bh = BinaryHeader::new(value[0]);
            let point = bh.is_point();
            let area = bh.area_flag();
            let attrs = bh.has_attrs();
            if !point && matches!(area, AreaFlag::CircleOrNoAreaLocation) && attrs {
                LocationType::Line
            } else if point && matches!(area, AreaFlag::CircleOrNoAreaLocation) && !attrs {
                LocationType::GeoCoordinate
            } else if point && matches!(area, AreaFlag::CircleOrNoAreaLocation) && attrs && (len
                == 16 || len == 17) {
                LocationType::PointAlongLine
            } else if point && matches!(area, AreaFlag::CircleOrNoAreaLocation) && attrs && (len
                == 20 || len == 21) {
                LocationType::PoiWithAccessPoint
            } else if !point && matches!(area, AreaFlag::CircleOrNoAreaLocation) && !attrs {
                LocationType::Circle
            } else if !point && matches!(area, AreaFlag::RectangleOrGrid) && !attrs && (len == 11
                || len == 13) {
                LocationType::Rectangle
            } else if !point && matches!(area, AreaFlag::RectangleOrGrid) && !attrs && (len == 15
                || len == 17) {
                LocationType::Grid
            } else if !point && matches!(area, AreaFlag::Polygon) && !attrs {
                LocationType::Polygon
            } else if !point && matches!(area, AreaFlag::ClosedLine) && attrs {
                LocationType::ClosedLine
            } else {
                LocationType::Unknown
            }
        }
    }
}

} // verus!
