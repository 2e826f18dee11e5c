//! Line location references: the wire decoder and the final path
//! assembly into a line location.

use vstd::prelude::*;
use crate::binary_header::BinaryHeader;
use crate::common::{
    calculate_offset, get_next_coordinate, int2deg, spec_calculate_offset, spec_distance_to_next_lrp,
    spec_int2bearing, spec_int2deg, spec_next_coordinate, spec_trim, trim,
};
use crate::edge::Edge;
use crate::errors::OpenLrErr;
use crate::fow::FOW;
use crate::frc::FRC;
use crate::common::find_route_across_lrps;
use crate::location::Location;
use crate::location_reference_point::LocationReferencePoint;
use crate::map::MapServer;
use crate::request_context::RequestContext;

verus! {

/// The largest accepted binary payload: the point count it admits is
/// the most whose accumulated relative coordinates provably stay within
/// the signed 64-bit fixed-point range, rounded to the full 32-bit
/// length space.  Every real line reference is many orders of magnitude
/// below it.
pub const MAX_BINARY_LENGTH: usize = 4_294_967_295;

/// The number of points a payload of `n` bytes holds.
pub open spec fn spec_num_lrps(n: int) -> int {
    n / 7
}

/// The number of trailing offset bytes of a payload of `n` bytes.
pub open spec fn spec_extra_bytes(n: int) -> int {
    (n - 16) % 7
}

/// Whether `n` is a valid line-reference payload length: room for a
/// header, a nine-byte first point and a six-byte last point, at most
/// two trailing offset bytes, and within the accepted maximum.
pub open spec fn spec_valid_length(n: int) -> bool {
    16 <= n <= MAX_BINARY_LENGTH && spec_extra_bytes(n) <= 2
}

/// Where point `i`'s attribute bytes start in the payload.
pub open spec fn spec_attr_base(i: int) -> int {
    if i == 0 {
        7
    } else {
        7 * i + 7
    }
}

/// The fixed-point longitude of point `i`: absolute for the first
/// point, then one relative step per further point.
pub open spec fn spec_lrp_lon(bytes: Seq<u8>, i: int) -> int
    decreases i,
{
    if i <= 0 {
        spec_int2deg(bytes[1], bytes[2], bytes[3])
    } else {
        spec_next_coordinate(bytes[7 * i + 3], bytes[7 * i + 4], spec_lrp_lon(bytes, i - 1))
    }
}

/// The fixed-point latitude of point `i`.
pub open spec fn spec_lrp_lat(bytes: Seq<u8>, i: int) -> int
    decreases i,
{
    if i <= 0 {
        spec_int2deg(bytes[4], bytes[5], bytes[6])
    } else {
        spec_next_coordinate(bytes[7 * i + 5], bytes[7 * i + 6], spec_lrp_lat(bytes, i - 1))
    }
}

/// Whether `p` is exactly the point that bytes `bytes` encode at
/// position `i` of a reference of `nl` points.
pub open spec fn spec_lrp_ok(
    bytes: Seq<u8>,
    nl: int,
    i: int,
    p: LocationReferencePoint,
) -> bool {
    let a = spec_attr_base(i);
    &&& p.longitude == spec_lrp_lon(bytes, i)
    &&& p.latitude == spec_lrp_lat(bytes, i)
    &&& p.fow == FOW::spec_from_u8(bytes[a] & 0x07)
    &&& p.frc == FRC::spec_from_u8((bytes[a] >> 3) & 0x07)
    &&& p.bearing_sector == bytes[a + 1] & 0x1f
    &&& p.bearing.0 == spec_int2bearing(bytes[a + 1] & 0x1f).0
    &&& p.bearing.1 == spec_int2bearing(bytes[a + 1] & 0x1f).1
    &&& p.index == i
    &&& (p.is_last <==> i == nl - 1)
    &&& if i < nl - 1 {
        &&& p.lowest_frc_to_next_point == Some(FRC::spec_from_u8(bytes[a + 1] >> 5))
        &&& p.dnp == Some(
            (
                spec_distance_to_next_lrp(bytes[a + 2]).0 as u32,
                spec_distance_to_next_lrp(bytes[a + 2]).1 as u32,
            ),
        )
    } else {
        &&& p.lowest_frc_to_next_point is None
        &&& p.dnp is None
    }
    &&& p.wf()
}

/// Whether the payload flags a positive offset byte: bit 6 of the last
/// point's second attribute byte.
pub open spec fn spec_has_pos_offset(bytes: Seq<u8>) -> bool {
    bytes[7 * spec_num_lrps(bytes.len() as int) + 1] & 0x40 != 0
}

/// Whether the payload flags a negative offset byte: bit 5 of the last
/// point's second attribute byte.
pub open spec fn spec_has_neg_offset(bytes: Seq<u8>) -> bool {
    bytes[7 * spec_num_lrps(bytes.len() as int) + 1] & 0x20 != 0
}

/// Whether the payload is a fully valid line reference: a valid length,
/// and a trailing byte present for each flagged offset.
pub open spec fn spec_wire_ok(bytes: Seq<u8>) -> bool {
    &&& spec_valid_length(bytes.len() as int)
    &&& (spec_has_pos_offset(bytes) ==> spec_extra_bytes(bytes.len() as int) >= 1)
    &&& (spec_has_neg_offset(bytes) ==> spec_extra_bytes(bytes.len() as int) >= (
        if spec_has_pos_offset(bytes) {
            2int
        } else {
            1int
        }
    ))
}

/// The positive offset range the payload encodes, scaled against the
/// first point's distance range.
pub open spec fn spec_pos_offset(bytes: Seq<u8>) -> (int, int) {
    let nl = spec_num_lrps(bytes.len() as int);
    let d = spec_distance_to_next_lrp(bytes[9]);
    spec_calculate_offset(bytes[7 * nl + 2], (d.0 as u32, d.1 as u32))
}

/// The negative offset range the payload encodes, scaled against the
/// second-to-last point's distance range.
pub open spec fn spec_neg_offset(bytes: Seq<u8>) -> (int, int) {
    let nl = spec_num_lrps(bytes.len() as int);
    let adj: int = if spec_has_pos_offset(bytes) {
        1
    } else {
        0
    };
    let d = spec_distance_to_next_lrp(bytes[spec_attr_base(nl - 2) + 2]);
    spec_calculate_offset(bytes[7 * nl + 2 + adj], (d.0 as u32, d.1 as u32))
}

/// The decoded form of a line reference on the wire: its header, its
/// ordered points, and the optional offset ranges into the first and
/// last segment.
#[derive(Debug)]
pub struct LineLocationReference {
    pub header: BinaryHeader,
    pub lrps: Vec<LocationReferencePoint>,
    pub pos_offset: Option<(u32, u32)>,
    pub neg_offset: Option<(u32, u32)>,
}

impl LineLocationReference {
    /// Well-formedness: at least two points, each well formed, indexed
    /// by position, with exactly the last marked last; offset ranges
    /// are ordered and within the encodable distance.
    pub open spec fn wf(&self) -> bool {
        &&& 2 <= self.lrps@.len() <= 613_566_756
        &&& forall|i: int|
            0 <= i < self.lrps@.len() ==> {
                &&& (#[trigger] self.lrps@[i]).wf()
                &&& self.lrps@[i].index == i
                &&& (self.lrps@[i].is_last <==> i == self.lrps@.len() - 1)
            }
        &&& match self.pos_offset {
            Some(t) => t.0 <= t.1 <= 15_000,
            None => true,
        }
        &&& match self.neg_offset {
            Some(t) => t.0 <= t.1 <= 15_000,
            None => true,
        }
    }

    /// Decodes a line reference from its binary payload.  Succeeds on
    /// exactly the payloads whose length is valid and which carry every
    /// flagged trailing offset byte; everything else is rejected with a
    /// length error naming the actual length.
    pub fn from_binary(bytes: &Vec<u8>) -> (r: Result<LineLocationReference, OpenLrErr>)
        ensures
            r is Ok <==> spec_wire_ok(bytes@),
            r is Err ==> r == Result::<LineLocationReference, OpenLrErr>::Err(
                OpenLrErr::InvalidBinaryStringLength(bytes@.len() as usize),
            ),
            r matches Ok(l) ==> {
                let n = bytes@.len() as int;
                let nl = spec_num_lrps(n);
                &&& l.header.spec_byte() == bytes@[0]
                &&& l.lrps@.len() == nl
                &&& forall|i: int| 0 <= i < nl ==> spec_lrp_ok(bytes@, nl, i, #[trigger] l.lrps@[i])
                &&& l.pos_offset == (if spec_has_pos_offset(bytes@) {
                    Some(
                        (spec_pos_offset(bytes@).0 as u32, spec_pos_offset(bytes@).1 as u32),
                    )
                } else {
                    Option::<(u32, u32)>::None
                })
                &&& l.neg_offset == (if spec_has_neg_offset(bytes@) {
                    Some(
                        (spec_neg_offset(bytes@).0 as u32, spec_neg_offset(bytes@).1 as u32),
                    )
                } else {
                    Option::<(u32, u32)>::None
                })
                &&& l.wf()
            },
    {
        let n = bytes.len();
        if n < 16 || n > MAX_BINARY_LENGTH || (n - 16) % 7 > 2 {
            return Err(OpenLrErr::InvalidBinaryStringLength(n));
        }
        let num_lrps = n / 7;
        let extra = (n - 16) % 7;
        proof {
            let m = n as int - 16;
            vstd::arithmetic::div_mod::lemma_fundamental_div_mod(m, 7);
            let q = m / 7;
            let e = m % 7;
            vstd::arithmetic::div_mod::lemma_fundamental_div_mod_converse(n as int, 7, q + 2, e + 2);
            assert(num_lrps == q + 2);
            assert(num_lrps >= 2);
            assert(7 * num_lrps + 2 + extra == n);
        }
        let header = BinaryHeader::new(bytes[0]);
        let s = bytes.as_slice();

        let mut lrps: Vec<LocationReferencePoint> = Vec::new();
        let mut lon = int2deg(bytes[1], bytes[2], bytes[3]);
        let mut lat = int2deg(bytes[4], bytes[5], bytes[6]);
        let first = LocationReferencePoint::new_from_byte_array(lon, lat, &s[7..10], 0, false);
        proof {
            assert(s@.subrange(7, 10)[0] == bytes@[7]);
            assert(s@.subrange(7, 10)[1] == bytes@[8]);
            assert(s@.subrange(7, 10)[2] == bytes@[9]);
        }
        lrps.push(first);

        let mut i: usize = 1;
        let mut offset: usize = 10;
        while i < num_lrps - 1
            invariant
                1 <= i <= num_lrps - 1,
                2 <= num_lrps,
                offset == 10 + 7 * (i - 1),
                n == bytes@.len(),
                7 * num_lrps + 2 + extra == n,
                extra <= 2,
                n <= MAX_BINARY_LENGTH,
                s@ == bytes@,
                lrps@.len() == i,
                lon == spec_lrp_lon(bytes@, i - 1),
                lat == spec_lrp_lat(bytes@, i - 1),
                -2_359_296_000_000 - (i - 1) * 4_294_967_296 <= lon <= 2_359_296_000_000 + (i - 1)
                    * 4_294_967_296,
                -2_359_296_000_000 - (i - 1) * 4_294_967_296 <= lat <= 2_359_296_000_000 + (i - 1)
                    * 4_294_967_296,
                forall|j: int|
                    0 <= j < i ==> spec_lrp_ok(bytes@, num_lrps as int, j, #[trigger] lrps@[j]),
            decreases num_lrps - 1 - i,
        {
            proof {
                assert((i - 1) * 4_294_967_296 <= 613_566_756 * 4_294_967_296) by (nonlinear_arith)
                    requires
                        i - 1 <= 613_566_756,
                ;
                assert(i * 4_294_967_296 <= 613_566_757 * 4_294_967_296) by (nonlinear_arith)
                    requires
                        i <= 613_566_757,
                ;
            }
            lon = get_next_coordinate(bytes[offset], bytes[offset + 1], lon);
            lat = get_next_coordinate(bytes[offset + 2], bytes[offset + 3], lat);
            let p = LocationReferencePoint::new_from_byte_array(
                lon,
                lat,
                &s[offset + 4..offset + 7],
                i,
                false,
            );
            proof {
                let a = spec_attr_base(i as int);
                assert(a == offset + 4);
                assert(s@.subrange(offset + 4, offset + 7)[0] == bytes@[a]);
                assert(s@.subrange(offset + 4, offset + 7)[1] == bytes@[a + 1]);
                assert(s@.subrange(offset + 4, offset + 7)[2] == bytes@[a + 2]);
            }
            lrps.push(p);
            i = i + 1;
            offset = offset + 7;
        }

        proof {
            assert((i - 1) * 4_294_967_296 <= 613_566_756 * 4_294_967_296) by (nonlinear_arith)
                requires
                    i - 1 <= 613_566_756,
            ;
        }
        lon = get_next_coordinate(bytes[offset], bytes[offset + 1], lon);
        lat = get_next_coordinate(bytes[offset + 2], bytes[offset + 3], lat);
        let last = LocationReferencePoint::new_from_byte_array(
            lon,
            lat,
            &s[offset + 4..offset + 6],
            num_lrps - 1,
            true,
        );
        proof {
            let a = spec_attr_base(num_lrps - 1);
            assert(a == offset + 4);
            assert(s@.subrange(offset + 4, offset + 6)[0] == bytes@[a]);
            assert(s@.subrange(offset + 4, offset + 6)[1] == bytes@[a + 1]);
        }
        lrps.push(last);

        let flag_byte = bytes[offset + 5];
        let p_flag = flag_byte & 0x40 > 0;
        let n_flag = flag_byte & 0x20 > 0;
        proof {
            assert(offset + 5 == 7 * spec_num_lrps(bytes@.len() as int) + 1);
            assert(p_flag == spec_has_pos_offset(bytes@));
            assert(n_flag == spec_has_neg_offset(bytes@));
        }

        let pos_offset: Option<(u32, u32)> = if p_flag {
            if offset + 6 >= n {
                return Err(OpenLrErr::InvalidBinaryStringLength(n));
            }
            let first_dnp = lrps[0].dnp.unwrap();
            let ob = bytes[offset + 6];
            proof {
                assert(spec_lrp_ok(bytes@, num_lrps as int, 0, lrps@[0]));
                assert(first_dnp.0 <= first_dnp.1 <= 15_000);
                assert(ob * first_dnp.0 <= 255 * 15_000) by (nonlinear_arith)
                    requires
                        ob <= 255,
                        first_dnp.0 <= 15_000,
                ;
                assert(ob * first_dnp.1 <= 255 * 15_000) by (nonlinear_arith)
                    requires
                        ob <= 255,
                        first_dnp.1 <= 15_000,
                ;
                assert(ob * first_dnp.0 <= ob * first_dnp.1) by (nonlinear_arith)
                    requires
                        first_dnp.0 <= first_dnp.1,
                        0 <= ob,
                ;
            }
            Some(calculate_offset(ob, first_dnp))
        } else {
            None
        };

        let neg_offset: Option<(u32, u32)> = if n_flag {
            let adj: usize = if p_flag {
                1
            } else {
                0
            };
            if offset + 6 + adj >= n {
                return Err(OpenLrErr::InvalidBinaryStringLength(n));
            }
            let prev_dnp = lrps[num_lrps - 2].dnp.unwrap();
            let ob = bytes[offset + 6 + adj];
            proof {
                assert(spec_lrp_ok(bytes@, num_lrps as int, num_lrps - 2, lrps@[num_lrps - 2]));
                assert(prev_dnp.0 <= prev_dnp.1 <= 15_000);
                assert(ob * prev_dnp.0 <= 255 * 15_000) by (nonlinear_arith)
                    requires
                        ob <= 255,
                        prev_dnp.0 <= 15_000,
                ;
                assert(ob * prev_dnp.1 <= 255 * 15_000) by (nonlinear_arith)
                    requires
                        ob <= 255,
                        prev_dnp.1 <= 15_000,
                ;
                assert(ob * prev_dnp.0 <= ob * prev_dnp.1) by (nonlinear_arith)
                    requires
                        prev_dnp.0 <= prev_dnp.1,
                        0 <= ob,
                ;
            }
            Some(calculate_offset(ob, prev_dnp))
        } else {
            None
        };

        Ok(LineLocationReference { header, lrps, pos_offset, neg_offset })
    }

    /// The total front offset of a location built from this reference:
    /// the first candidate's placement offset plus the encoded positive
    /// offset's lower bound.
    pub open spec fn spec_start_total(&self, seg_start_offset: u32) -> int {
        seg_start_offset + (match self.pos_offset {
            Some(t) => t.0 as int,
            None => 0,
        })
    }

    /// The total rear offset: the last candidate's placement offset plus
    /// the encoded negative offset's lower bound.
    pub open spec fn spec_end_total(&self, seg_end_offset: u32) -> int {
        seg_end_offset + (match self.neg_offset {
            Some(t) => t.0 as int,
            None => 0,
        })
    }

    /// The front trim of a path: nothing is consumed when the total
    /// front offset is zero.
    pub open spec fn spec_front(&self, path: Seq<Edge>, seg_start_offset: u32) -> Option<
        (int, int),
    > {
        let total = self.spec_start_total(seg_start_offset);
        if total > 0 {
            spec_trim(path, total)
        } else {
            Some((0, 0))
        }
    }

    /// The rear trim of a path: the same walk over the reversed path.
    pub open spec fn spec_rear(&self, path: Seq<Edge>, seg_end_offset: u32) -> Option<(int, int)> {
        let total = self.spec_end_total(seg_end_offset);
        if total > 0 {
            spec_trim(path.reverse(), total)
        } else {
            Some((0, 0))
        }
    }

    /// Turns a connected edge path and the two boundary placement
    /// offsets into the final line location: whole edges covered by the
    /// offsets are trimmed from either end, and the reported offset
    /// ranges carry the leftover meters widened by the wire encoding's
    /// tolerance.  Fails when an offset spans the whole path, or when
    /// the two trims overlap.
    pub fn build_location(
        &self,
        path: Vec<Edge>,
        seg_start_offset: u32,
        seg_end_offset: u32,
    ) -> (r: Result<LineLocation, OpenLrErr>)
        requires
            self.wf(),
            path@.len() >= 1,
            self.pos_offset matches Some(t) ==> seg_start_offset + t.1 <= u32::MAX,
            self.neg_offset matches Some(t) ==> seg_end_offset + t.1 <= u32::MAX,
        ensures
            ({
                let front = self.spec_front(path@, seg_start_offset);
                let rear = self.spec_rear(path@, seg_end_offset);
                match r {
                    Ok(l) => {
                        &&& front matches Some(f)
                        &&& rear matches Some(b)
                        &&& front matches Some(f) && rear matches Some(b) ==> {
                            &&& f.0 + b.0 <= path@.len()
                            &&& l.edges@ == path@.subrange(f.0, path@.len() - b.0)
                            &&& l.p_off == (match self.pos_offset {
                                Some(t) => Some(((f.1) as u32, (f.1 + t.1 - t.0) as u32)),
                                None => if f.1 > 0 {
                                    Some((f.1 as u32, f.1 as u32))
                                } else {
                                    None
                                },
                            })
                            &&& l.n_off == (match self.neg_offset {
                                Some(t) => Some(((b.1) as u32, (b.1 + t.1 - t.0) as u32)),
                                None => if b.1 > 0 {
                                    Some((b.1 as u32, b.1 as u32))
                                } else {
                                    None
                                },
                            })
                        }
                    },
                    Err(e) => {
                        &&& (front is None || rear is None || (front matches Some(f) && rear
                            matches Some(b) && f.0 + b.0 > path@.len()))
                        &&& (front is None ==> e == OpenLrErr::PostiveOffsetTooLong)
                        &&& (front is Some && rear is None ==> e == OpenLrErr::NegativeOffsetTooLong)
                        &&& (front is Some && rear is Some ==> e == OpenLrErr::PostiveOffsetTooLong)
                    },
                }
            }),
    {
        let len = path.len();
        let mut start_index: usize = 0;
        let mut start_offset: u32 = seg_start_offset + (match self.pos_offset {
            Some(t) => t.0,
            None => 0,
        });
        if start_offset > 0 {
            match trim(&path, false, start_offset) {
                Some((index, o)) => {
                    start_index = index;
                    start_offset = o;
                },
                None => {
                    return Err(OpenLrErr::PostiveOffsetTooLong);
                },
            }
        }

        let mut rear_count: usize = 0;
        let mut end_offset: u32 = seg_end_offset + (match self.neg_offset {
            Some(t) => t.0,
            None => 0,
        });
        if end_offset > 0 {
            match trim(&path, true, end_offset) {
                Some((index, o)) => {
                    rear_count = index;
                    end_offset = o;
                },
                None => {
                    return Err(OpenLrErr::NegativeOffsetTooLong);
                },
            }
        }

        proof {
            let front = self.spec_front(path@, seg_start_offset);
            let rear = self.spec_rear(path@, seg_end_offset);
            assert(front matches Some(f) && f.0 == start_index && f.1 == start_offset);
            assert(rear matches Some(b) && b.0 == rear_count && b.1 == end_offset);
            assert(rear_count <= len);
        }
        if start_index > len - rear_count {
            return Err(OpenLrErr::PostiveOffsetTooLong);
        }

        let ghost orig_path = path@;
        let mut edges = path;
        let mut dropped: usize = 0;
        while dropped < start_index
            invariant
                dropped <= start_index,
                start_index <= orig_path.len(),
                edges@ == orig_path.subrange(dropped as int, orig_path.len() as int),
            decreases start_index - dropped,
        {
            let ghost before = edges@;
            edges.remove(0);
            proof {
                assert(edges@ =~= orig_path.subrange(dropped + 1, orig_path.len() as int));
            }
            dropped = dropped + 1;
        }
        let keep = len - rear_count - start_index;
        edges.truncate(keep);
        proof {
            assert(edges@ =~= orig_path.subrange(
                start_index as int,
                orig_path.len() - rear_count,
            ));
        }

        let p_off: Option<(u32, u32)> = match self.pos_offset {
            Some(t) => Some((start_offset, start_offset + (t.1 - t.0))),
            None => if start_offset > 0 {
                Some((start_offset, start_offset))
            } else {
                None
            },
        };
        let n_off: Option<(u32, u32)> = match self.neg_offset {
            Some(t) => Some((end_offset, end_offset + (t.1 - t.0))),
            None => if end_offset > 0 {
                Some((end_offset, end_offset))
            } else {
                None
            },
        };

        Ok(LineLocation { edges, p_off, n_off })
    }
}

impl LineLocationReference {
    /// Resolves this reference against the map: ranks candidates for
    /// every point, connects them into one path, and trims the path by
    /// the requested offsets.
    pub fn decode<M: MapServer>(&self, map_server: &M, context: &mut RequestContext) -> (r: Result<
        Location,
        OpenLrErr,
    >)
        requires
            self.wf(),
            old(context).params.wf(),
        ensures
            final(context).params == old(context).params,
            final(context).spec_log_level() == old(context).spec_log_level(),
            r matches Ok(loc) ==> loc is Line,
    {
        match find_route_across_lrps(map_server, &self.lrps, context) {
            Ok((lp, seg_start, seg_end)) => {
                match self.pos_offset {
                    Some(t) => {
                        if seg_start > u32::MAX - t.1 {
                            return Err(
                                OpenLrErr::ImplementationError(
                                    String::from_str("front offset exceeds the meter range"),
                                ),
                            );
                        }
                    },
                    None => {},
                }
                match self.neg_offset {
                    Some(t) => {
                        if seg_end > u32::MAX - t.1 {
                            return Err(
                                OpenLrErr::ImplementationError(
                                    String::from_str("rear offset exceeds the meter range"),
                                ),
                            );
                        }
                    },
                    None => {},
                }
                match self.build_location(lp, seg_start, seg_end) {
                    Ok(l) => Ok(Location::Line(l)),
                    Err(e) => Err(e),
                }
            },
            Err(e) => Err(e),
        }
    }
}

/// The decode result for a line reference: the connected, deduplicated
/// edge path, and the resolved offset ranges into its first and last
/// edge.
#[derive(Debug)]
pub struct LineLocation {
    pub edges: Vec<Edge>,
    pub p_off: Option<(u32, u32)>,
    pub n_off: Option<(u32, u32)>,
}

} // verus!
