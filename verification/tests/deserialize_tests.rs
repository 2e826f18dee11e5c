use std::cell::RefCell;

use openlr::decoding_parameters::DecodingParameters;
use openlr::edge::{Edge, GeoPoint};
use openlr::errors::OpenLrErr;
use openlr::fow::FOW;
use openlr::frc::FRC;
use openlr::location::Location;
use openlr::location_reference::LocationReference;
use openlr::location_type::LocationType;
use openlr::log::LogLevel;
use openlr::map::{MapServer, NearbyEdge, NextEdge};

/// A table-driven map: fixed answers for the one batched nearby query
/// and for each successor query, with a per-key query counter.
struct TableMap {
    nearby: Vec<Vec<NearbyEdge>>,
    next: Vec<((i64, i64), Vec<NextEdge>)>,
    next_counts: RefCell<Vec<(i64, i64, u32)>>,
}

impl TableMap {
    fn next_count(&self, id: i64, node: i64) -> u32 {
        for e in self.next_counts.borrow().iter() {
            if e.0 == id && e.1 == node {
                return e.2;
            }
        }
        0
    }
}

impl MapServer for TableMap {
    fn get_nearby_edges(
        &self,
        _points: &Vec<GeoPoint>,
        _radius: u32,
        _bearing_distance: u32,
    ) -> Result<Vec<Vec<NearbyEdge>>, OpenLrErr> {
        Ok(self.nearby.clone())
    }

    fn get_next_edges(
        &self,
        id: i64,
        end_node: i64,
        _target: &GeoPoint,
    ) -> Result<Vec<NextEdge>, OpenLrErr> {
        {
            let mut counts = self.next_counts.borrow_mut();
            let mut found = false;
            for e in counts.iter_mut() {
                if e.0 == id && e.1 == end_node {
                    e.2 += 1;
                    found = true;
                }
            }
            if !found {
                counts.push((id, end_node, 1));
            }
        }
        for (k, v) in self.next.iter() {
            if k.0 == id && k.1 == end_node {
                return Ok(v.clone());
            }
        }
        Ok(Vec::new())
    }
}

fn mk_edge(id: i64, frc: FRC, len: u32, start_node: i64, end_node: i64) -> Edge {
    Edge::new(
        id,
        String::new(),
        FOW::SingleCarriageway,
        frc,
        len,
        start_node,
        end_node,
        vec![GeoPoint { lon: 0, lat: 0 }, GeoPoint { lon: 1, lat: 1 }],
    )
}

fn near(edge: Edge, distance_m: u32, along_m: u32, fwd: u32, rev: u32) -> NearbyEdge {
    NearbyEdge { edge, distance_m, along_m, bearing_start_cdeg: fwd, bearing_end_cdeg: rev }
}

fn nxt(edge: Edge, d: u32) -> NextEdge {
    NextEdge { edge, distance_to_target_m: d }
}

/// The two-edge map of the first decode scenario.
fn map1() -> TableMap {
    let e1 = mk_edge(8548148, FRC::FRC5, 199, 1, 2);
    let e2 = mk_edge(6882819, FRC::FRC5, 53, 2, 3);
    TableMap {
        nearby: vec![
            // near the first point: its candidate, sector 15 forward
            vec![near(e1.clone(), 1, 2, 17100, 0)],
            // near the last point: its candidate, sector 31 backward
            vec![near(e2.clone(), 0, 52, 0, 35300)],
        ],
        next: vec![((8548148, 2), vec![nxt(e2, 0)])],
        next_counts: RefCell::new(Vec::new()),
    }
}

#[test]
fn test_decode1() {
    let map = map1();
    let loc_ref = openlr::deserialize_binary("C/+zGCZJgyuvBAAh/x8rHw==").unwrap();
    let mut params = DecodingParameters::default();
    params.bearing_weight = 35;
    params.fow_weight = 20;
    params.frc_weight = 10;
    params.distance_weight = 35;
    let loc = openlr::decode(1, &loc_ref, &map, &params, LogLevel::Debug);
    println!("{:?}", loc.result);
    assert!(loc.result.is_ok());
    match loc.result {
        Ok(Location::Line(l)) => {
            assert_eq!(l.edges.len(), 2);
            assert!(l.p_off.is_none());
            assert!(l.n_off.is_none());
            assert_eq!(l.edges.get(0).unwrap().id, 8548148);
            assert_eq!(l.edges.get(1).unwrap().id, 6882819);
        }
        _ => {
            assert_eq!(1, 0);
        }
    }
}

/// The one-edge map of the second decode scenario.
fn map2() -> TableMap {
    let e = mk_edge(14183861, FRC::FRC6, 150, 1, 2);
    TableMap {
        nearby: vec![
            // sector 21 forward for the first point
            vec![near(e.clone(), 0, 2, 24000, 0)],
            // sector 7 backward for the last point
            vec![near(e.clone(), 0, 148, 0, 8400)],
        ],
        next: vec![],
        next_counts: RefCell::new(Vec::new()),
    }
}

#[test]
fn test_decode2() {
    let map = map2();
    let loc_ref = openlr::deserialize_binary("C/5kUCVBsjPVAv8f/+QzBw==").unwrap();
    let loc = openlr::decode(1, &loc_ref, &map, &DecodingParameters::default(), LogLevel::Trace);
    assert!(loc.result.is_ok());
    match loc.result {
        Ok(Location::Line(l)) => {
            assert_eq!(l.edges.len(), 1);
            assert!(l.p_off.is_none());
            assert!(l.n_off.is_none());
            assert_eq!(l.edges.get(0).unwrap().id, 14183861);
        }
        _ => {
            assert_eq!(1, 0);
        }
    }
}

/// The four-edge map of the offset decode scenario, reached over one
/// lead-in edge that the front offset trims away.
fn map4() -> TableMap {
    let x = mk_edge(7000001, FRC::FRC5, 101, 10, 11);
    let e1 = mk_edge(11384678, FRC::FRC5, 150, 11, 12);
    let e2 = mk_edge(3551999, FRC::FRC5, 120, 12, 13);
    let e3 = mk_edge(12007589, FRC::FRC5, 100, 13, 14);
    let e4 = mk_edge(13042191, FRC::FRC5, 19, 14, 15);
    TableMap {
        nearby: vec![
            // sector 31 forward for the first point
            vec![near(x.clone(), 0, 2, 35300, 0)],
            // sector 12 backward for the last point, one meter from the end
            vec![near(e4.clone(), 0, 18, 0, 14000)],
        ],
        next: vec![
            ((7000001, 11), vec![nxt(e1.clone(), 200)]),
            ((11384678, 12), vec![nxt(e2.clone(), 150)]),
            ((3551999, 13), vec![nxt(e3.clone(), 30)]),
            ((12007589, 14), vec![nxt(e4.clone(), 0)]),
        ],
        next_counts: RefCell::new(Vec::new()),
    }
}

#[test]
fn test_decode4() {
    let map = map4();
    let loc_ref = openlr::deserialize_binary("C/7VOCaEbSu/BP+5AMUrbJEQ").unwrap();
    let loc = openlr::decode(1, &loc_ref, &map, &DecodingParameters::default(), LogLevel::Debug);
    println!("{:?}", loc.result);
    assert!(loc.result.is_ok());
    match loc.result {
        Ok(Location::Line(l)) => {
            assert_eq!(l.edges.len(), 4);
            assert_eq!(l.p_off, Some((31, 64)));
            assert_eq!(l.n_off, Some((15, 19)));
            assert_eq!(l.edges.get(0).unwrap().id, 11384678);
            assert_eq!(l.edges.get(1).unwrap().id, 3551999);
            assert_eq!(l.edges.get(2).unwrap().id, 12007589);
            assert_eq!(l.edges.get(3).unwrap().id, 13042191);
        }
        _ => {
            assert_eq!(1, 0);
        }
    }
}

#[test]
fn test_both() {
    let map = map4();
    let loc = openlr::decode_binary(
        "C/7VOCaEbSu/BP+5AMUrbJEQ",
        1,
        &map,
        &DecodingParameters::default(),
        LogLevel::Debug,
    );
    println!("{:?}", loc.result);
    assert!(loc.result.is_ok());
    match loc.result {
        Ok(Location::Line(l)) => {
            assert_eq!(l.edges.len(), 4);
            assert_eq!(l.p_off, Some((31, 64)));
            assert_eq!(l.n_off, Some((15, 19)));
            assert_eq!(l.edges.get(0).unwrap().id, 11384678);
            assert_eq!(l.edges.get(1).unwrap().id, 3551999);
            assert_eq!(l.edges.get(2).unwrap().id, 12007589);
            assert_eq!(l.edges.get(3).unwrap().id, 13042191);
        }
        _ => {
            assert_eq!(1, 0);
        }
    }
}

#[test]
fn test_decode_idempotent() {
    // the same input against the same stateless map decodes to the
    // same edges and offsets, twice over
    let first = {
        let map = map4();
        openlr::decode_binary(
            "C/7VOCaEbSu/BP+5AMUrbJEQ",
            1,
            &map,
            &DecodingParameters::default(),
            LogLevel::Debug,
        )
    };
    let second = {
        let map = map4();
        openlr::decode_binary(
            "C/7VOCaEbSu/BP+5AMUrbJEQ",
            1,
            &map,
            &DecodingParameters::default(),
            LogLevel::Debug,
        )
    };
    match (first.result, second.result) {
        (Ok(Location::Line(a)), Ok(Location::Line(b))) => {
            assert_eq!(a.p_off, b.p_off);
            assert_eq!(a.n_off, b.n_off);
            assert_eq!(a.edges.len(), b.edges.len());
            for i in 0..a.edges.len() {
                assert_eq!(a.edges[i].id, b.edges[i].id);
            }
        }
        _ => {
            assert_eq!(1, 0);
        }
    }
}

#[test]
fn test_unsupported_type() {
    // 0x13 classifies as a polygon: recognized, refused, never decoded
    match openlr::deserialize_binary("Ew==") {
        Err(OpenLrErr::UnsupportedLocationTypeError(t)) => {
            assert_eq!(t, LocationType::Polygon);
        }
        _ => assert_eq!(1, 0),
    }
    // 0x23 classifies as a bare coordinate
    match openlr::deserialize_binary("Iw==") {
        Err(OpenLrErr::UnsupportedLocationTypeError(t)) => {
            assert_eq!(t, LocationType::GeoCoordinate);
        }
        _ => assert_eq!(1, 0),
    }
}

#[test]
fn test_unknown_type() {
    // an empty payload classifies as unknown
    match openlr::deserialize_binary("") {
        Err(OpenLrErr::UnknownLocationTypeError) => {}
        _ => assert_eq!(1, 0),
    }
}

#[test]
fn test_parse_failure_envelope() {
    // a parse failure comes back in the envelope with the error, zero
    // elapsed time and an empty log; the provider is never consulted
    let map = map1();
    let out = openlr::decode_binary("!!!", 9, &map, &DecodingParameters::default(), LogLevel::Trace);
    assert_eq!(out.id, 9);
    assert_eq!(out.elapsed_micros, 0);
    assert!(out.log.is_empty());
    match out.result {
        Err(OpenLrErr::Base64ParseError(srcs, _)) => assert_eq!(srcs, "!!!"),
        _ => assert_eq!(1, 0),
    }
    // an unsupported type travels the same way
    let out2 = openlr::decode_binary("Ew==", 9, &map, &DecodingParameters::default(), LogLevel::Trace);
    assert_eq!(out2.elapsed_micros, 0);
    assert!(out2.log.is_empty());
    match out2.result {
        Err(OpenLrErr::UnsupportedLocationTypeError(t)) => assert_eq!(t, LocationType::Polygon),
        _ => assert_eq!(1, 0),
    }
}

#[test]
fn test_bad_base64() {
    match openlr::deserialize_binary("!!!") {
        Err(OpenLrErr::Base64ParseError(s, _)) => {
            assert_eq!(s, "!!!");
        }
        _ => assert_eq!(1, 0),
    }
}

#[test]
fn test_invalid_length() {
    // a line-typed header with too few bytes for any line reference
    match openlr::deserialize_binary("CwsL") {
        Err(OpenLrErr::InvalidBinaryStringLength(n)) => {
            assert_eq!(n, 3);
        }
        _ => assert_eq!(1, 0),
    }
}

#[test]
fn test_deserialize_fields() {
    // golden values of the wire decoder on the offset scenario's code
    match openlr::deserialize_binary("C/7VOCaEbSu/BP+5AMUrbJEQ") {
        Ok(LocationReference::Line(l)) => {
            assert_eq!(l.lrps.len(), 2);
            assert_eq!(l.lrps[0].longitude, -21512109375);
            assert_eq!(l.lrps[0].latitude, 709950515625);
            assert_eq!(l.lrps[0].fow, FOW::SingleCarriageway);
            assert_eq!(l.lrps[0].frc, FRC::FRC5);
            assert_eq!(l.lrps[0].bearing_sector, 31);
            assert_eq!(l.lrps[0].dnp, Some((234, 292)));
            assert_eq!(l.lrps[1].bearing_sector, 12);
            assert!(l.lrps[1].is_last);
            assert_eq!(l.pos_offset, Some((132, 165)));
            assert_eq!(l.neg_offset, Some((14, 18)));
        }
        _ => assert_eq!(1, 0),
    }
}

/// A three-point reference whose best combination fails on its second
/// pair: the wire bytes are built by hand.
fn three_point_code() -> Vec<u8> {
    vec![
        0x0b, // header
        0, 1, 0, // absolute longitude
        0, 1, 0, // absolute latitude
        0x2b, 0xa0, 0x04, // first point: class 5, form 3, lowest 5, sector 0
        0, 0, 0, 0, // second point: no movement
        0x2b, 0xa0, 0x04,
        0, 0, 0, 0, // last point: no movement
        0x2b, 0x00,
    ]
}

fn map_cache() -> TableMap {
    let a = mk_edge(101, FRC::FRC5, 10, 1, 2);
    let a2 = mk_edge(102, FRC::FRC5, 10, 1, 2);
    let b = mk_edge(201, FRC::FRC5, 10, 2, 3);
    let c = mk_edge(301, FRC::FRC5, 10, 3, 4);
    TableMap {
        nearby: vec![
            vec![near(a.clone(), 0, 0, 500, 500), near(a2.clone(), 5, 0, 500, 500)],
            vec![near(b.clone(), 0, 0, 500, 500)],
            vec![near(c.clone(), 0, 0, 500, 500)],
        ],
        next: vec![
            ((101, 2), vec![nxt(b.clone(), 0)]),
            ((102, 2), vec![nxt(b.clone(), 0)]),
            // nothing leaves the middle candidate: its pair can never connect
        ],
        next_counts: RefCell::new(Vec::new()),
    }
}

#[test]
fn test_subpath_cache_reuse() {
    // the first combination connects its first pair and fails on the
    // second; the second combination must reuse the cached failure
    // without searching that pair again
    let map = map_cache();
    let bytes = three_point_code();
    let code = base64::encode(&bytes);
    let loc = openlr::decode_binary(
        &code,
        7,
        &map,
        &DecodingParameters::default(),
        LogLevel::Debug,
    );
    assert!(loc.result.is_err());
    match loc.result {
        Err(OpenLrErr::NoPathFound) => {}
        other => {
            println!("{:?}", other);
            assert_eq!(1, 0);
        }
    }
    // the failing pair was searched exactly once, although two
    // combinations contained it
    assert_eq!(map.next_count(201, 3), 1);
    // each first-point candidate's own pair was searched once
    assert_eq!(map.next_count(101, 2), 1);
    assert_eq!(map.next_count(102, 2), 1);
}

