use openlr::decoding_parameters::DecodingParameters;
use openlr::edge::{Edge, GeoPoint};
use openlr::fow::FOW;
use openlr::frc::FRC;
use openlr::location_reference_point::LocationReferencePoint;

#[test]
fn test_clone() {}

#[test]
fn test_borrow() {
    struct Holder<'a> {
        v: &'a Vec<f64>,
    }

    impl<'a> Holder<'a> {
        fn get(&self) -> &f64 {
            &self.v[0]
        }
    }

    let v = vec![0.0f64, 1.0f64];
    let h = Holder { v: &v };
    println!("{:?}", h.get())
}

#[test]
fn it_works() {
    let mp: DecodingParameters = DecodingParameters::default();
    assert_eq!(mp.absolute_snapping_threshold, 10);
}

#[test]
fn test_new_from_byte_array() {
    // 1.999 and 2.999 degrees in fixed-point coordinate units
    let lon: i64 = (1.999f64 * 13_107_200_000.0) as i64;
    let lat: i64 = (2.999f64 * 13_107_200_000.0) as i64;
    let ba: &[u8] = &[0xf1, 0xcf, 0xff];
    let lrp = LocationReferencePoint::new_from_byte_array(lon, lat, ba, 0, false);
    assert_eq!(lrp.longitude, lon);
    assert_eq!(lrp.latitude, lat);
    assert_eq!(lrp.frc, FRC::FRC6);
    assert_eq!(lrp.fow, FOW::Motorway);
    // sector 15: 168.75 to 180 degrees, in centidegrees
    assert_eq!(lrp.bearing, (16875, 18000));
    assert_eq!(lrp.dnp, Some((14941, 15000)));
    assert_eq!(lrp.lowest_frc_to_next_point, Some(FRC::FRC6));

    let ba: &[u8] = &[0xf1, 0xcf];
    let lrp = LocationReferencePoint::new_from_byte_array(lon, lat, ba, 0, true);
    assert_eq!(lrp.longitude, lon);
    assert_eq!(lrp.latitude, lat);
    assert_eq!(lrp.frc, FRC::FRC6);
    assert_eq!(lrp.fow, FOW::Motorway);
    assert_eq!(lrp.bearing, (16875, 18000));
    assert_eq!(lrp.dnp, None);
    assert_eq!(lrp.lowest_frc_to_next_point, None);
}

#[test]
fn test_reverse_reverse() {
    let geom = vec![
        GeoPoint { lon: -5537005568, lat: 705708556288 },
        GeoPoint { lon: -5536612352, lat: 705706983424 },
        GeoPoint { lon: -5536481280, lat: 705705934848 },
        GeoPoint { lon: -5535825920, lat: 705693614080 },
        GeoPoint { lon: -5533990912, lat: 705685356544 },
    ];
    let e1 = Edge::new(
        8548148,
        "1152964797973692416".to_string(),
        FOW::SingleCarriageway,
        FRC::FRC5,
        199,
        1,
        2,
        geom,
    );

    assert_eq!(e1.id, 8548148);
    assert_eq!(e1.meta, "1152964797973692416");
    assert_eq!(e1.len, 199);
    assert_eq!(e1.geom[0].lon, -5537005568);
    assert_eq!(e1.geom[0].lat, 705708556288);

    // reversing twice restores id, endpoints and geometry
    let r1 = Edge::new_from_reverse(&e1);
    assert_eq!(r1.id, -8548148);
    assert_eq!(r1.start_node, 2);
    assert_eq!(r1.end_node, 1);
    assert_eq!(r1.geom[0].lon, -5533990912);
    let r2 = Edge::new_from_reverse(&r1);
    assert_eq!(r2.id, e1.id);
    assert_eq!(r2.meta, e1.meta);
    assert_eq!(r2.len, e1.len);
    assert_eq!(r2.start_node, e1.start_node);
    assert_eq!(r2.end_node, e1.end_node);
    assert_eq!(r2.geom.len(), e1.geom.len());
    for i in 0..e1.geom.len() {
        assert_eq!(r2.geom[i], e1.geom[i]);
    }
}
