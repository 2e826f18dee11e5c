use openlr::location_type::LocationType;

#[test]
fn test_line() {
    let v = vec![11u8];
    match LocationType::from(&v) {
        LocationType::Line => assert!(true),
        _ => assert!(false),
    }
}

#[test]
fn test_geocoordinate() {
    let v = vec![0x23u8];
    match LocationType::from(&v) {
        LocationType::GeoCoordinate => assert!(true),
        _ => assert!(false),
    }
}

#[test]
fn test_point_along_line() {
    let v0 = vec![0x2bu8, 0, 0, 0, 0, 0, 0, 0, 0, 0, 0, 0, 0, 0, 0, 0];
    match LocationType::from(&v0) {
        LocationType::PointAlongLine => assert!(true),
        _ => assert!(false),
    }
    let v1 = vec![0x2bu8, 0, 0, 0, 0, 0, 0, 0, 0, 0, 0, 0, 0, 0, 0, 0, 0];
    match LocationType::from(&v1) {
        LocationType::PointAlongLine => assert!(true),
        _ => assert!(false),
    }
    let v2 = vec![0x2bu8, 0, 0, 0, 0, 0, 0, 0, 0, 0, 0, 0, 0, 0, 0, 0, 0, 0];
    match LocationType::from(&v2) {
        LocationType::Unknown => assert!(true),
        _ => assert!(false),
    }
}

#[test]
fn test_poi() {
    let v0 = vec![0x2bu8, 0, 0, 0, 0, 0, 0, 0, 0, 0, 0, 0, 0, 0, 0, 0, 0, 0, 0, 0];
    match LocationType::from(&v0) {
        LocationType::PoiWithAccessPoint => assert!(true),
        _ => assert!(false),
    }
    let v1 = vec![0x2bu8, 0, 0, 0, 0, 0, 0, 0, 0, 0, 0, 0, 0, 0, 0, 0, 0, 0, 0, 0, 0];
    match LocationType::from(&v1) {
        LocationType::PoiWithAccessPoint => assert!(true),
        _ => assert!(false),
    }
    let v2 = vec![0x2bu8, 0, 0, 0, 0, 0, 0, 0, 0, 0, 0, 0, 0, 0, 0, 0, 0, 0, 0, 0, 0, 0];
    match LocationType::from(&v2) {
        LocationType::Unknown => assert!(true),
        _ => assert!(false),
    }
}

#[test]
fn test_circle() {
    let v0 = vec![0x3u8];
    match LocationType::from(&v0) {
        LocationType::Circle => assert!(true),
        _ => assert!(false),
    }
}

#[test]
fn test_rest() {
    let v0 = vec![0x43u8, 0, 0, 0, 0, 0, 0, 0, 0, 0, 0];
    match LocationType::from(&v0) {
        LocationType::Rectangle => assert!(true),
        _ => assert!(false),
    }
    let v1 = vec![0x43u8, 0, 0, 0, 0, 0, 0, 0, 0, 0, 0, 0];
    match LocationType::from(&v1) {
        LocationType::Unknown => assert!(true),
        _ => assert!(false),
    }
    let v2 = vec![0x43u8, 0, 0, 0, 0, 0, 0, 0, 0, 0, 0, 0, 0];
    match LocationType::from(&v2) {
        LocationType::Rectangle => assert!(true),
        _ => assert!(false),
    }
}

#[test]
fn test_grid() {
    let v0 = vec![0x43u8, 0, 0, 0, 0, 0, 0, 0, 0, 0, 0, 0, 0, 0, 0];
    match LocationType::from(&v0) {
        LocationType::Grid => assert!(true),
        _ => assert!(false),
    }
    let v1 = vec![0x43u8, 0, 0, 0, 0, 0, 0, 0, 0, 0, 0, 0, 0, 0, 0, 0];
    match LocationType::from(&v1) {
        LocationType::Unknown => assert!(true),
        _ => assert!(false),
    }
    let v2 = vec![0x43u8, 0, 0, 0, 0, 0, 0, 0, 0, 0, 0, 0, 0, 0, 0, 0, 0];
    match LocationType::from(&v2) {
        LocationType::Grid => assert!(true),
        _ => assert!(false),
    }
}

#[test]
fn test_poly() {
    let v0 = vec![0x13u8];
    match LocationType::from(&v0) {
        LocationType::Polygon => assert!(true),
        _ => assert!(false),
    }
}

#[test]
fn test_closed_line() {
    let v0 = vec![0x5bu8];
    match LocationType::from(&v0) {
        LocationType::ClosedLine => assert!(true),
        _ => assert!(false),
    }
}
