use openlr::common::{
    calculate_circular_delta, calculate_offset, distance_to_next_lrp, int2bearing, int2deg,
};

#[test]
fn test_calc_circular_delta() {
    assert_eq!(calculate_circular_delta(360, 359, 32), 1);
    assert_eq!(calculate_circular_delta(359, 360, 32), 1);
    assert_eq!(calculate_circular_delta(359, 359, 361), 0);
    assert_eq!(calculate_circular_delta(359, 359, 360), 0);
    assert_eq!(calculate_circular_delta(359, 0, 360), 1);
    assert_eq!(calculate_circular_delta(0, 359, 360), 1);
    assert_eq!(calculate_circular_delta(359, 1, 360), 2);
    assert_eq!(calculate_circular_delta(1, 359, 360), 2);
    assert_eq!(calculate_circular_delta(0, 180, 360), 180);
    assert_eq!(calculate_circular_delta(180, 0, 360), 180);
    assert_eq!(calculate_circular_delta(270, 90, 360), 180);
    assert_eq!(calculate_circular_delta(90, 270, 360), 180);

    assert_eq!(calculate_circular_delta(32, 31, 32), 1);
    assert_eq!(calculate_circular_delta(31, 32, 32), 1);
    assert_eq!(calculate_circular_delta(31, 31, 33), 0);
    assert_eq!(calculate_circular_delta(31, 31, 32), 0);
    assert_eq!(calculate_circular_delta(31, 0, 32), 1);
    assert_eq!(calculate_circular_delta(0, 31, 32), 1);
    assert_eq!(calculate_circular_delta(31, 1, 32), 2);
    assert_eq!(calculate_circular_delta(1, 31, 32), 2);
    assert_eq!(calculate_circular_delta(0, 16, 32), 16);
    assert_eq!(calculate_circular_delta(16, 0, 32), 16);
    assert_eq!(calculate_circular_delta(24, 8, 32), 16);
    assert_eq!(calculate_circular_delta(8, 24, 32), 16);
}

#[test]
fn test_int2deg_golden() {
    // 0xf1cfff reads as 15_847_423, above 2^23, so it wraps to
    // -929_793; the decoded value is (-929_793 + 1/2) * 360 / 2^24
    // degrees, exactly -261_504_140_625 fixed-point units.
    let v = int2deg(0xf1, 0xcf, 0xff);
    assert_eq!(v, -929_793i64 * 281_250 + 140_625);
    assert_eq!(v, -261_504_140_625);
    // decoding is deterministic and pure
    assert_eq!(v, int2deg(0xf1, 0xcf, 0xff));
    // zero encodes the origin
    assert_eq!(int2deg(0, 0, 0), 0);
}

#[test]
fn test_distance_to_next_lrp_scale() {
    assert_eq!(distance_to_next_lrp(0), (0, 58));
    assert_eq!(distance_to_next_lrp(1), (58, 117));
    assert_eq!(distance_to_next_lrp(4), (234, 292));
    assert_eq!(distance_to_next_lrp(255), (14941, 15000));
}

#[test]
fn test_int2bearing_sectors() {
    assert_eq!(int2bearing(0), (0, 1125));
    assert_eq!(int2bearing(15), (16875, 18000));
    assert_eq!(int2bearing(31), (34875, 36000));
}

#[test]
fn test_calculate_offset_scaling() {
    assert_eq!(calculate_offset(145, (234, 292)), (132, 165));
    assert_eq!(calculate_offset(16, (234, 292)), (14, 18));
    assert_eq!(calculate_offset(0, (234, 292)), (0, 0));
    assert_eq!(calculate_offset(255, (0, 0)), (0, 0));
}
