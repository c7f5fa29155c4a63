use workpool::board;
use workpool::device;
use workpool::servo::angle_to_ticks;

#[test]
fn device_test_add() {
    assert_eq!(device::add(2, 3), 5);
}

#[test]
fn lib_test_add() {
    assert_eq!(board::add(2, 3), 5);
}

#[test]
fn servo_calibration_endpoints() {
    assert_eq!(angle_to_ticks(0), 1600);
    assert_eq!(angle_to_ticks(90), 3000);
    assert_eq!(angle_to_ticks(180), 4400);
}

#[test]
fn servo_out_of_range_angle_stays_in_ticks() {
    assert_eq!(angle_to_ticks(255), 5566);
}
