use power_msmt::firmware::next_sensor_update;

#[test]
fn only_new_sensor_updates_are_recorded() {
    assert_eq!(next_sensor_update(0, 0), None);
    assert_eq!(next_sensor_update(0, 1700), Some(1700));
    assert_eq!(next_sensor_update(1700, 1700), None);
    assert_eq!(next_sensor_update(1700, 1650), Some(1650));
}
