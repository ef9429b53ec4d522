use power_msmt::jetson::{JetsonData, JetsonField, JetsonPacketError};
use power_msmt::packet::NumberError;

fn columns(d: &mut JetsonData) -> (Vec<u64>, Vec<u32>, Vec<u32>) {
    let (t, c, v) = d.finish_batch();
    (t.array.values().to_vec(), c.array.values().to_vec(), v.array.values().to_vec())
}

#[test]
fn a_reading_becomes_a_row() {
    let mut d = JetsonData::new();
    assert_eq!(d.parse_packet(b"1000,250,5000\n"), Ok(()));
    assert_eq!(d.parse_packet(b"2000,260,5001\r\n"), Ok(()));
    assert_eq!(d.row_count(), 2);
    assert_eq!(columns(&mut d), (vec![1000, 2000], vec![250, 260], vec![5000, 5001]));
    assert_eq!(d.row_count(), 0);
}

#[test]
fn final_row_repeats_the_latest_reading() {
    let mut d = JetsonData::new();
    d.parse_packet(b"10,3,4\n").unwrap();
    let _ = columns(&mut d);
    d.append_final_row(77);
    assert_eq!(columns(&mut d), (vec![77], vec![3], vec![4]));
}

#[test]
fn final_row_without_reading_is_zero() {
    let mut d = JetsonData::new();
    d.append_final_row((1u128 << 64) + 9);
    assert_eq!(columns(&mut d), (vec![9], vec![0], vec![0]));
}

#[test]
fn packet_errors() {
    let mut d = JetsonData::new();
    assert_eq!(d.parse_packet(b""), Err(JetsonPacketError::Empty));
    assert_eq!(
        d.parse_packet(b"\n"),
        Err(JetsonPacketError::Invalid(JetsonField::Timestamp, NumberError::Empty))
    );
    assert_eq!(d.row_count(), 0);
}

#[test]
fn fields_before_the_error_are_kept() {
    let mut d = JetsonData::new();
    assert_eq!(d.parse_packet(b"5\n"), Err(JetsonPacketError::Missing(JetsonField::Current)));
    assert_eq!(
        d.parse_packet(b"6,x,1\n"),
        Err(JetsonPacketError::Invalid(JetsonField::Current, NumberError::InvalidDigit))
    );
    assert_eq!(d.parse_packet(b"7,8\n"), Err(JetsonPacketError::Missing(JetsonField::Voltage)));
    assert_eq!(
        d.parse_packet(b"9,10,11,12\n"),
        Err(JetsonPacketError::Invalid(JetsonField::Voltage, NumberError::InvalidDigit))
    );
    assert_eq!(
        d.parse_packet(b"9,4294967296,1\n"),
        Err(JetsonPacketError::Invalid(JetsonField::Current, NumberError::PosOverflow))
    );
    assert_eq!(columns(&mut d), (vec![5, 6, 7, 9, 9], vec![8, 10], vec![]));
    d.append_final_row(1);
    assert_eq!(columns(&mut d), (vec![1], vec![10], vec![0]));
}
