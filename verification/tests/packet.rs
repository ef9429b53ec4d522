use power_msmt::packet::{
    batch_is_full, first_line_of, is_complete_datagram, network_step, parse_u32, parse_u64,
    split_fields_of, NetworkAction, NetworkEvent, NumberError,
};

#[test]
fn first_lines() {
    assert_eq!(first_line_of(b"12,3\r\n"), Some(&b"12,3"[..]));
    assert_eq!(first_line_of(b"12,3\nrest\n"), Some(&b"12,3"[..]));
    assert_eq!(first_line_of(b"no end"), Some(&b"no end"[..]));
    assert_eq!(first_line_of(b"\n"), Some(&b""[..]));
    assert_eq!(first_line_of(b"a\r"), Some(&b"a\r"[..]));
    assert_eq!(first_line_of(b""), None);
}

#[test]
fn fields_are_split_at_most_n_times() {
    assert_eq!(split_fields_of(b"1,2,3,4", 3), vec![&b"1"[..], &b"2"[..], &b"3,4"[..]]);
    assert_eq!(split_fields_of(b"1,2", 3), vec![&b"1"[..], &b"2"[..]]);
    assert_eq!(split_fields_of(b"", 2), vec![&b""[..]]);
    assert_eq!(split_fields_of(b",", 2), vec![&b""[..], &b""[..]]);
    assert_eq!(split_fields_of(b"a,b", 1), vec![&b"a,b"[..]]);
}

#[test]
fn unsigned_numbers() {
    assert_eq!(parse_u64(b"0"), Ok(0));
    assert_eq!(parse_u64(b"+7"), Ok(7));
    assert_eq!(parse_u64(b"007"), Ok(7));
    assert_eq!(parse_u64(b"18446744073709551615"), Ok(u64::MAX));
    assert_eq!(parse_u32(b"4294967295"), Ok(u32::MAX));
    assert_eq!(parse_u32(b"123456"), Ok(123456));
}

#[test]
fn unsigned_number_errors() {
    assert_eq!(parse_u64(b""), Err(NumberError::Empty));
    assert_eq!(parse_u64(b"+"), Err(NumberError::InvalidDigit));
    assert_eq!(parse_u64(b"-"), Err(NumberError::InvalidDigit));
    assert_eq!(parse_u64(b"-5"), Err(NumberError::InvalidDigit));
    assert_eq!(parse_u64(b" 5"), Err(NumberError::InvalidDigit));
    assert_eq!(parse_u64(b"12a"), Err(NumberError::InvalidDigit));
    assert_eq!(parse_u64(b"18446744073709551616"), Err(NumberError::PosOverflow));
    assert_eq!(parse_u64(b"99999999999999999999x"), Err(NumberError::PosOverflow));
    assert_eq!(parse_u32(b"4294967296"), Err(NumberError::PosOverflow));
}

#[test]
fn numbers_agree_with_std() {
    for text in ["0", "+1", "-1", "", "+", "4294967295", "4294967296", "12x", "x12", "99999999999"] {
        let ours = parse_u32(text.as_bytes());
        let theirs = text.parse::<u32>();
        assert_eq!(ours.is_ok(), theirs.is_ok(), "{text}");
        if let (Ok(a), Ok(b)) = (ours, theirs) {
            assert_eq!(a, b);
        }
    }
}

#[test]
fn datagram_completeness() {
    assert!(is_complete_datagram(b"1,2,3\n"));
    assert!(!is_complete_datagram(b"1,2,3"));
    assert!(!is_complete_datagram(b""));
}

#[test]
fn batch_threshold() {
    assert!(!batch_is_full(999_999));
    assert!(batch_is_full(1_000_000));
    assert!(batch_is_full(1_000_001));
}

#[test]
fn receive_loop_steps() {
    assert_eq!(network_step(NetworkEvent::DatagramReceived, b"1,2,3\n", 0), NetworkAction::ParsePacket);
    assert_eq!(network_step(NetworkEvent::DatagramReceived, b"1,2,3", 0), NetworkAction::Continue);
    assert_eq!(network_step(NetworkEvent::DatagramReceived, b"", 0), NetworkAction::Continue);
    assert_eq!(network_step(NetworkEvent::ReceiveTimedOut, b"", 5), NetworkAction::Continue);
    assert_eq!(network_step(NetworkEvent::ReceiveFailed, b"", 5), NetworkAction::Fail);
    assert_eq!(network_step(NetworkEvent::PacketParsed, b"", 999_999), NetworkAction::Continue);
    assert_eq!(network_step(NetworkEvent::PacketParsed, b"", 1_000_000), NetworkAction::WriteBatch);
    assert_eq!(network_step(NetworkEvent::Stopped, b"", 1), NetworkAction::WriteBatch);
    assert_eq!(network_step(NetworkEvent::Stopped, b"", 0), NetworkAction::Finish);
}
