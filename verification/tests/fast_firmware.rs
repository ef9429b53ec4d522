use power_msmt::fast_firmware::{classify_fast_datagram, start_command, FastDatagram, FastFirmwareData};

fn packet() -> Vec<u8> {
    let mut p = Vec::new();
    for i in 0u16..64 {
        p.extend_from_slice(&i.to_le_bytes());
        p.extend_from_slice(&(1000 + 7 * i).to_le_bytes());
    }
    p
}

#[test]
fn a_datagram_holds_64_samples() {
    let mut d = FastFirmwareData::new();
    d.append_packet(&packet());
    assert_eq!(d.row_count(), 64);
    d.append_packet(&packet());
    assert_eq!(d.row_count(), 128);
    let (i, c) = d.finish_batch();
    let i = i.array.values().to_vec();
    let c = c.array.values().to_vec();
    assert_eq!(i[0], 0);
    assert_eq!(i[63], 63);
    assert_eq!(i[64], 0);
    assert_eq!(c[1], 1007);
    assert_eq!(c[127], 1000 + 7 * 63);
    assert_eq!(d.row_count(), 0);
}

#[test]
fn samples_are_little_endian() {
    let mut p = vec![0u8; 256];
    p[0] = 0x34;
    p[1] = 0x12;
    p[2] = 0xff;
    p[3] = 0xff;
    let mut d = FastFirmwareData::new();
    d.append_packet(&p);
    let (i, c) = d.finish_batch();
    assert_eq!(i.array.values()[0], 0x1234);
    assert_eq!(c.array.values()[0], 0xffff);
}

#[test]
fn datagram_kinds() {
    assert_eq!(classify_fast_datagram(&packet()), FastDatagram::Samples);
    assert_eq!(classify_fast_datagram(b"Finished Measurement!\n"), FastDatagram::MeasurementFinished);
    assert_eq!(classify_fast_datagram(b"Finished Measurement!"), FastDatagram::InvalidLength);
    assert_eq!(classify_fast_datagram(&[0u8; 255]), FastDatagram::InvalidLength);
    assert_eq!(classify_fast_datagram(b""), FastDatagram::InvalidLength);
}

#[test]
fn start_request() {
    assert_eq!(start_command(2, 20_000_000, 2000), "go 2 20000000 2000\n");
    assert_eq!(start_command(0, 0, 0), "go 0 0 0\n");
    assert_eq!(start_command(255, u128::MAX, u16::MAX), format!("go 255 {} 65535\n", u128::MAX));
}
