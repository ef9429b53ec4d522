use power_msmt::settings::{MsmtEnvironment, OscilloscopeMsmtType, OscilloscopeProbeFactor};
use power_msmt::sources::{validate_sources, SourceKind, Sources, SourcesError};
use std::time::Duration;

fn jetson() -> Sources {
    Sources::Jetson { address: "10.42.0.44".to_string(), data_port: 7000, control_port: 7001 }
}

fn firmware() -> Sources {
    Sources::Firmware { address: "10.0.0.2".to_string() }
}

fn fast_firmware() -> Sources {
    Sources::FastFirmware { address: "10.0.0.2".to_string(), data_port: 9000, channel: 2, sample_rate: 2000 }
}

fn usb() -> Sources {
    Sources::UsbOscilloscope {
        sample_rate: 5_000_000,
        use_function_gen: false,
        measurement_type: OscilloscopeMsmtType::INA225,
        msmt_environment: MsmtEnvironment::Jetson,
        current_channel_probe_factor: OscilloscopeProbeFactor::X10,
        voltage_channel_probe_factor: OscilloscopeProbeFactor::X10,
    }
}

#[test]
fn kinds() {
    assert_eq!(jetson().kind(), SourceKind::Jetson);
    assert_eq!(firmware().kind(), SourceKind::Firmware);
    assert_eq!(fast_firmware().kind(), SourceKind::Firmware);
    assert_eq!(usb().kind(), SourceKind::UsbOscilloscope);
    assert_eq!(
        Sources::Oscilloscope { address: "scope".to_string(), sample_rate: 1, duration: Duration::from_secs(5) }.kind(),
        SourceKind::Oscilloscope
    );
    assert_eq!(Sources::ShellyPlug { address: "plug".to_string() }.kind(), SourceKind::ShellyPlug);
    assert_eq!(
        Sources::HailoRT { address: "h".to_string(), data_port: 1, control_port: 2 }.kind(),
        SourceKind::HailoRT
    );
    assert_eq!(
        Sources::NVGPU { address: "g".to_string(), data_port: 1, control_port: 2 }.kind(),
        SourceKind::NVGPU
    );
}

#[test]
fn distinct_sources_pass() {
    assert_eq!(validate_sources(&vec![jetson(), firmware(), usb()]), Ok(()));
    assert_eq!(validate_sources(&vec![fast_firmware()]), Ok(()));
}

#[test]
fn no_sources() {
    assert_eq!(validate_sources(&vec![]), Err(SourcesError::NoSources));
}

#[test]
fn duplicate_kind() {
    assert_eq!(validate_sources(&vec![jetson(), usb(), jetson()]), Err(SourcesError::DuplicateKind));
}

#[test]
fn both_firmware_variants_conflict() {
    assert_eq!(validate_sources(&vec![firmware(), fast_firmware()]), Err(SourcesError::DuplicateKind));
}
