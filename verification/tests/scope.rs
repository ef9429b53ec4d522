use power_msmt::scope::{
    instrument_candidates, osc_measurements, setup_scope, OscMeasurement, ScopeStep, READ_AMOUNT,
};
use power_msmt::text::decimal_string;

#[test]
fn scope_setup_script() {
    let steps = setup_scope(5_000_000);
    assert_eq!(
        steps,
        vec![
            ScopeStep::Send("SELECT:CH1 ON; CH2 OFF; CH3 OFF; CH4 OFF".to_string()),
            ScopeStep::Query("SELECT:CH1?;CH2?;CH3?;CH4?".to_string()),
            ScopeStep::Send(
                "HORIZONTAL:MODE MANUAL;:HORIZONTAL:SAMPLERATE 5000000;:HORIZONTAL:RECORDLENGTH 1000000"
                    .to_string()
            ),
            ScopeStep::Query("HORIZONTAL:SAMPLERATE?;:HORIZONTAL:RECORDLENGTH?".to_string()),
            ScopeStep::Send("ACQUIRE:STOPAFTER SEQUENCE".to_string()),
            ScopeStep::Query("ACQUIRE:STOPAFTER?".to_string()),
            ScopeStep::Send("ACQUIRE:STATE RUN".to_string()),
        ]
    );
}

#[test]
fn instruments_are_usb_ethernet_or_tcpip() {
    let names = vec![
        "ASRL1::INSTR".to_string(),
        "USB0::0x0699::0x0522::C0123::INSTR".to_string(),
        "GPIB0::1::INSTR".to_string(),
        "TCPIP0::10.0.0.5::inst0::INSTR".to_string(),
        "ETH".to_string(),
        "usb0".to_string(),
    ];
    assert_eq!(instrument_candidates(&names), vec![1, 3, 4]);
    assert_eq!(instrument_candidates(&vec![]), Vec::<usize>::new());
}

#[test]
fn curve_samples_are_spread_over_the_read() {
    let mut bytes = vec![0u8; READ_AMOUNT];
    bytes[0] = 1;
    bytes[3] = 2;
    bytes[READ_AMOUNT - 2] = 0xcd;
    bytes[READ_AMOUNT - 1] = 0xab;
    let m = osc_measurements(&bytes, 750_000);
    assert_eq!(m.len(), READ_AMOUNT / 2);
    assert_eq!(m[0], OscMeasurement { measurement_time: 0, raw_value: 1 });
    assert_eq!(m[1], OscMeasurement { measurement_time: 3, raw_value: 0x200 });
    assert_eq!(m[124_999], OscMeasurement { measurement_time: 374_997, raw_value: 0xabcd });
    let short = osc_measurements(&bytes, 249_999);
    assert!(short.iter().all(|s| s.measurement_time == 0));
    let long = osc_measurements(&bytes, u128::MAX);
    assert!(long.iter().all(|s| s.measurement_time <= u128::MAX));
}

#[test]
fn decimal_notation() {
    assert_eq!(decimal_string(0), "0");
    assert_eq!(decimal_string(9), "9");
    assert_eq!(decimal_string(10), "10");
    assert_eq!(decimal_string(1_000_000), "1000000");
    assert_eq!(decimal_string(u128::MAX), u128::MAX.to_string());
}
