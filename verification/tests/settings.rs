use power_msmt::settings::{MsmtEnvironment, OscilloscopeMsmtType, OscilloscopeProbeFactor};

#[test]
fn msmt_type_names_ignore_case() {
    assert_eq!(OscilloscopeMsmtType::from_str("UCurrent"), Ok(OscilloscopeMsmtType::UCurrent));
    assert_eq!(OscilloscopeMsmtType::from_str("ucurrent"), Ok(OscilloscopeMsmtType::UCurrent));
    assert_eq!(OscilloscopeMsmtType::from_str("CURRENTRANGER"), Ok(OscilloscopeMsmtType::CurrentRanger));
}

#[test]
fn ina225_types_are_not_options() {
    assert_eq!(
        OscilloscopeMsmtType::from_str("Ina225"),
        Err("Unknown OscilloscopeMsmtType: Ina225".to_string())
    );
    assert_eq!(
        OscilloscopeMsmtType::from_str(&OscilloscopeMsmtType::INA225NVGPU.to_string()),
        Err("Unknown OscilloscopeMsmtType: INA225NVGPU".to_string())
    );
}

#[test]
fn msmt_type_unknown_name() {
    assert_eq!(
        OscilloscopeMsmtType::from_str("ina226"),
        Err("Unknown OscilloscopeMsmtType: ina226".to_string())
    );
    assert_eq!(
        OscilloscopeMsmtType::from_str(" ucurrent"),
        Err("Unknown OscilloscopeMsmtType:  ucurrent".to_string())
    );
    assert_eq!(OscilloscopeMsmtType::from_str(""), Err("Unknown OscilloscopeMsmtType: ".to_string()));
}

#[test]
fn msmt_type_round_trip() {
    for t in [OscilloscopeMsmtType::UCurrent, OscilloscopeMsmtType::CurrentRanger] {
        assert_eq!(OscilloscopeMsmtType::from_str(&t.to_string()), Ok(t));
    }
    assert_eq!(OscilloscopeMsmtType::INA225NVGPU.to_string(), "INA225NVGPU");
    assert_eq!(OscilloscopeMsmtType::CurrentRanger.to_string(), "CurrentRanger");
}

#[test]
fn environment_names() {
    assert_eq!(MsmtEnvironment::from_str("M.2"), Ok(MsmtEnvironment::M2));
    assert_eq!(MsmtEnvironment::from_str("m.2"), Ok(MsmtEnvironment::M2));
    assert_eq!(MsmtEnvironment::from_str("JETSON"), Ok(MsmtEnvironment::Jetson));
    assert_eq!(MsmtEnvironment::from_str("triggerChannel"), Ok(MsmtEnvironment::TriggerChannel));
    assert_eq!(MsmtEnvironment::from_str("NvidiaGPU"), Ok(MsmtEnvironment::NvidiaGPU));
    assert_eq!(MsmtEnvironment::from_str("m2"), Err("Unknown MsmtEnvironment: m2".to_string()));
    assert_eq!(MsmtEnvironment::M2.to_string(), "M.2");
}

#[test]
fn environment_round_trip() {
    for e in [
        MsmtEnvironment::Jetson,
        MsmtEnvironment::M2,
        MsmtEnvironment::TriggerChannel,
        MsmtEnvironment::NvidiaGPU,
    ] {
        assert_eq!(MsmtEnvironment::from_str(&e.to_string()), Ok(e));
    }
}

#[test]
fn probe_factor_names_and_multipliers() {
    assert_eq!(OscilloscopeProbeFactor::from_str("x1"), Ok(OscilloscopeProbeFactor::X1));
    assert_eq!(OscilloscopeProbeFactor::from_str("X10"), Ok(OscilloscopeProbeFactor::X10));
    assert_eq!(
        OscilloscopeProbeFactor::from_str("x100"),
        Err("Unknown OscilloscopeProbeFactor: x100".to_string())
    );
    assert_eq!(OscilloscopeProbeFactor::X1.multiplier(), 1);
    assert_eq!(OscilloscopeProbeFactor::X10.multiplier(), 10);
    for f in [OscilloscopeProbeFactor::X1, OscilloscopeProbeFactor::X10] {
        assert_eq!(OscilloscopeProbeFactor::from_str(&f.to_string()), Ok(f));
    }
}
