//! Measurement settings chosen on the command line: the calibration of the USB
//! oscilloscope, the measured environment and the probe factors.
use vstd::prelude::*;
use crate::text::{ascii_lowercase, eq_ignore_ascii_case};

verus! {

/// Which current sensor feeds the USB oscilloscope, and thus which calibration applies.
#[derive(Clone, Copy, Debug, PartialEq, Eq, Structural)]
pub enum OscilloscopeMsmtType {
    UCurrent,
    CurrentRanger,
    INA225,
    INA225NVGPU,
}

/// The object whose power is measured.
#[derive(Clone, Copy, Debug, PartialEq, Eq, Structural)]
pub enum MsmtEnvironment {
    Jetson,
    M2,
    TriggerChannel,
    NvidiaGPU,
}

/// The attenuation factor of an oscilloscope probe.
#[derive(Clone, Copy, Debug, PartialEq, Eq, Structural)]
pub enum OscilloscopeProbeFactor {
    X1,
    X10,
}

/// The measurement type whose name, ignoring ASCII case, is `s`. The options
/// offered are UCurrent and CurrentRanger; the INA225 types are not read from a
/// name.
pub open spec fn msmt_type_named(s: Seq<char>) -> Option<OscilloscopeMsmtType> {
    let l = ascii_lowercase(s);
    if l == "ucurrent"@ {
        Some(OscilloscopeMsmtType::UCurrent)
    } else if l == "currentranger"@ {
        Some(OscilloscopeMsmtType::CurrentRanger)
    } else {
        None
    }
}

/// The name under which a measurement type is shown.
pub open spec fn msmt_type_name(t: OscilloscopeMsmtType) -> Seq<char> {
    match t {
        OscilloscopeMsmtType::UCurrent => "UCurrent"@,
        OscilloscopeMsmtType::CurrentRanger => "CurrentRanger"@,
        OscilloscopeMsmtType::INA225 => "INA225"@,
        OscilloscopeMsmtType::INA225NVGPU => "INA225NVGPU"@,
    }
}

/// The environment whose name, ignoring ASCII case, is `s`.
pub open spec fn environment_named(s: Seq<char>) -> Option<MsmtEnvironment> {
    let l = ascii_lowercase(s);
    if l == "jetson"@ {
        Some(MsmtEnvironment::Jetson)
    } else if l == "m.2"@ {
        Some(MsmtEnvironment::M2)
    } else if l == "triggerchannel"@ {
        Some(MsmtEnvironment::TriggerChannel)
    } else if l == "nvidiagpu"@ {
        Some(MsmtEnvironment::NvidiaGPU)
    } else {
        None
    }
}

/// The name under which an environment is shown.
pub open spec fn environment_name(e: MsmtEnvironment) -> Seq<char> {
    match e {
        MsmtEnvironment::Jetson => "Jetson"@,
        MsmtEnvironment::M2 => "M.2"@,
        MsmtEnvironment::TriggerChannel => "TriggerChannel"@,
        MsmtEnvironment::NvidiaGPU => "NvidiaGPU"@,
    }
}

/// The probe factor whose name, ignoring ASCII case, is `s`.
pub open spec fn probe_factor_named(s: Seq<char>) -> Option<OscilloscopeProbeFactor> {
    let l = ascii_lowercase(s);
    if l == "x1"@ {
        Some(OscilloscopeProbeFactor::X1)
    } else if l == "x10"@ {
        Some(OscilloscopeProbeFactor::X10)
    } else {
        None
    }
}

/// The name under which a probe factor is shown.
pub open spec fn probe_factor_name(f: OscilloscopeProbeFactor) -> Seq<char> {
    match f {
        OscilloscopeProbeFactor::X1 => "X1"@,
        OscilloscopeProbeFactor::X10 => "X10"@,
    }
}

/// The message that rejects an unknown name `s` of the kind `kind`.
pub open spec fn unknown_name_message(kind: Seq<char>, s: Seq<char>) -> Seq<char> {
    "Unknown "@ + kind + ": "@ + s
}

/// "Unknown {kind}: {s}".
fn unknown_name(kind: &str, s: &str) -> (m: String)
    ensures
        m@ == unknown_name_message(kind@, s@),
{
    let mut m = String::from_str("Unknown ");
    m.append(kind);
    m.append(": ");
    m.append(s);
    m
}

impl OscilloscopeMsmtType {
    /// Reads a measurement type from its name; the name's case does not matter.
    pub fn from_str(s: &str) -> (r: Result<Self, String>)
        ensures
            match r {
                Ok(t) => msmt_type_named(s@) == Some(t),
                Err(m) => msmt_type_named(s@) is None && m@ == unknown_name_message(
                    "OscilloscopeMsmtType"@,
                    s@,
                ),
            },
    {
        if eq_ignore_ascii_case(s, "ucurrent") {
            Ok(OscilloscopeMsmtType::UCurrent)
        } else if eq_ignore_ascii_case(s, "currentranger") {
            Ok(OscilloscopeMsmtType::CurrentRanger)
        } else {
            Err(unknown_name("OscilloscopeMsmtType", s))
        }
    }

    /// The name of the measurement type.
    pub fn to_string(&self) -> (s: String)
        ensures
            s@ == msmt_type_name(*self),
    {
        match self {
            OscilloscopeMsmtType::UCurrent => String::from_str("UCurrent"),
            OscilloscopeMsmtType::CurrentRanger => String::from_str("CurrentRanger"),
            OscilloscopeMsmtType::INA225 => String::from_str("INA225"),
            OscilloscopeMsmtType::INA225NVGPU => String::from_str("INA225NVGPU"),
        }
    }
}

impl MsmtEnvironment {
    /// Reads an environment from its name; the name's case does not matter.
    pub fn from_str(s: &str) -> (r: Result<Self, String>)
        ensures
            match r {
                Ok(e) => environment_named(s@) == Some(e),
                Err(m) => environment_named(s@) is None && m@ == unknown_name_message(
                    "MsmtEnvironment"@,
                    s@,
                ),
            },
    {
        if eq_ignore_ascii_case(s, "jetson") {
            Ok(MsmtEnvironment::Jetson)
        } else if eq_ignore_ascii_case(s, "m.2") {
            Ok(MsmtEnvironment::M2)
        } else if eq_ignore_ascii_case(s, "triggerchannel") {
            Ok(MsmtEnvironment::TriggerChannel)
        } else if eq_ignore_ascii_case(s, "nvidiagpu") {
            Ok(MsmtEnvironment::NvidiaGPU)
        } else {
            Err(unknown_name("MsmtEnvironment", s))
        }
    }

    /// The name of the environment.
    pub fn to_string(&self) -> (s: String)
        ensures
            s@ == environment_name(*self),
    {
        match self {
            MsmtEnvironment::Jetson => String::from_str("Jetson"),
            MsmtEnvironment::M2 => String::from_str("M.2"),
            MsmtEnvironment::TriggerChannel => String::from_str("TriggerChannel"),
            MsmtEnvironment::NvidiaGPU => String::from_str("NvidiaGPU"),
        }
    }
}

impl OscilloscopeProbeFactor {
    /// Reads a probe factor from its name; the name's case does not matter.
    pub fn from_str(s: &str) -> (r: Result<Self, String>)
        ensures
            match r {
                Ok(f) => probe_factor_named(s@) == Some(f),
                Err(m) => probe_factor_named(s@) is None && m@ == unknown_name_message(
                    "OscilloscopeProbeFactor"@,
                    s@,
                ),
            },
    {
        if eq_ignore_ascii_case(s, "x1") {
            Ok(OscilloscopeProbeFactor::X1)
        } else if eq_ignore_ascii_case(s, "x10") {
            Ok(OscilloscopeProbeFactor::X10)
        } else {
            Err(unknown_name("OscilloscopeProbeFactor", s))
        }
    }

    /// The name of the probe factor.
    pub fn to_string(&self) -> (s: String)
        ensures
            s@ == probe_factor_name(*self),
    {
        match self {
            OscilloscopeProbeFactor::X1 => String::from_str("X1"),
            OscilloscopeProbeFactor::X10 => String::from_str("X10"),
        }
    }

    /// The factor by which the probe attenuates: 1 for `X1`, 10 for `X10`.
    pub fn multiplier(&self) -> (m: u8)
        ensures
            m == (match *self {
                OscilloscopeProbeFactor::X1 => 1u8,
                OscilloscopeProbeFactor::X10 => 10u8,
            }),
    {
        match self {
            OscilloscopeProbeFactor::X1 => 1,
            OscilloscopeProbeFactor::X10 => 10,
        }
    }
}

/// Reading the shown name of a measurement type offered as an option
/// (UCurrent or CurrentRanger) gives that type back.
pub proof fn lemma_msmt_type_round_trip(t: OscilloscopeMsmtType)
    requires
        t == OscilloscopeMsmtType::UCurrent || t == OscilloscopeMsmtType::CurrentRanger,
    ensures
        msmt_type_named(msmt_type_name(t)) == Some(t),
{
    reveal_strlit("UCurrent");
    reveal_strlit("CurrentRanger");
    reveal_strlit("ucurrent");
    reveal_strlit("currentranger");
    let n = msmt_type_name(t);
    assert(ascii_lowercase(n) =~= match t {
        OscilloscopeMsmtType::UCurrent => "ucurrent"@,
        _ => "currentranger"@,
    });
}

/// The INA225 types are not offered as options: their shown names are refused.
pub proof fn lemma_ina225_names_refused(t: OscilloscopeMsmtType)
    requires
        t == OscilloscopeMsmtType::INA225 || t == OscilloscopeMsmtType::INA225NVGPU,
    ensures
        msmt_type_named(msmt_type_name(t)) is None,
{
    reveal_strlit("INA225");
    reveal_strlit("INA225NVGPU");
    reveal_strlit("ucurrent");
    reveal_strlit("currentranger");
    let n = msmt_type_name(t);
    assert(ascii_lowercase(n)[0] == 'i');
    assert(ascii_lowercase(n) != "ucurrent"@) by {
        assert("ucurrent"@[0] == 'u');
    }
    assert(ascii_lowercase(n) != "currentranger"@) by {
        assert("currentranger"@[0] == 'c');
    }
}

/// Reading the shown name of an environment gives that environment back.
pub proof fn lemma_environment_round_trip(e: MsmtEnvironment)
    ensures
        environment_named(environment_name(e)) == Some(e),
{
    reveal_strlit("Jetson");
    reveal_strlit("M.2");
    reveal_strlit("TriggerChannel");
    reveal_strlit("NvidiaGPU");
    reveal_strlit("jetson");
    reveal_strlit("m.2");
    reveal_strlit("triggerchannel");
    reveal_strlit("nvidiagpu");
    let n = environment_name(e);
    assert(ascii_lowercase(n) =~= match e {
        MsmtEnvironment::Jetson => "jetson"@,
        MsmtEnvironment::M2 => "m.2"@,
        MsmtEnvironment::TriggerChannel => "triggerchannel"@,
        MsmtEnvironment::NvidiaGPU => "nvidiagpu"@,
    });
}

/// Reading the shown name of a probe factor gives that factor back.
pub proof fn lemma_probe_factor_round_trip(f: OscilloscopeProbeFactor)
    ensures
        probe_factor_named(probe_factor_name(f)) == Some(f),
{
    reveal_strlit("X1");
    reveal_strlit("X10");
    reveal_strlit("x1");
    reveal_strlit("x10");
    let n = probe_factor_name(f);
    assert(ascii_lowercase(n) =~= match f {
        OscilloscopeProbeFactor::X1 => "x1"@,
        OscilloscopeProbeFactor::X10 => "x10"@,
    });
}

/// Two names that differ only in the case of ASCII letters name the same
/// measurement type, environment and probe factor (or none).
pub proof fn lemma_names_ignore_case(s1: Seq<char>, s2: Seq<char>)
    requires
        ascii_lowercase(s1) == ascii_lowercase(s2),
    ensures
        msmt_type_named(s1) == msmt_type_named(s2),
        environment_named(s1) == environment_named(s2),
        probe_factor_named(s1) == probe_factor_named(s2),
{
}

} // verus!
