//! The input sources that one measurement records, and the rule that at most
//! one source of each kind of hardware takes part.
use vstd::prelude::*;
use std::time::Duration;
use crate::settings::{MsmtEnvironment, OscilloscopeMsmtType, OscilloscopeProbeFactor};

verus! {

/// An input source of a measurement, with its connection settings.
#[allow(inconsistent_fields)]
#[derive(Debug)]
pub enum Sources {
    /// A Jetson board, read through `tegrastats-net`.
    Jetson { address: String, data_port: u16, control_port: u16 },
    /// A Hailo accelerator host, read through `hailort-msmt`.
    HailoRT { address: String, data_port: u16, control_port: u16 },
    /// An Nvidia GPU host, read through `smi-net`.
    NVGPU { address: String, data_port: u16, control_port: u16 },
    /// The default u.RECS firmware.
    Firmware { address: String },
    /// The minimal u.RECS firmware for fast ADC readouts.
    FastFirmware { address: String, data_port: u16, channel: u8, sample_rate: u16 },
    /// A Shelly PlusPlugS.
    ShellyPlug { address: String },
    /// A Tektronix oscilloscope, read through TekHSI.
    Oscilloscope { address: String, sample_rate: u32, duration: Duration },
    /// A USB oscilloscope.
    UsbOscilloscope {
        sample_rate: u32,
        use_function_gen: bool,
        measurement_type: OscilloscopeMsmtType,
        msmt_environment: MsmtEnvironment,
        current_channel_probe_factor: OscilloscopeProbeFactor,
        voltage_channel_probe_factor: OscilloscopeProbeFactor,
    },
}

/// The hardware a source reads from. At most one source per kind may be
/// recorded at a time.
#[derive(Clone, Copy, Debug, PartialEq, Eq, Structural, Hash)]
pub enum SourceKind {
    Jetson,
    HailoRT,
    NVGPU,
    Firmware,
    ShellyPlug,
    Oscilloscope,
    UsbOscilloscope,
}

/// Why a set of sources cannot be recorded.
#[derive(Clone, Copy, Debug, PartialEq, Eq, Structural)]
pub enum SourcesError {
    /// Two sources read from the same kind of hardware.
    DuplicateKind,
    /// No source was given.
    NoSources,
}

/// The kind of hardware that `s` reads from; both firmware variants talk to
/// the same u.RECS board, so they share a kind.
pub open spec fn kind_of(s: Sources) -> SourceKind {
    match s {
        Sources::Jetson { .. } => SourceKind::Jetson,
        Sources::HailoRT { .. } => SourceKind::HailoRT,
        Sources::NVGPU { .. } => SourceKind::NVGPU,
        Sources::Firmware { .. } => SourceKind::Firmware,
        Sources::FastFirmware { .. } => SourceKind::Firmware,
        Sources::ShellyPlug { .. } => SourceKind::ShellyPlug,
        Sources::Oscilloscope { .. } => SourceKind::Oscilloscope,
        Sources::UsbOscilloscope { .. } => SourceKind::UsbOscilloscope,
    }
}

/// Whether no two of `s` read from the same kind of hardware.
pub open spec fn kinds_distinct(s: Seq<Sources>) -> bool {
    forall|i: int, j: int| 0 <= i < j < s.len() ==> kind_of(s[i]) != kind_of(s[j])
}

/// What checking the sources `s` of a measurement gives.
pub open spec fn sources_check(s: Seq<Sources>) -> Result<(), SourcesError> {
    if !kinds_distinct(s) {
        Err(SourcesError::DuplicateKind)
    } else if s.len() == 0 {
        Err(SourcesError::NoSources)
    } else {
        Ok(())
    }
}

impl Sources {
    /// The kind of hardware the source reads from.
    pub fn kind(&self) -> (k: SourceKind)
        ensures
            k == kind_of(*self),
    {
        match self {
            Sources::Jetson { .. } => SourceKind::Jetson,
            Sources::HailoRT { .. } => SourceKind::HailoRT,
            Sources::NVGPU { .. } => SourceKind::NVGPU,
            Sources::Firmware { .. } | Sources::FastFirmware { .. } => SourceKind::Firmware,
            Sources::ShellyPlug { .. } => SourceKind::ShellyPlug,
            Sources::Oscilloscope { .. } => SourceKind::Oscilloscope,
            Sources::UsbOscilloscope { .. } => SourceKind::UsbOscilloscope,
        }
    }
}

/// Checks that the sources can be recorded together: a duplicate kind of
/// hardware is refused first, then an empty list.
pub fn validate_sources(sources: &Vec<Sources>) -> (r: Result<(), SourcesError>)
    ensures
        r == sources_check(sources@),
{
    let mut seen: Vec<SourceKind> = Vec::new();
    let mut i: usize = 0;
    while i < sources.len()
        invariant
            i <= sources@.len(),
            seen@.len() == i,
            forall|k: int| 0 <= k < i ==> seen@[k] == kind_of(#[trigger] sources@[k]),
            kinds_distinct(sources@.take(i as int)),
        decreases sources.len() - i,
    {
        let k = sources[i].kind();
        let mut j: usize = 0;
        while j < seen.len()
            invariant
                j <= seen@.len(),
                seen@.len() == i,
                i < sources@.len(),
                k == kind_of(sources@[i as int]),
                forall|m: int| 0 <= m < i ==> seen@[m] == kind_of(#[trigger] sources@[m]),
                forall|m: int| 0 <= m < j ==> seen@[m] != k,
            decreases seen.len() - j,
        {
            if seen[j] == k {
                assert(kind_of(sources@[j as int]) == kind_of(sources@[i as int]));
                assert(!kinds_distinct(sources@));
                return Err(SourcesError::DuplicateKind);
            }
            j = j + 1;
        }
        let ghost next = sources@.take(i + 1);
        assert forall|a: int, b: int| #![trigger next[a], next[b]] 0 <= a < b < i + 1 implies kind_of(
            next[a],
        ) != kind_of(next[b]) by {
            if b < i {
                assert(sources@.take(i as int)[a] == sources@.take(i + 1)[a]);
                assert(sources@.take(i as int)[b] == sources@.take(i + 1)[b]);
            } else {
                assert(seen@[a] != k);
            }
        }
        seen.push(k);
        i = i + 1;
    }
    assert(sources@.take(i as int) =~= sources@);
    if sources.len() == 0 {
        Err(SourcesError::NoSources)
    } else {
        Ok(())
    }
}

/// Sources that pass the check are not empty, and no two of them read from the
/// same kind of hardware.
pub proof fn lemma_checked_sources_distinct(s: Seq<Sources>)
    requires
        sources_check(s) is Ok,
    ensures
        s.len() > 0,
        forall|i: int, j: int| 0 <= i < j < s.len() ==> kind_of(s[i]) != kind_of(s[j]),
{
}

/// The default and the fast u.RECS firmware talk to the same board, so a
/// measurement cannot record both.
pub proof fn lemma_firmware_variants_conflict(firmware: Sources, fast: Sources)
    requires
        firmware is Firmware,
        fast is FastFirmware,
    ensures
        sources_check(seq![firmware, fast]) == Err::<(), SourcesError>(SourcesError::DuplicateKind),
{
    assert(kind_of(seq![firmware, fast][0]) == kind_of(seq![firmware, fast][1]));
}

/// The check refuses only what the rule forbids: any non-empty list in which no two
/// sources read from the same kind of hardware is accepted, however long; a list
/// with two sources of one kind is refused as a duplicate; an empty list is refused
/// as empty.
pub proof fn lemma_sources_check_exact(s: Seq<Sources>)
    ensures
        (s.len() > 0 && forall|i: int, j: int|
            0 <= i < j < s.len() ==> kind_of(#[trigger] s[i]) != kind_of(#[trigger] s[j]))
            ==> sources_check(s) == Ok::<(), SourcesError>(()),
        (exists|i: int, j: int|
            0 <= i < j < s.len() && kind_of(#[trigger] s[i]) == kind_of(#[trigger] s[j]))
            ==> sources_check(s) == Err::<(), SourcesError>(SourcesError::DuplicateKind),
        s.len() == 0 ==> sources_check(s) == Err::<(), SourcesError>(SourcesError::NoSources),
{
}

} // verus!
