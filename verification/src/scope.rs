//! The oscilloscopes: the SCPI script that prepares a Tektronix scope for TekHSI,
//! the choice of a VISA instrument, and the raw samples of a curve stream.
use vstd::prelude::*;
use crate::text::{decimal, decimal_string, has_prefix};
use crate::packet::{ascii_bytes, lemma_decimal_reads_back};

verus! {

/// One exchange with the instrument.
#[derive(Clone, Debug, PartialEq, Eq)]
pub enum ScopeStep {
    /// Writes the command.
    Send(String),
    /// Writes the query, then reads one line of answer, which is logged.
    Query(String),
}

/// A scope step with its text as a character sequence.
pub enum ScopeStepView {
    Send(Seq<char>),
    Query(Seq<char>),
}

impl View for ScopeStep {
    type V = ScopeStepView;

    open spec fn view(&self) -> ScopeStepView {
        match self {
            ScopeStep::Send(c) => ScopeStepView::Send(c@),
            ScopeStep::Query(q) => ScopeStepView::Query(q@),
        }
    }
}

/// The record length the scope is set to.
pub const RECORD_LENGTH: u32 = 1_000_000;

/// The script that enables channel 1 alone, sets the sample rate and the record
/// length, stops after one sequence and starts the acquisition, reading back each
/// setting.
pub open spec fn scope_setup_script(sample_rate: u32) -> Seq<ScopeStepView> {
    seq![
        ScopeStepView::Send("SELECT:CH1 ON; CH2 OFF; CH3 OFF; CH4 OFF"@),
        ScopeStepView::Query("SELECT:CH1?;CH2?;CH3?;CH4?"@),
        ScopeStepView::Send(
            "HORIZONTAL:MODE MANUAL;:HORIZONTAL:SAMPLERATE "@ + decimal(sample_rate as nat)
                + ";:HORIZONTAL:RECORDLENGTH "@ + decimal(RECORD_LENGTH as nat),
        ),
        ScopeStepView::Query("HORIZONTAL:SAMPLERATE?;:HORIZONTAL:RECORDLENGTH?"@),
        ScopeStepView::Send("ACQUIRE:STOPAFTER SEQUENCE"@),
        ScopeStepView::Query("ACQUIRE:STOPAFTER?"@),
        ScopeStepView::Send("ACQUIRE:STATE RUN"@),
    ]
}

/// The steps that set up the scope for a measurement at `sample_rate`.
pub fn setup_scope(sample_rate: u32) -> (steps: Vec<ScopeStep>)
    ensures
        steps@.map_values(|s: ScopeStep| s@) == scope_setup_script(sample_rate),
{
    let mut horizontal = String::from_str("HORIZONTAL:MODE MANUAL;:HORIZONTAL:SAMPLERATE ");
    let rate = decimal_string(sample_rate as u128);
    horizontal.append(rate.as_str());
    horizontal.append(";:HORIZONTAL:RECORDLENGTH ");
    let length = decimal_string(RECORD_LENGTH as u128);
    horizontal.append(length.as_str());
    let mut steps: Vec<ScopeStep> = Vec::new();
    steps.push(ScopeStep::Send(String::from_str("SELECT:CH1 ON; CH2 OFF; CH3 OFF; CH4 OFF")));
    steps.push(ScopeStep::Query(String::from_str("SELECT:CH1?;CH2?;CH3?;CH4?")));
    steps.push(ScopeStep::Send(horizontal));
    steps.push(ScopeStep::Query(String::from_str("HORIZONTAL:SAMPLERATE?;:HORIZONTAL:RECORDLENGTH?")));
    steps.push(ScopeStep::Send(String::from_str("ACQUIRE:STOPAFTER SEQUENCE")));
    steps.push(ScopeStep::Query(String::from_str("ACQUIRE:STOPAFTER?")));
    steps.push(ScopeStep::Send(String::from_str("ACQUIRE:STATE RUN")));
    assert(steps@.map_values(|s: ScopeStep| s@) =~= scope_setup_script(sample_rate));
    steps
}

/// Whether a VISA resource is an instrument reached over USB, Ethernet or TCP/IP.
pub open spec fn is_instrument_resource(name: Seq<char>) -> bool {
    has_prefix(name, "USB"@) || has_prefix(name, "ETH"@) || has_prefix(name, "TCPIP"@)
}

/// Whether the text of `s` begins with the text of `prefix`.
fn starts_with(s: &Vec<char>, prefix: &str) -> (b: bool)
    ensures
        b == has_prefix(s@, prefix@),
{
    let p = crate::text::chars_of(prefix);
    if p.len() > s.len() {
        return false;
    }
    let mut i: usize = 0;
    while i < p.len()
        invariant
            p@ == prefix@,
            p@.len() <= s@.len(),
            i <= p@.len(),
            forall|j: int| 0 <= j < i ==> s@[j] == p@[j],
        decreases p.len() - i,
    {
        if s[i] != p[i] {
            assert(s@.take(p@.len() as int)[i as int] != p@[i as int]);
            return false;
        }
        i = i + 1;
    }
    assert(s@.take(p@.len() as int) =~= p@);
    true
}

/// The positions, in order, of the resources that are instruments reached over
/// USB, Ethernet or TCP/IP.
pub fn instrument_candidates(names: &Vec<String>) -> (r: Vec<usize>)
    ensures
        forall|k: int| 0 <= k < r@.len() ==> #[trigger] r@[k] < names@.len()
            && is_instrument_resource(names@[r@[k] as int]@),
        forall|k: int, l: int| 0 <= k < l < r@.len() ==> r@[k] < r@[l],
        forall|i: int|
            0 <= i < names@.len() && is_instrument_resource(#[trigger] names@[i]@) ==> r@.contains(
                i as usize,
            ),
{
    let mut r: Vec<usize> = Vec::new();
    let mut i: usize = 0;
    while i < names.len()
        invariant
            i <= names@.len(),
            forall|k: int| 0 <= k < r@.len() ==> #[trigger] r@[k] < i
                && is_instrument_resource(names@[r@[k] as int]@),
            forall|k: int, l: int| 0 <= k < l < r@.len() ==> r@[k] < r@[l],
            forall|j: int|
                0 <= j < i && is_instrument_resource(#[trigger] names@[j]@) ==> r@.contains(
                    j as usize,
                ),
        decreases names.len() - i,
    {
        let v = crate::text::chars_of(names[i].as_str());
        if starts_with(&v, "USB") || starts_with(&v, "ETH") || starts_with(&v, "TCPIP") {
            let ghost before = r@;
            r.push(i);
            assert forall|j: int|
                0 <= j < i + 1 && is_instrument_resource(#[trigger] names@[j]@) implies r@.contains(
                j as usize,
            ) by {
                if j < i {
                    let k = choose|k: int| 0 <= k < before.len() && before[k] == j as usize;
                    assert(r@[k] == j as usize);
                } else {
                    assert(r@[r@.len() - 1] == j as usize);
                }
            }
        }
        i = i + 1;
    }
    r
}

/// The number of bytes read from the curve stream at a time.
pub const READ_AMOUNT: usize = 250000;

/// One sample of the curve stream, with its time in the read.
#[derive(Clone, Copy, Debug, PartialEq, Eq, Structural)]
pub struct OscMeasurement {
    pub measurement_time: u128,
    pub raw_value: u16,
}

/// The samples of one read of the curve stream: each little-endian `u16` of the
/// bytes, the `i`-th stamped `i` times the read's duration over `READ_AMOUNT`.
pub open spec fn osc_samples(bytes: Seq<u8>, read_duration: u128) -> Seq<OscMeasurement> {
    Seq::new(
        bytes.len() / 2,
        |i: int|
            OscMeasurement {
                measurement_time: ((read_duration / (READ_AMOUNT as u128)) * i) as u128,
                raw_value: (bytes[2 * i] as int + 256 * (bytes[2 * i + 1] as int)) as u16,
            },
    )
}

/// The samples of one read of `READ_AMOUNT` bytes that took `read_duration`
/// microseconds.
pub fn osc_measurements(bytes: &[u8], read_duration: u128) -> (r: Vec<OscMeasurement>)
    requires
        bytes@.len() == READ_AMOUNT,
    ensures
        r@ == osc_samples(bytes@, read_duration),
{
    let step = read_duration / (READ_AMOUNT as u128);
    let mut r: Vec<OscMeasurement> = Vec::new();
    let mut i: usize = 0;
    while i < READ_AMOUNT / 2
        invariant
            bytes@.len() == READ_AMOUNT,
            step == read_duration / (READ_AMOUNT as u128),
            i <= READ_AMOUNT / 2,
            r@ == osc_samples(bytes@, read_duration).take(i as int),
        decreases READ_AMOUNT / 2 - i,
    {
        assert(step * (i as u128) <= read_duration) by (nonlinear_arith)
            requires
                step == read_duration / 250000,
                i < 125000,
        ;
        let time: u128 = step * (i as u128);
        let value: u16 = bytes[2 * i] as u16 + (bytes[2 * i + 1] as u16) * 256;
        let m = OscMeasurement { measurement_time: time, raw_value: value };
        assert(osc_samples(bytes@, read_duration)[i as int] == m);
        assert(osc_samples(bytes@, read_duration).take(i + 1) =~= osc_samples(
            bytes@,
            read_duration,
        ).take(i as int).push(m));
        r.push(m);
        i = i + 1;
    }
    assert(osc_samples(bytes@, read_duration).take(i as int) =~= osc_samples(
        bytes@,
        read_duration,
    ));
    r
}

/// The samples of one read are stamped in order, none later than the read's duration.
pub proof fn lemma_osc_times_within_read(bytes: Seq<u8>, read_duration: u128)
    requires
        bytes.len() == READ_AMOUNT,
    ensures
        forall|i: int|
            0 <= i < osc_samples(bytes, read_duration).len() ==> #[trigger] osc_samples(
                bytes,
                read_duration,
            )[i].measurement_time <= read_duration,
        forall|i: int, j: int|
            0 <= i <= j < osc_samples(bytes, read_duration).len() ==> osc_samples(
                bytes,
                read_duration,
            )[i].measurement_time <= osc_samples(bytes, read_duration)[j].measurement_time,
{
    let step = read_duration / (READ_AMOUNT as u128);
    assert forall|i: int| 0 <= i < osc_samples(bytes, read_duration).len() implies #[trigger] osc_samples(
        bytes,
        read_duration,
    )[i].measurement_time <= read_duration by {
        assert(step * i <= read_duration) by (nonlinear_arith)
            requires
                step == read_duration / 250000,
                0 <= i < 125000,
        ;
    }
    assert forall|i: int, j: int|
        0 <= i <= j < osc_samples(bytes, read_duration).len() implies osc_samples(
        bytes,
        read_duration,
    )[i].measurement_time <= osc_samples(bytes, read_duration)[j].measurement_time by {
        assert(step * i <= step * j) by (nonlinear_arith)
            requires
                0 <= i <= j,
                step >= 0,
        ;
        assert(step * j <= read_duration) by (nonlinear_arith)
            requires
                step == read_duration / 250000,
                0 <= j < 125000,
        ;
    }
}

/// The script sets the sample rate that was asked for: its third step writes the
/// decimal notation of `r1` itself, so two different sample rates never give the
/// same script.
pub proof fn lemma_setup_script_sets_requested_rate(r1: u32, r2: u32)
    ensures
        scope_setup_script(r1)[2] == ScopeStepView::Send(
            "HORIZONTAL:MODE MANUAL;:HORIZONTAL:SAMPLERATE "@ + decimal(r1 as nat)
                + ";:HORIZONTAL:RECORDLENGTH "@ + decimal(1_000_000),
        ),
        scope_setup_script(r1) == scope_setup_script(r2) ==> r1 == r2,
{
    if scope_setup_script(r1) == scope_setup_script(r2) {
        let pre = "HORIZONTAL:MODE MANUAL;:HORIZONTAL:SAMPLERATE "@;
        let mid = ";:HORIZONTAL:RECORDLENGTH "@;
        let len = decimal(RECORD_LENGTH as nat);
        let d1 = decimal(r1 as nat);
        let d2 = decimal(r2 as nat);
        let a1 = pre + d1 + mid + len;
        let a2 = pre + d2 + mid + len;
        assert(scope_setup_script(r1)[2] == ScopeStepView::Send(a1));
        assert(scope_setup_script(r2)[2] == ScopeStepView::Send(a2));
        assert(a1 == a2);
        assert(a1.len() == pre.len() + d1.len() + mid.len() + len.len());
        assert(a2.len() == pre.len() + d2.len() + mid.len() + len.len());
        assert(d1.len() == d2.len());
        assert(a1.subrange(pre.len() as int, (pre.len() + d1.len()) as int) =~= d1);
        assert(a2.subrange(pre.len() as int, (pre.len() + d2.len()) as int) =~= d2);
        lemma_decimal_reads_back(r1 as nat, u32::MAX as nat);
        lemma_decimal_reads_back(r2 as nat, u32::MAX as nat);
    }
}

/// A resource is an instrument candidate exactly when its name begins with the
/// characters `USB`, `ETH` or `TCPIP`, whatever follows them.
pub proof fn lemma_instrument_prefixes(name: Seq<char>)
    ensures
        is_instrument_resource(name) <==> ((name.len() >= 3 && name[0] == 'U' && name[1] == 'S'
            && name[2] == 'B') || (name.len() >= 3 && name[0] == 'E' && name[1] == 'T' && name[2]
            == 'H') || (name.len() >= 5 && name[0] == 'T' && name[1] == 'C' && name[2] == 'P'
            && name[3] == 'I' && name[4] == 'P')),
{
    reveal_strlit("USB");
    reveal_strlit("ETH");
    reveal_strlit("TCPIP");
    if name.len() >= 3 {
        assert(name.take(3)[0] == name[0] && name.take(3)[1] == name[1] && name.take(3)[2]
            == name[2]);
        if name[0] == 'U' && name[1] == 'S' && name[2] == 'B' {
            assert(name.take(3) =~= "USB"@);
        }
        if name[0] == 'E' && name[1] == 'T' && name[2] == 'H' {
            assert(name.take(3) =~= "ETH"@);
        }
    }
    if name.len() >= 5 {
        assert(name.take(5)[0] == name[0] && name.take(5)[1] == name[1] && name.take(5)[2]
            == name[2] && name.take(5)[3] == name[3] && name.take(5)[4] == name[4]);
        if name[0] == 'T' && name[1] == 'C' && name[2] == 'P' && name[3] == 'I' && name[4] == 'P' {
            assert(name.take(5) =~= "TCPIP"@);
        }
    }
}

} // verus!
