//! The minimal u.RECS firmware that streams raw ADC readouts: each datagram of
//! 256 bytes holds 64 samples of a little-endian `u16` index and `u16` current.
use vstd::prelude::*;
use crate::columns::{U16Array, U16Column, u16_array, u16_column};
use crate::text::{decimal, decimal_string};

verus! {

/// The length of a datagram of samples.
pub const FAST_PACKET_LEN: usize = 256;

/// The length of one sample in a datagram.
pub const FAST_SAMPLE_LEN: usize = 4;

/// The `u16` whose little-endian bytes are `lo` and `hi`, as `u16::from_le_bytes` reads them.
pub open spec fn le_u16(lo: u8, hi: u8) -> u16 {
    (lo as int + 256 * (hi as int)) as u16
}

/// The measurement indices of the samples of a datagram.
pub open spec fn sample_indices(p: Seq<u8>) -> Seq<u16> {
    Seq::new(p.len() / 4, |i: int| le_u16(p[4 * i], p[4 * i + 1]))
}

/// The currents of the samples of a datagram.
pub open spec fn sample_currents(p: Seq<u8>) -> Seq<u16> {
    Seq::new(p.len() / 4, |i: int| le_u16(p[4 * i + 2], p[4 * i + 3]))
}

/// The text that the firmware sends once the requested duration has passed.
pub open spec fn finished_text() -> Seq<char> {
    "Finished Measurement!\n"@
}

/// What a received datagram means for the recording.
#[derive(Clone, Copy, Debug, PartialEq, Eq, Structural)]
pub enum FastDatagram {
    /// A full datagram of samples: record them.
    Samples,
    /// The firmware reports that the measurement is complete: stop.
    MeasurementFinished,
    /// A datagram of another length: stop, warning about it.
    InvalidLength,
}

/// What the received bytes mean: a datagram of samples has exactly 256 bytes;
/// of any other length, only the firmware's closing text is expected.
pub fn classify_fast_datagram(received: &[u8]) -> (d: FastDatagram)
    ensures
        d == (if received@.len() == FAST_PACKET_LEN {
            FastDatagram::Samples
        } else if received@ == finished_text().map_values(|c: char| c as u8) {
            FastDatagram::MeasurementFinished
        } else {
            FastDatagram::InvalidLength
        }),
{
    if received.len() == FAST_PACKET_LEN {
        return FastDatagram::Samples;
    }
    let text = "Finished Measurement!\n";
    proof {
        reveal_strlit("Finished Measurement!\n");
        broadcast use vstd::string::is_ascii_spec_bytes;
        assert(vstd::string::is_ascii(text));
    }
    let expected = text.as_bytes();
    proof {
        broadcast use vstd::string::is_ascii_spec_bytes;
        assert(expected@ =~= finished_text().map_values(|c: char| c as u8));
    }
    if received.len() != expected.len() {
        return FastDatagram::InvalidLength;
    }
    let mut i: usize = 0;
    while i < received.len()
        invariant
            received@.len() == expected@.len(),
            received@.len() != FAST_PACKET_LEN,
            expected@ == finished_text().map_values(|c: char| c as u8),
            i <= received@.len(),
            forall|j: int| 0 <= j < i ==> received@[j] == expected@[j],
        decreases received.len() - i,
    {
        if received[i] != expected[i] {
            assert(received@[i as int] != expected@[i as int]);
            return FastDatagram::InvalidLength;
        }
        i = i + 1;
    }
    assert(received@ =~= expected@);
    FastDatagram::MeasurementFinished
}

/// The request that starts a stream: `go {channel} {duration_micros} {sample_rate}`
/// and a line feed.
pub fn start_command(channel: u8, duration_micros: u128, sample_rate: u16) -> (s: String)
    ensures
        s@ == "go "@ + decimal(channel as nat) + " "@ + decimal(duration_micros as nat) + " "@
            + decimal(sample_rate as nat) + "\n"@,
{
    let mut s = String::from_str("go ");
    let c = decimal_string(channel as u128);
    s.append(c.as_str());
    s.append(" ");
    let d = decimal_string(duration_micros);
    s.append(d.as_str());
    s.append(" ");
    let r = decimal_string(sample_rate as u128);
    s.append(r.as_str());
    s.append("\n");
    s
}

/// The samples of the current record batch.
pub struct FastFirmwareData {
    index: U16Column,
    current: U16Column,
}

impl FastFirmwareData {
    /// The measurement indices gathered for the current batch.
    pub closed spec fn indices(&self) -> Seq<u16> {
        u16_column(self.index)
    }

    /// The currents gathered for the current batch.
    pub closed spec fn currents(&self) -> Seq<u16> {
        u16_column(self.current)
    }

    /// No sample yet.
    pub fn new() -> (d: Self)
        ensures
            d.indices() == Seq::<u16>::empty(),
            d.currents() == Seq::<u16>::empty(),
    {
        FastFirmwareData { index: U16Column::new(), current: U16Column::new() }
    }

    /// Appends the 64 samples of a datagram, in order.
    pub fn append_packet(&mut self, packet: &[u8])
        requires
            packet@.len() == FAST_PACKET_LEN,
        ensures
            final(self).indices() == old(self).indices() + sample_indices(packet@),
            final(self).currents() == old(self).currents() + sample_currents(packet@),
    {
        let mut k: usize = 0;
        while k < FAST_PACKET_LEN / FAST_SAMPLE_LEN
            invariant
                packet@.len() == FAST_PACKET_LEN,
                k <= FAST_PACKET_LEN / FAST_SAMPLE_LEN,
                self.indices() == old(self).indices() + sample_indices(packet@).take(k as int),
                self.currents() == old(self).currents() + sample_currents(packet@).take(k as int),
            decreases FAST_PACKET_LEN / FAST_SAMPLE_LEN - k,
        {
            let base = k * FAST_SAMPLE_LEN;
            let index: u16 = packet[base] as u16 + (packet[base + 1] as u16) * 256;
            let current: u16 = packet[base + 2] as u16 + (packet[base + 3] as u16) * 256;
            proof {
                assert(sample_indices(packet@)[k as int] == index);
                assert(sample_currents(packet@)[k as int] == current);
                assert(sample_indices(packet@).take(k + 1) =~= sample_indices(packet@).take(
                    k as int,
                ).push(index));
                assert(sample_currents(packet@).take(k + 1) =~= sample_currents(packet@).take(
                    k as int,
                ).push(current));
            }
            self.index.append(index);
            self.current.append(current);
            k = k + 1;
        }
        assert(sample_indices(packet@).take(64) =~= sample_indices(packet@));
        assert(sample_currents(packet@).take(64) =~= sample_currents(packet@));
    }

    /// The number of samples gathered for the current batch.
    pub fn row_count(&self) -> (n: usize)
        ensures
            n == self.indices().len(),
    {
        self.index.len()
    }

    /// Hands out the gathered columns and starts an empty batch.
    pub fn finish_batch(&mut self) -> (r: (U16Array, U16Array))
        ensures
            u16_array(r.0) == old(self).indices(),
            u16_array(r.1) == old(self).currents(),
            final(self).indices() == Seq::<u16>::empty(),
            final(self).currents() == Seq::<u16>::empty(),
    {
        let i = self.index.finish();
        let c = self.current.finish();
        (i, c)
    }
}

} // verus!
