//! The samples of a Jetson board, sent by `tegrastats-net` as one line per datagram:
//! `timestamp,current,voltage`.
use vstd::prelude::*;
use crate::columns::{U32Array, U32Column, U64Array, U64Column, u32_column, u64_column};
use crate::packet::{
    NumberError, first_line, first_line_of, parse_u32, parse_u64, parse_unsigned, split_fields,
    split_fields_of, ascii_bytes, lemma_decimal_reads_back, lemma_decimal_digits, COMMA, NEWLINE,
    CARRIAGE_RETURN, is_digit,
};
use crate::text::{decimal, index_of, lemma_index_of_after_prefix};

verus! {

/// A field of a Jetson datagram.
#[derive(Clone, Copy, Debug, PartialEq, Eq, Structural)]
pub enum JetsonField {
    Timestamp,
    Current,
    Voltage,
}

/// Why a Jetson datagram was refused.
#[derive(Clone, Copy, Debug, PartialEq, Eq, Structural)]
pub enum JetsonPacketError {
    /// The datagram holds no line.
    Empty,
    /// The line has no such field.
    Missing(JetsonField),
    /// The field is not a number of its width.
    Invalid(JetsonField, NumberError),
}

/// The fields of the first line of a Jetson datagram; the third holds the rest of the line.
pub open spec fn jetson_fields(p: Seq<u8>) -> Seq<Seq<u8>> {
    split_fields(first_line(p).unwrap(), 3)
}

/// The number in field `idx` (named `field`) of a Jetson datagram, at most `max`.
pub open spec fn jetson_field(p: Seq<u8>, idx: int, field: JetsonField, max: nat) -> Result<
    nat,
    JetsonPacketError,
> {
    if first_line(p) is None {
        Err(JetsonPacketError::Empty)
    } else if jetson_fields(p).len() <= idx {
        Err(JetsonPacketError::Missing(field))
    } else {
        match parse_unsigned(jetson_fields(p)[idx], max) {
            Ok(v) => Ok(v),
            Err(e) => Err(JetsonPacketError::Invalid(field, e)),
        }
    }
}

/// The timestamp of a Jetson datagram.
pub open spec fn jetson_time(p: Seq<u8>) -> Result<nat, JetsonPacketError> {
    jetson_field(p, 0, JetsonField::Timestamp, u64::MAX as nat)
}

/// The current of a Jetson datagram.
pub open spec fn jetson_current(p: Seq<u8>) -> Result<nat, JetsonPacketError> {
    jetson_field(p, 1, JetsonField::Current, u32::MAX as nat)
}

/// The voltage of a Jetson datagram.
pub open spec fn jetson_voltage(p: Seq<u8>) -> Result<nat, JetsonPacketError> {
    jetson_field(p, 2, JetsonField::Voltage, u32::MAX as nat)
}

/// The Jetson samples of the current record batch, and the latest reading.
pub struct JetsonData {
    time: U64Column,
    current: U32Column,
    voltage: U32Column,
    last_current: u32,
    last_voltage: u32,
}

impl JetsonData {
    /// The timestamps gathered for the current batch.
    pub closed spec fn times(&self) -> Seq<u64> {
        u64_column(self.time)
    }

    /// The currents gathered for the current batch.
    pub closed spec fn currents(&self) -> Seq<u32> {
        u32_column(self.current)
    }

    /// The voltages gathered for the current batch.
    pub closed spec fn voltages(&self) -> Seq<u32> {
        u32_column(self.voltage)
    }

    /// The current last read.
    pub closed spec fn latest_current(&self) -> u32 {
        self.last_current
    }

    /// The voltage last read.
    pub closed spec fn latest_voltage(&self) -> u32 {
        self.last_voltage
    }

    /// No sample yet; the latest reading is zero.
    pub fn new() -> (d: Self)
        ensures
            d.times() == Seq::<u64>::empty(),
            d.currents() == Seq::<u32>::empty(),
            d.voltages() == Seq::<u32>::empty(),
            d.latest_current() == 0,
            d.latest_voltage() == 0,
    {
        JetsonData {
            time: U64Column::new(),
            current: U32Column::new(),
            voltage: U32Column::new(),
            last_current: 0,
            last_voltage: 0,
        }
    }

    /// Reads a datagram and appends its timestamp, current and voltage, field by
    /// field: a field is appended only where every field before it was read, and
    /// the first field that cannot be read is the error.
    pub fn parse_packet(&mut self, packet: &[u8]) -> (r: Result<(), JetsonPacketError>)
        ensures
            match jetson_time(packet@) {
                Err(e) => r == Err::<(), JetsonPacketError>(e) && *final(self) == *old(self),
                Ok(t) => final(self).times() == old(self).times().push(t as u64) && match jetson_current(
                    packet@,
                ) {
                    Err(e) => r == Err::<(), JetsonPacketError>(e) && final(self).currents() == old(
                        self,
                    ).currents() && final(self).latest_current() == old(self).latest_current()
                        && final(self).voltages() == old(self).voltages()
                        && final(self).latest_voltage() == old(self).latest_voltage(),
                    Ok(c) => final(self).currents() == old(self).currents().push(c as u32)
                        && final(self).latest_current() == c && match jetson_voltage(packet@) {
                        Err(e) => r == Err::<(), JetsonPacketError>(e) && final(self).voltages()
                            == old(self).voltages() && final(self).latest_voltage() == old(
                            self,
                        ).latest_voltage(),
                        Ok(v) => r == Ok::<(), JetsonPacketError>(()) && final(self).voltages()
                            == old(self).voltages().push(v as u32) && final(self).latest_voltage()
                            == v,
                    },
                },
            },
    {
        let line = match first_line_of(packet) {
            None => {
                return Err(JetsonPacketError::Empty);
            },
            Some(l) => l,
        };
        let fields = split_fields_of(line, 3);
        if fields.len() < 1 {
            return Err(JetsonPacketError::Missing(JetsonField::Timestamp));
        }
        let t = match parse_u64(fields[0]) {
            Ok(t) => t,
            Err(e) => {
                return Err(JetsonPacketError::Invalid(JetsonField::Timestamp, e));
            },
        };
        self.time.append(t);
        if fields.len() < 2 {
            return Err(JetsonPacketError::Missing(JetsonField::Current));
        }
        let c = match parse_u32(fields[1]) {
            Ok(c) => c,
            Err(e) => {
                return Err(JetsonPacketError::Invalid(JetsonField::Current, e));
            },
        };
        self.last_current = c;
        self.current.append(c);
        if fields.len() < 3 {
            return Err(JetsonPacketError::Missing(JetsonField::Voltage));
        }
        let v = match parse_u32(fields[2]) {
            Ok(v) => v,
            Err(e) => {
                return Err(JetsonPacketError::Invalid(JetsonField::Voltage, e));
            },
        };
        self.last_voltage = v;
        self.voltage.append(v);
        Ok(())
    }

    /// The number of rows gathered for the current batch, counted by timestamps.
    pub fn row_count(&self) -> (n: usize)
        ensures
            n == self.times().len(),
    {
        self.time.len()
    }

    /// Hands out the gathered columns and starts an empty batch; the latest reading stays.
    pub fn finish_batch(&mut self) -> (r: (U64Array, U32Array, U32Array))
        ensures
            crate::columns::u64_array(r.0) == old(self).times(),
            crate::columns::u32_array(r.1) == old(self).currents(),
            crate::columns::u32_array(r.2) == old(self).voltages(),
            final(self).times() == Seq::<u64>::empty(),
            final(self).currents() == Seq::<u32>::empty(),
            final(self).voltages() == Seq::<u32>::empty(),
            final(self).latest_current() == old(self).latest_current(),
            final(self).latest_voltage() == old(self).latest_voltage(),
    {
        let t = self.time.finish();
        let c = self.current.finish();
        let v = self.voltage.finish();
        (t, c, v)
    }

    /// Closes the recording with a row at `elapsed_micros` (cut to 64 bits) that
    /// repeats the latest reading.
    pub fn append_final_row(&mut self, elapsed_micros: u128)
        ensures
            final(self).times() == old(self).times().push(elapsed_micros as u64),
            final(self).currents() == old(self).currents().push(old(self).latest_current()),
            final(self).voltages() == old(self).voltages().push(old(self).latest_voltage()),
            final(self).latest_current() == old(self).latest_current(),
            final(self).latest_voltage() == old(self).latest_voltage(),
    {
        self.time.append(elapsed_micros as u64);
        self.current.append(self.last_current);
        self.voltage.append(self.last_voltage);
    }
}

/// A datagram that begins with the decimal notation of any 64-bit number `n`
/// followed by a comma has the timestamp `n`: the timestamp is read to the full
/// 64-bit width, and so `parse_packet` appends `n` to the time column.
pub proof fn lemma_jetson_timestamp_is_64_bit(n: nat, rest: Seq<u8>)
    requires
        n <= u64::MAX,
    ensures
        jetson_time(ascii_bytes(decimal(n)) + seq![COMMA] + rest) == Ok::<nat, JetsonPacketError>(n),
{
    let d = ascii_bytes(decimal(n));
    let tail = seq![COMMA] + rest;
    let p = d + tail;
    assert(p =~= ascii_bytes(decimal(n)) + seq![COMMA] + rest);
    lemma_decimal_digits(n);
    lemma_decimal_reads_back(n, u64::MAX as nat);
    assert forall|j: int| 0 <= j < d.len() implies d[j] != NEWLINE && d[j] != COMMA by {
        assert(is_digit(d[j]));
    }
    lemma_index_of_after_prefix(d, tail, NEWLINE);
    assert(tail[0] == COMMA);
    // the first line keeps the number and the comma after it
    let k: int = match index_of(p, NEWLINE) {
        None => p.len() as int,
        Some(i) => {
            let l = p.take(i);
            if l.len() > 0 && l.last() == CARRIAGE_RETURN {
                i - 1
            } else {
                i
            }
        },
    };
    match index_of(tail, NEWLINE) {
        Some(j) => {
            crate::text::lemma_index_of_found_bounds(tail, NEWLINE);
            assert(j != 0);
            assert(p[d.len() as int] == COMMA);
        },
        None => {},
    }
    assert(d.len() + 1 <= k <= p.len());
    assert(first_line(p) == Some(p.take(k)));
    let l = p.take(k);
    assert(l =~= d + l.skip(d.len() as int));
    assert(l.skip(d.len() as int)[0] == COMMA);
    lemma_index_of_after_prefix(d, l.skip(d.len() as int), COMMA);
    assert(index_of(l.skip(d.len() as int), COMMA) == Some(0int));
    assert(index_of(l, COMMA) == Some(d.len() as int));
    assert(l.take(d.len() as int) =~= d);
    assert(jetson_fields(p)[0] == d);
}

} // verus!
