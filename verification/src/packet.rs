//! The text datagrams of the networked sources: one line of comma-separated
//! unsigned decimal fields, read at the level of bytes.
use vstd::prelude::*;
use crate::text::{decimal, digit_char, index_of, lemma_index_of_absent, lemma_index_of_found};

verus! {

/// The number of rows gathered before they are handed to the file writer.
pub const PARQUET_BATCH_ROW_COUNT: usize = 1_000_000;

pub const NEWLINE: u8 = 10;
pub const CARRIAGE_RETURN: u8 = 13;
pub const COMMA: u8 = 44;

/// Why a field is not an unsigned decimal number of the wanted width; the
/// three reasons that `str::parse` gives for unsigned integers.
#[derive(Clone, Copy, Debug, PartialEq, Eq, Structural)]
pub enum NumberError {
    /// The field is empty.
    Empty,
    /// The field holds something other than an optional `+` and decimal digits.
    InvalidDigit,
    /// The number does not fit the wanted width.
    PosOverflow,
}

/// The first line of a datagram, as `str::lines` yields it: the bytes before the
/// first line feed, without a carriage return right before it. An empty datagram
/// has no line.
pub open spec fn first_line(p: Seq<u8>) -> Option<Seq<u8>> {
    if p.len() == 0 {
        None
    } else {
        match index_of(p, NEWLINE) {
            None => Some(p),
            Some(i) => {
                let l = p.take(i);
                if l.len() > 0 && l.last() == CARRIAGE_RETURN {
                    Some(l.drop_last())
                } else {
                    Some(l)
                }
            },
        }
    }
}

/// The pieces of `line` cut at commas into at most `n` pieces, the last piece
/// holding the rest, as `str::splitn(n, ',')` yields them.
pub open spec fn split_fields(line: Seq<u8>, n: nat) -> Seq<Seq<u8>>
    decreases n,
{
    if n == 0 {
        Seq::empty()
    } else if n == 1 {
        seq![line]
    } else {
        match index_of(line, COMMA) {
            None => seq![line],
            Some(i) => seq![line.take(i)] + split_fields(line.skip(i + 1), (n - 1) as nat),
        }
    }
}

/// Whether `b` is an ASCII decimal digit.
pub open spec fn is_digit(b: u8) -> bool {
    48 <= b && b <= 57
}

/// Reads the decimal digits of `d` after the value `acc`, from the left, failing at
/// the first byte that is no digit or that makes the value exceed `max`.
pub open spec fn scan_digits(d: Seq<u8>, acc: nat, max: nat) -> Result<nat, NumberError>
    decreases d.len(),
{
    if d.len() == 0 {
        Ok(acc)
    } else if !is_digit(d[0]) {
        Err(NumberError::InvalidDigit)
    } else {
        let a = acc * 10 + (d[0] - 48) as nat;
        if a > max {
            Err(NumberError::PosOverflow)
        } else {
            scan_digits(d.drop_first(), a, max)
        }
    }
}

/// The unsigned number that the text `s` writes, at most `max`, as `str::parse`
/// reads an unsigned integer type: an optional leading `+`, then decimal digits.
pub open spec fn parse_unsigned(s: Seq<u8>, max: nat) -> Result<nat, NumberError> {
    if s.len() == 0 {
        Err(NumberError::Empty)
    } else if s.len() == 1 && (s[0] == 43 || s[0] == 45) {
        Err(NumberError::InvalidDigit)
    } else if s[0] == 43 {
        scan_digits(s.drop_first(), 0, max)
    } else {
        scan_digits(s, 0, max)
    }
}

/// The position of the first `b` in `s`, if there is one.
pub fn find_byte(s: &[u8], b: u8) -> (r: Option<usize>)
    ensures
        match r {
            Some(i) => i < s@.len() && index_of(s@, b) == Some(i as int),
            None => index_of(s@, b) is None,
        },
{
    let mut i: usize = 0;
    while i < s.len()
        invariant
            i <= s@.len(),
            forall|j: int| 0 <= j < i ==> s@[j] != b,
        decreases s.len() - i,
    {
        if s[i] == b {
            proof {
                lemma_index_of_found(s@, b, i as int);
            }
            return Some(i);
        }
        i = i + 1;
    }
    proof {
        lemma_index_of_absent(s@, b);
    }
    None
}

/// The first line of `packet`, as `str::lines` yields it on the text of the packet.
pub fn first_line_of(packet: &[u8]) -> (r: Option<&[u8]>)
    ensures
        match r {
            Some(l) => first_line(packet@) == Some(l@),
            None => first_line(packet@) is None,
        },
{
    if packet.len() == 0 {
        return None;
    }
    match find_byte(packet, NEWLINE) {
        None => Some(packet),
        Some(i) => {
            if i > 0 && packet[i - 1] == CARRIAGE_RETURN {
                let l = &packet[0..i - 1];
                assert(l@ =~= packet@.take(i as int).drop_last());
                Some(l)
            } else {
                let l = &packet[0..i];
                assert(l@ =~= packet@.take(i as int));
                Some(l)
            }
        },
    }
}

/// The pieces of `line` cut at commas into at most `n` pieces, as
/// `str::splitn(n, ',')` yields them.
pub fn split_fields_of(line: &[u8], n: usize) -> (r: Vec<&[u8]>)
    requires
        n >= 1,
    ensures
        r@.len() == split_fields(line@, n as nat).len(),
        forall|i: int| 0 <= i < r@.len() ==> #[trigger] r@[i]@ == split_fields(line@, n as nat)[i],
{
    let mut r: Vec<&[u8]> = Vec::new();
    let mut rest: &[u8] = line;
    let mut left: usize = n;
    let mut done = false;
    while left > 1 && !done
        invariant
            1 <= left <= n,
            done ==> index_of(rest@, COMMA) is None,
            split_fields(line@, n as nat) == r@.map_values(|f: &[u8]| f@) + split_fields(
                rest@,
                left as nat,
            ),
        decreases left + (if done { 0int } else { 1int }),
    {
        match find_byte(rest, COMMA) {
            None => {
                done = true;
            },
            Some(i) => {
                assert(i < rest.len());
                let head = &rest[0..i];
                let tail = &rest[i + 1..rest.len()];
                assert(head@ =~= rest@.take(i as int));
                assert(tail@ =~= rest@.skip(i + 1));
                proof {
                    let before = r@.map_values(|f: &[u8]| f@);
                    assert(r@.push(head).map_values(|f: &[u8]| f@) =~= before.push(head@));
                    assert(split_fields(rest@, left as nat) == seq![head@] + split_fields(
                        tail@,
                        (left - 1) as nat,
                    ));
                    assert(before + (seq![head@] + split_fields(tail@, (left - 1) as nat))
                        =~= before.push(head@) + split_fields(tail@, (left - 1) as nat));
                }
                r.push(head);
                rest = tail;
                left = left - 1;
            },
        }
    }
    proof {
        if left == 1 {
            assert(split_fields(rest@, 1) == seq![rest@]);
        } else {
            assert(index_of(rest@, COMMA) is None);
            assert(split_fields(rest@, left as nat) == seq![rest@]);
        }
        assert(r@.push(rest).map_values(|f: &[u8]| f@) =~= r@.map_values(|f: &[u8]| f@).push(
            rest@,
        ));
    }
    r.push(rest);
    proof {
        let all = r@.map_values(|f: &[u8]| f@);
        assert(split_fields(line@, n as nat) =~= all);
        assert forall|i: int| 0 <= i < r@.len() implies #[trigger] r@[i]@ == split_fields(
            line@,
            n as nat,
        )[i] by {
            assert(all[i] == r@[i]@);
        }
    }
    r
}

/// The unsigned number, at most `max`, that `field` writes.
fn parse_bounded(field: &[u8], max: u64) -> (r: Result<u64, NumberError>)
    ensures
        match r {
            Ok(v) => v <= max && parse_unsigned(field@, max as nat) == Ok::<nat, NumberError>(v as nat),
            Err(e) => parse_unsigned(field@, max as nat) == Err::<nat, NumberError>(e),
        },
{
    if field.len() == 0 {
        return Err(NumberError::Empty);
    }
    if field.len() == 1 && (field[0] == 43 || field[0] == 45) {
        return Err(NumberError::InvalidDigit);
    }
    let start: usize = if field[0] == 43 {
        1
    } else {
        0
    };
    let ghost digits = field@.skip(start as int);
    assert(field[0] == 43 ==> digits =~= field@.drop_first());
    assert(field[0] != 43 ==> digits =~= field@);
    assert(parse_unsigned(field@, max as nat) == scan_digits(digits, 0, max as nat));
    let mut acc: u64 = 0;
    let mut i: usize = start;
    while i < field.len()
        invariant
            start <= i <= field@.len(),
            digits == field@.skip(start as int),
            parse_unsigned(field@, max as nat) == scan_digits(digits, 0, max as nat),
            acc <= max,
            scan_digits(digits, 0, max as nat) == scan_digits(
                field@.skip(i as int),
                acc as nat,
                max as nat,
            ),
        decreases field.len() - i,
    {
        let b = field[i];
        assert(field@.skip(i as int)[0] == b);
        assert(field@.skip(i as int).drop_first() =~= field@.skip(i + 1));
        if b < 48 || b > 57 {
            assert(scan_digits(field@.skip(i as int), acc as nat, max as nat) == Err::<nat, NumberError>(NumberError::InvalidDigit));
            return Err(NumberError::InvalidDigit);
        }
        let next: u128 = (acc as u128) * 10 + ((b - 48) as u128);
        if next > max as u128 {
            assert(scan_digits(field@.skip(i as int), acc as nat, max as nat) == Err::<nat, NumberError>(NumberError::PosOverflow));
            return Err(NumberError::PosOverflow);
        }
        acc = next as u64;
        i = i + 1;
    }
    assert(field@.skip(i as int).len() == 0);
    Ok(acc)
}

/// The `u64` that `field` writes, as `str::parse::<u64>` reads it.
pub fn parse_u64(field: &[u8]) -> (r: Result<u64, NumberError>)
    ensures
        match r {
            Ok(v) => parse_unsigned(field@, u64::MAX as nat) == Ok::<nat, NumberError>(v as nat),
            Err(e) => parse_unsigned(field@, u64::MAX as nat) == Err::<nat, NumberError>(e),
        },
{
    parse_bounded(field, u64::MAX)
}

/// The `u32` that `field` writes, as `str::parse::<u32>` reads it.
pub fn parse_u32(field: &[u8]) -> (r: Result<u32, NumberError>)
    ensures
        match r {
            Ok(v) => parse_unsigned(field@, u32::MAX as nat) == Ok::<nat, NumberError>(v as nat),
            Err(e) => parse_unsigned(field@, u32::MAX as nat) == Err::<nat, NumberError>(e),
        },
{
    match parse_bounded(field, u32::MAX as u64) {
        Ok(v) => Ok(v as u32),
        Err(e) => Err(e),
    }
}

/// Whether a received datagram is complete: not empty, and ended by a line feed.
pub fn is_complete_datagram(datagram: &[u8]) -> (b: bool)
    ensures
        b == (datagram@.len() > 0 && datagram@.last() == NEWLINE),
{
    datagram.len() > 0 && datagram[datagram.len() - 1] == NEWLINE
}

/// Whether `rows` gathered rows are enough to be handed to the file writer.
pub fn batch_is_full(rows: usize) -> (b: bool)
    ensures
        b == (rows >= PARQUET_BATCH_ROW_COUNT),
{
    rows >= PARQUET_BATCH_ROW_COUNT
}

/// What happened last in the receive loop of a networked source.
#[derive(Clone, Copy, Debug, PartialEq, Eq, Structural)]
pub enum NetworkEvent {
    /// A datagram was received.
    DatagramReceived,
    /// Nothing was received before the socket's timeout.
    ReceiveTimedOut,
    /// Receiving failed otherwise.
    ReceiveFailed,
    /// A datagram was read into the columns.
    PacketParsed,
    /// The recording was stopped and its closing row appended.
    Stopped,
}

/// What the receive loop does next.
#[derive(Clone, Copy, Debug, PartialEq, Eq, Structural)]
pub enum NetworkAction {
    /// Waits for the next datagram.
    Continue,
    /// Reads the datagram into the columns.
    ParsePacket,
    /// Hands the gathered rows to the file writer as one batch.
    WriteBatch,
    /// Ends the recording with the receive error.
    Fail,
    /// Ends the recording; nothing is left to write.
    Finish,
}

/// The next action of the receive loop after `event`, where `datagram` is what was
/// received (for `DatagramReceived`) and `rows` the rows gathered so far.
pub open spec fn network_action(event: NetworkEvent, datagram: Seq<u8>, rows: nat) -> NetworkAction {
    match event {
        NetworkEvent::DatagramReceived => if datagram.len() > 0 && datagram.last() == NEWLINE {
            NetworkAction::ParsePacket
        } else {
            NetworkAction::Continue
        },
        NetworkEvent::ReceiveTimedOut => NetworkAction::Continue,
        NetworkEvent::ReceiveFailed => NetworkAction::Fail,
        NetworkEvent::PacketParsed => if rows >= PARQUET_BATCH_ROW_COUNT {
            NetworkAction::WriteBatch
        } else {
            NetworkAction::Continue
        },
        NetworkEvent::Stopped => if rows > 0 {
            NetworkAction::WriteBatch
        } else {
            NetworkAction::Finish
        },
    }
}

/// Decides the next step of the receive loop: only a complete datagram is read, a
/// timeout is waited out, any other receive error ends the recording, a full batch
/// is written, and at the stop the rows left (if any) are written.
pub fn network_step(event: NetworkEvent, datagram: &[u8], rows: usize) -> (a: NetworkAction)
    ensures
        a == network_action(event, datagram@, rows as nat),
{
    match event {
        NetworkEvent::DatagramReceived => if is_complete_datagram(datagram) {
            NetworkAction::ParsePacket
        } else {
            NetworkAction::Continue
        },
        NetworkEvent::ReceiveTimedOut => NetworkAction::Continue,
        NetworkEvent::ReceiveFailed => NetworkAction::Fail,
        NetworkEvent::PacketParsed => if batch_is_full(rows) {
            NetworkAction::WriteBatch
        } else {
            NetworkAction::Continue
        },
        NetworkEvent::Stopped => if rows > 0 {
            NetworkAction::WriteBatch
        } else {
            NetworkAction::Finish
        },
    }
}

/// The bytes of the ASCII text `s`.
pub open spec fn ascii_bytes(s: Seq<char>) -> Seq<u8> {
    s.map_values(|c: char| c as u8)
}

/// Reading one more digit after a prefix that reads as `v` gives `10 v + digit`,
/// when that stays within `max`.
proof fn lemma_scan_push(d: Seq<u8>, c: u8, acc: nat, max: nat, v: nat)
    requires
        scan_digits(d, acc, max) == Ok::<nat, NumberError>(v),
        is_digit(c),
        v * 10 + (c - 48) <= max,
    ensures
        scan_digits(d.push(c), acc, max) == Ok::<nat, NumberError>(v * 10 + (c - 48) as nat),
    decreases d.len(),
{
    let r = v * 10 + (c - 48) as nat;
    if d.len() == 0 {
        assert(v == acc);
        assert(d.push(c) =~= seq![c]);
        assert(seq![c].drop_first() =~= Seq::<u8>::empty());
        assert(scan_digits(Seq::<u8>::empty(), r, max) == Ok::<nat, NumberError>(r));
        assert(scan_digits(seq![c], acc, max) == scan_digits(Seq::<u8>::empty(), r, max));
    } else {
        let a = acc * 10 + (d[0] - 48) as nat;
        assert(is_digit(d[0]));
        assert(a <= max);
        assert(scan_digits(d.drop_first(), a, max) == Ok::<nat, NumberError>(v));
        assert(d.push(c).drop_first() =~= d.drop_first().push(c));
        assert(d.push(c)[0] == d[0]);
        lemma_scan_push(d.drop_first(), c, a, max, v);
        assert(scan_digits(d.push(c), acc, max) == scan_digits(d.push(c).drop_first(), a, max));
    }
}

/// The decimal notation of a number consists of ASCII digits.
pub proof fn lemma_decimal_digits(n: nat)
    ensures
        ascii_bytes(decimal(n)).len() > 0,
        forall|i: int| 0 <= i < ascii_bytes(decimal(n)).len() ==> is_digit(
            #[trigger] ascii_bytes(decimal(n))[i],
        ),
    decreases n,
{
    if n >= 10 {
        lemma_decimal_digits(n / 10);
        let d = n % 10;
        assert(ascii_bytes(decimal(n)) =~= ascii_bytes(decimal(n / 10)).push(digit_char(d) as u8));
    }
}

/// Reading the decimal notation of `n` back as an unsigned number of at most `max`
/// gives `n`, whenever `n` is at most `max`.
pub proof fn lemma_decimal_reads_back(n: nat, max: nat)
    requires
        n <= max,
    ensures
        parse_unsigned(ascii_bytes(decimal(n)), max) == Ok::<nat, NumberError>(n),
    decreases n,
{
    lemma_decimal_reads_back_scan(n, max);
    lemma_decimal_digits(n);
    let b = ascii_bytes(decimal(n));
    assert(is_digit(b[0]));
}

proof fn lemma_decimal_reads_back_scan(n: nat, max: nat)
    requires
        n <= max,
    ensures
        scan_digits(ascii_bytes(decimal(n)), 0, max) == Ok::<nat, NumberError>(n),
    decreases n,
{
    if n < 10 {
        let b = ascii_bytes(decimal(n));
        assert(b =~= seq![digit_char(n) as u8]);
        assert(digit_char(n) as u8 == n + 48);
        assert(b.drop_first() =~= Seq::<u8>::empty());
        assert(scan_digits(Seq::<u8>::empty(), n, max) == Ok::<nat, NumberError>(n));
        assert(scan_digits(b, 0, max) == scan_digits(b.drop_first(), n, max));
    } else {
        lemma_decimal_reads_back_scan(n / 10, max);
        let d = n % 10;
        let c = digit_char(d) as u8;
        assert(c == d + 48);
        assert(ascii_bytes(decimal(n)) =~= ascii_bytes(decimal(n / 10)).push(c));
        assert((n / 10) * 10 + d == n);
        lemma_scan_push(ascii_bytes(decimal(n / 10)), c, 0, max, n / 10);
    }
}

/// A timeout is waited out: whatever was received before and however many rows are
/// gathered, the receive loop goes on waiting.
pub proof fn lemma_timeout_is_waited_out(datagram: Seq<u8>, rows: nat)
    ensures
        network_action(NetworkEvent::ReceiveTimedOut, datagram, rows) == NetworkAction::Continue,
{
}

/// The rules of the receive loop: a datagram is read exactly when it is complete
/// (not empty and ended by a line feed); only a failed receive ends the recording
/// with an error; only the stop, with no row left, ends it without writing; a batch
/// is written after a datagram exactly when the rows reach the batch size, and at
/// the stop exactly when a row is left.
pub proof fn lemma_receive_loop_rules(event: NetworkEvent, datagram: Seq<u8>, rows: nat)
    ensures
        network_action(NetworkEvent::DatagramReceived, datagram, rows) == NetworkAction::ParsePacket
            <==> (datagram.len() > 0 && datagram.last() == NEWLINE),
        network_action(NetworkEvent::DatagramReceived, datagram, rows) != NetworkAction::ParsePacket
            ==> network_action(NetworkEvent::DatagramReceived, datagram, rows)
            == NetworkAction::Continue,
        network_action(event, datagram, rows) == NetworkAction::Fail <==> event
            == NetworkEvent::ReceiveFailed,
        network_action(event, datagram, rows) == NetworkAction::Finish <==> (event
            == NetworkEvent::Stopped && rows == 0),
        network_action(NetworkEvent::PacketParsed, datagram, rows) == NetworkAction::WriteBatch
            <==> rows >= PARQUET_BATCH_ROW_COUNT,
        network_action(NetworkEvent::Stopped, datagram, rows) == NetworkAction::WriteBatch <==> rows
            > 0,
{
}

} // verus!
