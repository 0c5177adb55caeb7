//! Telegram framer and line decoder.
//!
//! The wire grammar is stated as total specification functions over
//! `Seq<u8>`: each takes the whole input and a position and says
//! whether the construct completes (and where), needs more bytes, or is
//! malformed (and where).  Every executable parser is proved to return
//! exactly what its specification function says.
//!
//! Streaming semantics: a parser that runs off the end of the input
//! while it could still succeed on more data reports `Incomplete`, so
//! the caller can wait instead of discarding bytes.

use vstd::prelude::*;
use vstd::slice::{slice_subrange, slice_to_vec};

use crate::num::{
    dec_value, digit_run_end, hex_run_end, hex_val, is_digit, is_hex_digit, lemma_digit_run_end,
    lemma_hex_run_end, scan_digits, scan_hex_digits, sp_fixed_point, sp_timestamp,
    sp_u32_complete, sp_u8_complete, fixed_point, timestamp, u32_complete, u8_complete,
};
use crate::types::{
    matches_sp, ErrorKind, Line, LineV, ParseErr, Phase, RawLine, RawLineV, Sp, Telegram,
    TelegramV, MAX_COSEM_PER_LINE, MAX_DEVICE_ID, MAX_LINES_PER_TELEGRAM,
};

verus! {

pub const CR: u8 = 0x0D;

pub const LF: u8 = 0x0A;

// ---------------------------------------------------------------------
// Specification-level combinators
// ---------------------------------------------------------------------

/// A single literal byte.
pub open spec fn sp_tag(s: Seq<u8>, pos: int, b: u8) -> Sp<()> {
    if pos >= s.len() {
        Sp::Incomplete
    } else if s[pos] == b {
        Sp::Done(pos + 1, ())
    } else {
        Sp::Fail(pos, ErrorKind::Tag)
    }
}

/// The two-byte line terminator.  A lone `\r` at the end of input may
/// yet become a terminator, so it is incomplete rather than malformed.
pub open spec fn sp_crlf(s: Seq<u8>, pos: int) -> Sp<()> {
    if pos >= s.len() {
        Sp::Incomplete
    } else if s[pos] != CR {
        Sp::Fail(pos, ErrorKind::CrLf)
    } else if pos + 1 >= s.len() {
        Sp::Incomplete
    } else if s[pos + 1] != LF {
        Sp::Fail(pos, ErrorKind::CrLf)
    } else {
        Sp::Done(pos + 2, ())
    }
}

/// Position of the first `\r\n` at or after `pos`, if any.
pub open spec fn find_crlf(s: Seq<u8>, pos: int) -> Option<int>
    decreases s.len() - pos,
{
    if pos < 0 || pos + 1 >= s.len() {
        None
    } else if s[pos] == CR && s[pos + 1] == LF {
        Some(pos)
    } else {
        find_crlf(s, pos + 1)
    }
}

pub proof fn lemma_find_crlf(s: Seq<u8>, pos: int)
    requires
        0 <= pos <= s.len(),
    ensures
        match find_crlf(s, pos) {
            Some(i) => {
                &&& pos <= i
                &&& i + 1 < s.len()
                &&& s[i] == CR
                &&& s[i + 1] == LF
                &&& forall|k: int| pos <= k < i ==> !(#[trigger] s[k] == CR && s[k + 1] == LF)
            },
            None => forall|k: int|
                pos <= k && k + 1 < s.len() ==> !(#[trigger] s[k] == CR && s[k + 1] == LF),
        },
    decreases s.len() - pos,
{
    if pos + 1 < s.len() && !(s[pos] == CR && s[pos + 1] == LF) {
        lemma_find_crlf(s, pos + 1);
    }
}

/// Position of the first `b` at or after `pos`, if any.
pub open spec fn find_byte(s: Seq<u8>, pos: int, b: u8) -> Option<int>
    decreases s.len() - pos,
{
    if pos < 0 || pos >= s.len() {
        None
    } else if s[pos] == b {
        Some(pos)
    } else {
        find_byte(s, pos + 1, b)
    }
}

pub proof fn lemma_find_byte(s: Seq<u8>, pos: int, b: u8)
    requires
        0 <= pos <= s.len(),
    ensures
        match find_byte(s, pos, b) {
            Some(i) => {
                &&& pos <= i < s.len()
                &&& s[i] == b
                &&& forall|k: int| pos <= k < i ==> s[k] != b
            },
            None => forall|k: int| pos <= k < s.len() ==> s[k] != b,
        },
    decreases s.len() - pos,
{
    if pos < s.len() && s[pos] != b {
        lemma_find_byte(s, pos + 1, b);
    }
}

/// The telegram header: `/`, the device identifier, `\r\n`, and an
/// empty line.  The identifier is every byte up to the first `\r\n`.
pub open spec fn sp_device_id(s: Seq<u8>, pos: int) -> Sp<Seq<u8>> {
    match sp_tag(s, pos, 0x2F) {
        Sp::Done(p1, _) => match find_crlf(s, p1) {
            None => Sp::Incomplete,
            Some(i) => match sp_crlf(s, i + 2) {
                Sp::Done(e, _) => Sp::Done(e, s.subrange(p1, i)),
                Sp::Incomplete => Sp::Incomplete,
                Sp::Fail(p, k) => Sp::Fail(p, k),
            },
        },
        Sp::Incomplete => Sp::Incomplete,
        Sp::Fail(p, k) => Sp::Fail(p, k),
    }
}

/// One or more decimal digits, streaming: a run that touches the end
/// of the input may still grow, so it is incomplete.
pub open spec fn sp_digits1(s: Seq<u8>, pos: int) -> Sp<Seq<u8>> {
    let e = digit_run_end(s, pos);
    if e >= s.len() {
        Sp::Incomplete
    } else if e == pos {
        Sp::Fail(pos, ErrorKind::Digit)
    } else {
        Sp::Done(e, s.subrange(pos, e))
    }
}

/// A streaming decimal number that must fit in `u8` (an OBIS group).
pub open spec fn sp_u8s(s: Seq<u8>, pos: int) -> Sp<u8> {
    match sp_digits1(s, pos) {
        Sp::Done(e, d) => if dec_value(d) > 255 {
            Sp::Fail(pos, ErrorKind::Overflow)
        } else {
            Sp::Done(e, dec_value(d) as u8)
        },
        Sp::Incomplete => Sp::Incomplete,
        Sp::Fail(p, k) => Sp::Fail(p, k),
    }
}

/// An OBIS group followed by its separator.
pub open spec fn sp_u8s_then(s: Seq<u8>, pos: int, sep: u8) -> Sp<u8> {
    match sp_u8s(s, pos) {
        Sp::Done(e, v) => match sp_tag(s, e, sep) {
            Sp::Done(e2, _) => Sp::Done(e2, v),
            Sp::Incomplete => Sp::Incomplete,
            Sp::Fail(p, k) => Sp::Fail(p, k),
        },
        Sp::Incomplete => Sp::Incomplete,
        Sp::Fail(p, k) => Sp::Fail(p, k),
    }
}

/// The optional `.F` suffix of an OBIS code.  When it is absent the
/// position rewinds and group F defaults to 255, as the OBIS
/// convention prescribes.
pub open spec fn sp_opt_dot_u8(s: Seq<u8>, pos: int) -> Sp<u8> {
    match sp_tag(s, pos, 0x2E) {
        Sp::Done(p1, _) => match sp_u8s(s, p1) {
            Sp::Done(e, v) => Sp::Done(e, v),
            Sp::Incomplete => Sp::Incomplete,
            Sp::Fail(_, _) => Sp::Done(pos, 255),
        },
        Sp::Incomplete => Sp::Incomplete,
        Sp::Fail(_, _) => Sp::Done(pos, 255),
    }
}

/// The six-group OBIS code `A-B:C.D.E[.F]`.
pub open spec fn sp_obis(s: Seq<u8>, pos: int) -> Sp<Seq<u8>> {
    match sp_u8s_then(s, pos, 0x2D) {
        Sp::Done(p1, a) => match sp_u8s_then(s, p1, 0x3A) {
            Sp::Done(p2, b) => match sp_u8s_then(s, p2, 0x2E) {
                Sp::Done(p3, c) => match sp_u8s_then(s, p3, 0x2E) {
                    Sp::Done(p4, d) => match sp_u8s(s, p4) {
                        Sp::Done(p5, e) => match sp_opt_dot_u8(s, p5) {
                            Sp::Done(p6, f) => Sp::Done(p6, seq![a, b, c, d, e, f]),
                            Sp::Incomplete => Sp::Incomplete,
                            Sp::Fail(p, k) => Sp::Fail(p, k),
                        },
                        Sp::Incomplete => Sp::Incomplete,
                        Sp::Fail(p, k) => Sp::Fail(p, k),
                    },
                    Sp::Incomplete => Sp::Incomplete,
                    Sp::Fail(p, k) => Sp::Fail(p, k),
                },
                Sp::Incomplete => Sp::Incomplete,
                Sp::Fail(p, k) => Sp::Fail(p, k),
            },
            Sp::Incomplete => Sp::Incomplete,
            Sp::Fail(p, k) => Sp::Fail(p, k),
        },
        Sp::Incomplete => Sp::Incomplete,
        Sp::Fail(p, k) => Sp::Fail(p, k),
    }
}

/// One parenthesised COSEM value: `(` then every byte up to the first
/// `)`, with no escaping.
pub open spec fn sp_cosem(s: Seq<u8>, pos: int) -> Sp<Seq<u8>> {
    match sp_tag(s, pos, 0x28) {
        Sp::Done(p1, _) => match find_byte(s, p1, 0x29) {
            None => Sp::Incomplete,
            Some(i) => Sp::Done(i + 1, s.subrange(p1, i)),
        },
        Sp::Incomplete => Sp::Incomplete,
        Sp::Fail(p, k) => Sp::Fail(p, k),
    }
}

/// Zero or more COSEM values, capped at [`MAX_COSEM_PER_LINE`]; the
/// list ends at the first byte that does not open a value.
pub open spec fn sp_cosem_list(s: Seq<u8>, pos: int, acc: Seq<Seq<u8>>) -> Sp<Seq<Seq<u8>>>
    decreases MAX_COSEM_PER_LINE - acc.len(),
{
    match sp_cosem(s, pos) {
        Sp::Fail(_, _) => Sp::Done(pos, acc),
        Sp::Incomplete => Sp::Incomplete,
        Sp::Done(e, c) => if acc.len() >= MAX_COSEM_PER_LINE {
            Sp::Fail(e, ErrorKind::TooLarge)
        } else {
            sp_cosem_list(s, e, acc.push(c))
        },
    }
}

/// One raw data line: OBIS code, COSEM values, terminator.
pub open spec fn sp_raw_line(s: Seq<u8>, pos: int) -> Sp<RawLineV> {
    match sp_obis(s, pos) {
        Sp::Done(p1, obis) => match sp_cosem_list(s, p1, Seq::empty()) {
            Sp::Done(p2, cosem) => match sp_crlf(s, p2) {
                Sp::Done(e, _) => Sp::Done(e, RawLineV { obis, cosem }),
                Sp::Incomplete => Sp::Incomplete,
                Sp::Fail(p, k) => Sp::Fail(p, k),
            },
            Sp::Incomplete => Sp::Incomplete,
            Sp::Fail(p, k) => Sp::Fail(p, k),
        },
        Sp::Incomplete => Sp::Incomplete,
        Sp::Fail(p, k) => Sp::Fail(p, k),
    }
}

// ---------------------------------------------------------------------
// OBIS dispatch
// ---------------------------------------------------------------------

pub open spec fn obis_is(o: Seq<u8>, a: u8, b: u8, c: u8, d: u8, e: u8, f: u8) -> bool {
    o[0] == a && o[1] == b && o[2] == c && o[3] == d && o[4] == e && o[5] == f
}

/// The first COSEM value of a line, required by most decoders.
pub open spec fn sp_field0(raw: RawLineV) -> Result<Seq<u8>, ErrorKind> {
    if raw.cosem.len() == 0 {
        Err(ErrorKind::MissingField)
    } else {
        Ok(raw.cosem[0])
    }
}

pub open spec fn sp_d_u8(raw: RawLineV, w: int) -> Result<u8, ErrorKind> {
    match sp_field0(raw) {
        Err(k) => Err(k),
        Ok(c) => sp_u8_complete(c, w),
    }
}

pub open spec fn sp_d_u32(raw: RawLineV, w: int) -> Result<u32, ErrorKind> {
    match sp_field0(raw) {
        Err(k) => Err(k),
        Ok(c) => sp_u32_complete(c, w),
    }
}

pub open spec fn sp_d_fp(raw: RawLineV, w: int, d: int) -> Result<u32, ErrorKind> {
    match sp_field0(raw) {
        Err(k) => Err(k),
        Ok(c) => sp_fixed_point(c, w, d),
    }
}

pub open spec fn sp_d_ts(raw: RawLineV) -> Result<crate::types::Timestamp, ErrorKind> {
    match sp_field0(raw) {
        Err(k) => Err(k),
        Ok(c) => sp_timestamp(c),
    }
}

/// The fixed dispatch table: which OBIS codes the decoder understands,
/// which COSEM field each reads and with which value decoder.  Group E
/// is a wildcard (the tariff band) in the energy rows; every code not
/// listed here becomes `UnknownObis`.
pub open spec fn sp_dispatch(raw: RawLineV) -> Result<LineV, ErrorKind> {
    let o = raw.obis;
    if obis_is(o, 1, 3, 0, 2, 8, 255) {
        match sp_d_u8(raw, 2) {
            Ok(v) => Ok(LineV::Version(v)),
            Err(k) => Err(k),
        }
    } else if obis_is(o, 0, 0, 1, 0, 0, 255) {
        match sp_d_ts(raw) {
            Ok(ts) => Ok(LineV::Timestamp(ts)),
            Err(k) => Err(k),
        }
    } else if obis_is(o, 0, 0, 96, 1, 1, 255) {
        Ok(LineV::EquipmentId)
    } else if o[0] == 1 && o[1] == 0 && o[2] == 1 && o[3] == 8 && o[5] == 255 {
        match sp_d_fp(raw, 6, 3) {
            Ok(v) => Ok(LineV::Consumed(o[4], v)),
            Err(k) => Err(k),
        }
    } else if o[0] == 1 && o[1] == 0 && o[2] == 2 && o[3] == 8 && o[5] == 255 {
        match sp_d_fp(raw, 6, 3) {
            Ok(v) => Ok(LineV::Produced(o[4], v)),
            Err(k) => Err(k),
        }
    } else if obis_is(o, 0, 0, 96, 14, 0, 255) {
        match sp_d_u8(raw, 4) {
            Ok(v) => Ok(LineV::ActiveTariff(v)),
            Err(k) => Err(k),
        }
    } else if obis_is(o, 1, 0, 1, 7, 0, 255) {
        match sp_d_fp(raw, 2, 3) {
            Ok(v) => Ok(LineV::TotalConsuming(v)),
            Err(k) => Err(k),
        }
    } else if obis_is(o, 1, 0, 2, 7, 0, 255) {
        match sp_d_fp(raw, 2, 3) {
            Ok(v) => Ok(LineV::TotalProducing(v)),
            Err(k) => Err(k),
        }
    } else if obis_is(o, 0, 0, 96, 7, 21, 255) {
        match sp_d_u32(raw, 5) {
            Ok(v) => Ok(LineV::PowerFailures(v)),
            Err(k) => Err(k),
        }
    } else if obis_is(o, 0, 0, 96, 7, 9, 255) {
        match sp_d_u32(raw, 5) {
            Ok(v) => Ok(LineV::LongPowerFailures(v)),
            Err(k) => Err(k),
        }
    } else if obis_is(o, 1, 0, 99, 97, 0, 255) {
        Ok(LineV::PowerFailureLog)
    } else if obis_is(o, 1, 0, 32, 32, 0, 255) {
        match sp_d_u32(raw, 5) {
            Ok(v) => Ok(LineV::VoltageSags(v)),
            Err(k) => Err(k),
        }
    } else if obis_is(o, 1, 0, 32, 36, 0, 255) {
        match sp_d_u32(raw, 5) {
            Ok(v) => Ok(LineV::VoltageSwells(v)),
            Err(k) => Err(k),
        }
    } else if obis_is(o, 1, 0, 31, 7, 0, 255) {
        match sp_d_u32(raw, 3) {
            Ok(v) => Ok(LineV::Current(Phase::L1, v)),
            Err(k) => Err(k),
        }
    } else if obis_is(o, 1, 0, 21, 7, 0, 255) {
        match sp_d_fp(raw, 2, 3) {
            Ok(v) => Ok(LineV::Producing(Phase::L1, v)),
            Err(k) => Err(k),
        }
    } else if obis_is(o, 1, 0, 22, 7, 0, 255) {
        match sp_d_fp(raw, 2, 3) {
            Ok(v) => Ok(LineV::Consuming(Phase::L1, v)),
            Err(k) => Err(k),
        }
    } else {
        Ok(LineV::UnknownObis(o))
    }
}

/// One decoded data line.  A decoder rejection is a structural fault
/// reported at the start of the line; an unrecognised OBIS code is not
/// a fault.
pub open spec fn sp_line(s: Seq<u8>, pos: int) -> Sp<LineV> {
    match sp_raw_line(s, pos) {
        Sp::Done(e, raw) => match sp_dispatch(raw) {
            Ok(lv) => Sp::Done(e, lv),
            Err(k) => Sp::Fail(pos, k),
        },
        Sp::Incomplete => Sp::Incomplete,
        Sp::Fail(p, k) => Sp::Fail(p, k),
    }
}

/// Value of the four hex digits at `p`, big-endian nibble order.
pub open spec fn hex16(s: Seq<u8>, p: int) -> u16 {
    (hex_val(s[p]) * 4096 + hex_val(s[p + 1]) * 256 + hex_val(s[p + 2]) * 16 + hex_val(
        s[p + 3],
    )) as u16
}

/// The checksum trailer `!` + hex digits + `\r\n`.  The first four
/// digits carry the CRC; a trailer with fewer than four is malformed.
pub open spec fn sp_trailer(s: Seq<u8>, pos: int) -> Sp<u16> {
    match sp_tag(s, pos, 0x21) {
        Sp::Done(p1, _) => {
            let e = hex_run_end(s, p1);
            if e >= s.len() {
                Sp::Incomplete
            } else if e == p1 {
                Sp::Fail(p1, ErrorKind::HexDigit)
            } else {
                match sp_crlf(s, e) {
                    Sp::Done(p2, _) => if e - p1 < 4 {
                        Sp::Fail(p1, ErrorKind::HexDigit)
                    } else {
                        Sp::Done(p2, hex16(s, p1))
                    },
                    Sp::Incomplete => Sp::Incomplete,
                    Sp::Fail(p, k) => Sp::Fail(p, k),
                }
            }
        },
        Sp::Incomplete => Sp::Incomplete,
        Sp::Fail(p, k) => Sp::Fail(p, k),
    }
}

/// The telegram body: at each position the trailer is tried first;
/// otherwise one data line is decoded and appended, up to the
/// [`MAX_LINES_PER_TELEGRAM`] cap.
pub open spec fn sp_lines_loop(s: Seq<u8>, pos: int, acc: Seq<LineV>) -> Sp<(Seq<LineV>, u16)>
    decreases MAX_LINES_PER_TELEGRAM - acc.len(),
{
    match sp_trailer(s, pos) {
        Sp::Done(e, c) => Sp::Done(e, (acc, c)),
        Sp::Incomplete => Sp::Incomplete,
        Sp::Fail(_, _) => match sp_line(s, pos) {
            Sp::Done(e, lv) => if acc.len() >= MAX_LINES_PER_TELEGRAM {
                Sp::Fail(pos, ErrorKind::TooLarge)
            } else {
                sp_lines_loop(s, e, acc.push(lv))
            },
            Sp::Incomplete => Sp::Incomplete,
            Sp::Fail(p, k) => Sp::Fail(p, k),
        },
    }
}

/// One whole telegram: header, body, trailer.
pub open spec fn sp_telegram(s: Seq<u8>, pos: int) -> Sp<TelegramV> {
    match sp_device_id(s, pos) {
        Sp::Done(p1, id) => if id.len() > MAX_DEVICE_ID {
            Sp::Fail(p1, ErrorKind::TooLarge)
        } else {
            match sp_lines_loop(s, p1, Seq::empty()) {
                Sp::Done(e, lc) => Sp::Done(
                    e,
                    TelegramV { device_id: id, lines: lc.0, crc: lc.1 },
                ),
                Sp::Incomplete => Sp::Incomplete,
                Sp::Fail(p, k) => Sp::Fail(p, k),
            }
        },
        Sp::Incomplete => Sp::Incomplete,
        Sp::Fail(p, k) => Sp::Fail(p, k),
    }
}

// ---------------------------------------------------------------------
// Executable parsers
// ---------------------------------------------------------------------

/// Scans for the first `\r\n` at or after `pos`.
fn scan_crlf(input: &[u8], pos: usize) -> (r: Option<usize>)
    requires
        pos <= input@.len(),
    ensures
        match find_crlf(input@, pos as int) {
            Some(j) => r matches Some(i) && i == j,
            None => r is None,
        },
{
    let n: usize = input.len();
    let mut i: usize = pos;
    while i < n && i + 1 < n
        invariant
            pos <= i,
            n == input@.len(),
            i <= n,
            find_crlf(input@, pos as int) == find_crlf(input@, i as int),
        decreases n - i,
    {
        if input[i] == CR && input[i + 1] == LF {
            return Some(i);
        }
        i = i + 1;
    }
    None
}

/// Scans for the first `b` at or after `pos`.
fn scan_byte(input: &[u8], pos: usize, b: u8) -> (r: Option<usize>)
    requires
        pos <= input@.len(),
    ensures
        match find_byte(input@, pos as int, b) {
            Some(j) => r matches Some(i) && i == j,
            None => r is None,
        },
{
    let n: usize = input.len();
    let mut i: usize = pos;
    while i < n
        invariant
            pos <= i <= n,
            n == input@.len(),
            find_byte(input@, pos as int, b) == find_byte(input@, i as int, b),
        decreases n - i,
    {
        if input[i] == b {
            return Some(i);
        }
        i = i + 1;
    }
    None
}

/// Parses the telegram header and copies out the device identifier.
pub fn device_id(input: &[u8], pos: usize) -> (r: Result<(usize, Vec<u8>), ParseErr>)
    requires
        pos <= input@.len(),
    ensures
        matches_sp(
            r,
            sp_device_id(input@, pos as int),
            |a: Vec<u8>, b: Seq<u8>| a@ == b,
        ),
        r matches Ok(x) ==> pos + 5 <= x.0 <= input@.len(),
{
    let n: usize = input.len();
    if pos >= n {
        return Err(ParseErr::Incomplete);
    }
    if input[pos] != 0x2F {
        return Err(ParseErr::Failed(pos, ErrorKind::Tag));
    }
    let p1: usize = pos + 1;
    match scan_crlf(input, p1) {
        None => Err(ParseErr::Incomplete),
        Some(i) => {
            proof {
                lemma_find_crlf(input@, p1 as int);
            }
            if n - i == 2 {
                return Err(ParseErr::Incomplete);
            }
            if input[i + 2] != CR {
                return Err(ParseErr::Failed(i + 2, ErrorKind::CrLf));
            }
            if n - i == 3 {
                return Err(ParseErr::Incomplete);
            }
            if input[i + 3] != LF {
                return Err(ParseErr::Failed(i + 2, ErrorKind::CrLf));
            }
            let id: Vec<u8> = slice_to_vec(slice_subrange(input, p1, i));
            Ok((i + 4, id))
        },
    }
}

/// Parses a streaming OBIS group value.
fn dec_u8s(input: &[u8], pos: usize) -> (r: Result<(usize, u8), ParseErr>)
    requires
        pos <= input@.len(),
    ensures
        matches_sp(r, sp_u8s(input@, pos as int), |a: u8, b: u8| a == b),
        r matches Ok(x) ==> pos < x.0 < input@.len(),
{
    let n: usize = input.len();
    let e: usize = scan_digits(input, pos);
    if e >= n {
        return Err(ParseErr::Incomplete);
    }
    if e == pos {
        return Err(ParseErr::Failed(pos, ErrorKind::Digit));
    }
    proof {
        lemma_digit_run_end(input@, pos as int);
    }
    match crate::num::dec_u32_bounded(input, pos, e - pos) {
        None => Err(ParseErr::Failed(pos, ErrorKind::Overflow)),
        Some(v) => {
            if v > 255 {
                Err(ParseErr::Failed(pos, ErrorKind::Overflow))
            } else {
                Ok((e, v as u8))
            }
        },
    }
}

/// Parses a literal separator byte.
fn tag_byte(input: &[u8], pos: usize, b: u8) -> (r: Result<usize, ParseErr>)
    requires
        pos <= input@.len(),
    ensures
        match sp_tag(input@, pos as int, b) {
            Sp::Done(e, _) => r matches Ok(x) && x == e,
            Sp::Incomplete => r matches Err(pe) && pe == ParseErr::Incomplete,
            Sp::Fail(p, k) => {
                &&& r matches Err(pe)
                &&& pe matches ParseErr::Failed(fp, fk)
                &&& fp == p
                &&& fk == k
            },
        },
        r matches Ok(x) ==> x == pos + 1 && x <= input@.len(),
{
    let n: usize = input.len();
    if pos >= n {
        return Err(ParseErr::Incomplete);
    }
    if input[pos] == b {
        Ok(pos + 1)
    } else {
        Err(ParseErr::Failed(pos, ErrorKind::Tag))
    }
}

/// Parses the six-group OBIS code, applying the default for group F.
pub fn obis_code(input: &[u8], pos: usize) -> (r: Result<(usize, [u8; 6]), ParseErr>)
    requires
        pos <= input@.len(),
    ensures
        matches_sp(r, sp_obis(input@, pos as int), |a: [u8; 6], b: Seq<u8>| a@ == b),
        r matches Ok(x) ==> pos < x.0 <= input@.len(),
{
    let (pa, a) = match dec_u8s(input, pos) {
        Ok(x) => x,
        Err(e) => {
            return Err(e);
        },
    };
    let p1 = match tag_byte(input, pa, 0x2D) {
        Ok(x) => x,
        Err(e) => {
            return Err(e);
        },
    };
    let (pb, b) = match dec_u8s(input, p1) {
        Ok(x) => x,
        Err(e) => {
            return Err(e);
        },
    };
    let p2 = match tag_byte(input, pb, 0x3A) {
        Ok(x) => x,
        Err(e) => {
            return Err(e);
        },
    };
    let (pc, c) = match dec_u8s(input, p2) {
        Ok(x) => x,
        Err(e) => {
            return Err(e);
        },
    };
    let p3 = match tag_byte(input, pc, 0x2E) {
        Ok(x) => x,
        Err(e) => {
            return Err(e);
        },
    };
    let (pd, d) = match dec_u8s(input, p3) {
        Ok(x) => x,
        Err(e) => {
            return Err(e);
        },
    };
    let p4 = match tag_byte(input, pd, 0x2E) {
        Ok(x) => x,
        Err(e) => {
            return Err(e);
        },
    };
    let (p5, e) = match dec_u8s(input, p4) {
        Ok(x) => x,
        Err(er) => {
            return Err(er);
        },
    };
    // Optional group F; on a structural mismatch the position rewinds.
    let (p6, f): (usize, u8) = match tag_byte(input, p5, 0x2E) {
        Ok(pf) => match dec_u8s(input, pf) {
            Ok((e2, v)) => (e2, v),
            Err(ParseErr::Incomplete) => {
                return Err(ParseErr::Incomplete);
            },
            Err(ParseErr::Failed(_, _)) => (p5, 255),
        },
        Err(ParseErr::Incomplete) => {
            return Err(ParseErr::Incomplete);
        },
        Err(ParseErr::Failed(_, _)) => (p5, 255),
    };
    let obis: [u8; 6] = [a, b, c, d, e, f];
    proof {
        assert(obis@ =~= seq![a, b, c, d, e, f]);
    }
    Ok((p6, obis))
}

/// Parses one COSEM value and copies out its text.
pub fn cosem(input: &[u8], pos: usize) -> (r: Result<(usize, Vec<u8>), ParseErr>)
    requires
        pos <= input@.len(),
    ensures
        matches_sp(r, sp_cosem(input@, pos as int), |a: Vec<u8>, b: Seq<u8>| a@ == b),
        r matches Ok(x) ==> pos + 2 <= x.0 <= input@.len(),
{
    let n: usize = input.len();
    if pos >= n {
        return Err(ParseErr::Incomplete);
    }
    if input[pos] != 0x28 {
        return Err(ParseErr::Failed(pos, ErrorKind::Tag));
    }
    let p1: usize = pos + 1;
    match scan_byte(input, p1, 0x29) {
        None => Err(ParseErr::Incomplete),
        Some(i) => {
            proof {
                lemma_find_byte(input@, p1 as int, 0x29);
            }
            Ok((i + 1, slice_to_vec(slice_subrange(input, p1, i))))
        },
    }
}

/// Parses one raw data line.
pub fn raw_line(input: &[u8], pos: usize) -> (r: Result<(usize, RawLine), ParseErr>)
    requires
        pos <= input@.len(),
    ensures
        matches_sp(
            r,
            sp_raw_line(input@, pos as int),
            |a: RawLine, b: RawLineV| a@.obis == b.obis && a@.cosem == b.cosem,
        ),
        r matches Ok(x) ==> pos < x.0 <= input@.len(),
{
    let ghost s = input@;
    let n: usize = input.len();
    let (pe, obis) = match obis_code(input, pos) {
        Ok(x) => x,
        Err(e) => {
            return Err(e);
        },
    };
    let mut cs: Vec<Vec<u8>> = Vec::new();
    proof {
        assert(cs.deep_view() =~= Seq::<Seq<u8>>::empty());
    }
    let mut p: usize = pe;
    loop
        invariant
            n == s.len(),
            s == input@,
            pos <= n,
            pe <= p <= n,
            cs.len() <= MAX_COSEM_PER_LINE,
            cs.deep_view().len() == cs.len(),
            sp_obis(s, pos as int) == Sp::Done(pe as int, obis@),
            sp_cosem_list(s, pe as int, Seq::empty()) == sp_cosem_list(
                s,
                p as int,
                cs.deep_view(),
            ),
        ensures
            p <= n,
            sp_cosem_list(s, pe as int, Seq::empty()) == Sp::Done(p as int, cs.deep_view()),
        decreases n - p,
    {
        match cosem(input, p) {
            Err(ParseErr::Incomplete) => {
                return Err(ParseErr::Incomplete);
            },
            Err(ParseErr::Failed(_, _)) => {
                break;
            },
            Ok((e, c)) => {
                if cs.len() >= MAX_COSEM_PER_LINE {
                    proof {
                        assert(sp_cosem_list(s, p as int, cs.deep_view()) == Sp::<
                            Seq<Seq<u8>>,
                        >::Fail(e as int, ErrorKind::TooLarge));
                    }
                    return Err(ParseErr::Failed(e, ErrorKind::TooLarge));
                }
                let ghost old_cs = cs.deep_view();
                cs.push(c);
                proof {
                    assert(cs.deep_view() =~~= old_cs.push(c@));
                }
                p = e;
            },
        }
    }
    if p >= n {
        return Err(ParseErr::Incomplete);
    }
    if input[p] != CR {
        return Err(ParseErr::Failed(p, ErrorKind::CrLf));
    }
    if p + 1 >= n {
        return Err(ParseErr::Incomplete);
    }
    if input[p + 1] != LF {
        return Err(ParseErr::Failed(p, ErrorKind::CrLf));
    }
    Ok((p + 2, RawLine { obis, cosem: cs }))
}

/// Selects a COSEM field; rejecting a line whose decoder needs a field
/// it does not have.
fn field0(raw: &RawLine) -> (r: Result<&Vec<u8>, ErrorKind>)
    ensures
        match (r, sp_field0(raw@)) {
            (Ok(c), Ok(cv)) => c@ == cv,
            (Err(a), Err(b)) => a == b,
            _ => false,
        },
{
    if raw.cosem.len() == 0 {
        Err(ErrorKind::MissingField)
    } else {
        proof {
            assert(raw.cosem.deep_view()[0] == raw.cosem@[0]@);
        }
        Ok(&raw.cosem[0])
    }
}

/// Decodes the first COSEM field as a fixed-width `u8`.
fn d_u8(raw: &RawLine, w: usize) -> (r: Result<u8, ErrorKind>)
    ensures
        r == sp_d_u8(raw@, w as int),
{
    match field0(raw) {
        Err(k) => Err(k),
        Ok(c) => u8_complete(c.as_slice(), w),
    }
}

/// Decodes the first COSEM field as a fixed-width `u32`.
fn d_u32(raw: &RawLine, w: usize) -> (r: Result<u32, ErrorKind>)
    ensures
        r == sp_d_u32(raw@, w as int),
{
    match field0(raw) {
        Err(k) => Err(k),
        Ok(c) => u32_complete(c.as_slice(), w),
    }
}

/// Decodes the first COSEM field as a fixed-point number.
fn d_fp(raw: &RawLine, w: usize, d: usize) -> (r: Result<u32, ErrorKind>)
    ensures
        r == sp_d_fp(raw@, w as int, d as int),
{
    match field0(raw) {
        Err(k) => Err(k),
        Ok(c) => fixed_point(c.as_slice(), w, d),
    }
}

/// Decodes the first COSEM field as a timestamp.
fn d_ts(raw: &RawLine) -> (r: Result<crate::types::Timestamp, ErrorKind>)
    ensures
        r == sp_d_ts(raw@),
{
    match field0(raw) {
        Err(k) => Err(k),
        Ok(c) => timestamp(c.as_slice()),
    }
}

/// Maps a raw line through the dispatch table.
#[verifier::rlimit(50)]
fn dispatch(raw: &RawLine) -> (r: Result<Line, ErrorKind>)
    ensures
        match (r, sp_dispatch(raw@)) {
            (Ok(l), Ok(lv)) => l@ == lv,
            (Err(a), Err(b)) => a == b,
            _ => false,
        },
{
    let o = &raw.obis;
    if o[0] == 1 && o[1] == 3 && o[2] == 0 && o[3] == 2 && o[4] == 8 && o[5] == 255 {
        match d_u8(raw, 2) {
            Err(k) => Err(k),
            Ok(v) => Ok(Line::Version(v)),
        }
    } else if o[0] == 0 && o[1] == 0 && o[2] == 1 && o[3] == 0 && o[4] == 0 && o[5] == 255 {
        match d_ts(raw) {
            Err(k) => Err(k),
            Ok(ts) => Ok(Line::Timestamp(ts)),
        }
    } else if o[0] == 0 && o[1] == 0 && o[2] == 96 && o[3] == 1 && o[4] == 1 && o[5] == 255 {
        Ok(Line::EquipmentId)
    } else if o[0] == 1 && o[1] == 0 && o[2] == 1 && o[3] == 8 && o[5] == 255 {
        match d_fp(raw, 6, 3) {
            Err(k) => Err(k),
            Ok(v) => Ok(Line::Consumed(o[4], v)),
        }
    } else if o[0] == 1 && o[1] == 0 && o[2] == 2 && o[3] == 8 && o[5] == 255 {
        match d_fp(raw, 6, 3) {
            Err(k) => Err(k),
            Ok(v) => Ok(Line::Produced(o[4], v)),
        }
    } else if o[0] == 0 && o[1] == 0 && o[2] == 96 && o[3] == 14 && o[4] == 0 && o[5] == 255 {
        match d_u8(raw, 4) {
            Err(k) => Err(k),
            Ok(v) => Ok(Line::ActiveTariff(v)),
        }
    } else if o[0] == 1 && o[1] == 0 && o[2] == 1 && o[3] == 7 && o[4] == 0 && o[5] == 255 {
        match d_fp(raw, 2, 3) {
            Err(k) => Err(k),
            Ok(v) => Ok(Line::TotalConsuming(v)),
        }
    } else if o[0] == 1 && o[1] == 0 && o[2] == 2 && o[3] == 7 && o[4] == 0 && o[5] == 255 {
        match d_fp(raw, 2, 3) {
            Err(k) => Err(k),
            Ok(v) => Ok(Line::TotalProducing(v)),
        }
    } else if o[0] == 0 && o[1] == 0 && o[2] == 96 && o[3] == 7 && o[4] == 21 && o[5] == 255 {
        match d_u32(raw, 5) {
            Err(k) => Err(k),
            Ok(v) => Ok(Line::PowerFailures(v)),
        }
    } else if o[0] == 0 && o[1] == 0 && o[2] == 96 && o[3] == 7 && o[4] == 9 && o[5] == 255 {
        match d_u32(raw, 5) {
            Err(k) => Err(k),
            Ok(v) => Ok(Line::LongPowerFailures(v)),
        }
    } else if o[0] == 1 && o[1] == 0 && o[2] == 99 && o[3] == 97 && o[4] == 0 && o[5] == 255 {
        Ok(Line::PowerFailureLog)
    } else if o[0] == 1 && o[1] == 0 && o[2] == 32 && o[3] == 32 && o[4] == 0 && o[5] == 255 {
        match d_u32(raw, 5) {
            Err(k) => Err(k),
            Ok(v) => Ok(Line::VoltageSags(v)),
        }
    } else if o[0] == 1 && o[1] == 0 && o[2] == 32 && o[3] == 36 && o[4] == 0 && o[5] == 255 {
        match d_u32(raw, 5) {
            Err(k) => Err(k),
            Ok(v) => Ok(Line::VoltageSwells(v)),
        }
    } else if o[0] == 1 && o[1] == 0 && o[2] == 31 && o[3] == 7 && o[4] == 0 && o[5] == 255 {
        match d_u32(raw, 3) {
            Err(k) => Err(k),
            Ok(v) => Ok(Line::Current(Phase::L1, v)),
        }
    } else if o[0] == 1 && o[1] == 0 && o[2] == 21 && o[3] == 7 && o[4] == 0 && o[5] == 255 {
        match d_fp(raw, 2, 3) {
            Err(k) => Err(k),
            Ok(v) => Ok(Line::Producing(Phase::L1, v)),
        }
    } else if o[0] == 1 && o[1] == 0 && o[2] == 22 && o[3] == 7 && o[4] == 0 && o[5] == 255 {
        match d_fp(raw, 2, 3) {
            Err(k) => Err(k),
            Ok(v) => Ok(Line::Consuming(Phase::L1, v)),
        }
    } else {
        Ok(Line::UnknownObis(*o))
    }
}
/// Parses and decodes one data line.
pub fn line(input: &[u8], pos: usize) -> (r: Result<(usize, Line), ParseErr>)
    requires
        pos <= input@.len(),
    ensures
        matches_sp(r, sp_line(input@, pos as int), |a: Line, b: LineV| a@ == b),
        r matches Ok(x) ==> pos < x.0 <= input@.len(),
{
    let (e, raw) = match raw_line(input, pos) {
        Ok(x) => x,
        Err(er) => {
            return Err(er);
        },
    };
    match dispatch(&raw) {
        Ok(l) => Ok((e, l)),
        Err(k) => Err(ParseErr::Failed(pos, k)),
    }
}

/// Parses the checksum trailer.
pub fn crc(input: &[u8], pos: usize) -> (r: Result<(usize, u16), ParseErr>)
    requires
        pos <= input@.len(),
    ensures
        matches_sp(r, sp_trailer(input@, pos as int), |a: u16, b: u16| a == b),
        r matches Ok(x) ==> pos + 7 <= x.0 <= input@.len(),
{
    let n: usize = input.len();
    if pos >= n {
        return Err(ParseErr::Incomplete);
    }
    if input[pos] != 0x21 {
        return Err(ParseErr::Failed(pos, ErrorKind::Tag));
    }
    let p1: usize = pos + 1;
    let e: usize = scan_hex_digits(input, p1);
    if e >= n {
        return Err(ParseErr::Incomplete);
    }
    if e == p1 {
        return Err(ParseErr::Failed(p1, ErrorKind::HexDigit));
    }
    if input[e] != CR {
        return Err(ParseErr::Failed(e, ErrorKind::CrLf));
    }
    if e + 1 >= n {
        return Err(ParseErr::Incomplete);
    }
    if input[e + 1] != LF {
        return Err(ParseErr::Failed(e, ErrorKind::CrLf));
    }
    if e - p1 < 4 {
        return Err(ParseErr::Failed(p1, ErrorKind::HexDigit));
    }
    proof {
        lemma_hex_run_end(input@, p1 as int);
    }
    let h0: u16 = hex_digit_value(input[p1]) as u16;
    let h1: u16 = hex_digit_value(input[p1 + 1]) as u16;
    let h2: u16 = hex_digit_value(input[p1 + 2]) as u16;
    let h3: u16 = hex_digit_value(input[p1 + 3]) as u16;
    let v: u16 = h0 * 4096 + h1 * 256 + h2 * 16 + h3;
    Ok((e + 2, v))
}

/// Value of one hex digit.
fn hex_digit_value(b: u8) -> (v: u8)
    requires
        is_hex_digit(b),
    ensures
        v == hex_val(b),
        v <= 15,
{
    if b <= 0x39 {
        b - 0x30
    } else if b <= 0x46 {
        b - 0x41 + 10
    } else {
        b - 0x61 + 10
    }
}

/// Parses one whole telegram starting at `pos`: header, up to
/// [`MAX_LINES_PER_TELEGRAM`] decoded data lines in source order, and
/// the checksum trailer.  The returned position is the first byte
/// after the trailer.  The CRC is read, not yet verified; see
/// [`crate::parse::parse`].
pub fn telegram(input: &[u8], pos: usize) -> (r: Result<(usize, Telegram), ParseErr>)
    requires
        pos <= input@.len(),
    ensures
        matches_sp(
            r,
            sp_telegram(input@, pos as int),
            |a: Telegram, b: TelegramV| a@ == b,
        ),
        r matches Ok(x) ==> pos + 12 <= x.0 <= input@.len() && crate::types::telegram_wf(
            x.1@,
        ),
{
    let ghost s = input@;
    let n: usize = input.len();
    let (p1, id) = match device_id(input, pos) {
        Ok(x) => x,
        Err(e) => {
            return Err(e);
        },
    };
    if id.len() > MAX_DEVICE_ID {
        return Err(ParseErr::Failed(p1, ErrorKind::TooLarge));
    }
    let mut lines: Vec<Line> = Vec::new();
    proof {
        assert(lines.deep_view() =~= Seq::<LineV>::empty());
    }
    let mut p: usize = p1;
    loop
        invariant
            n == s.len(),
            s == input@,
            pos + 5 <= p1 <= p <= n,
            lines.len() <= MAX_LINES_PER_TELEGRAM,
            lines.deep_view().len() == lines.len(),
            sp_lines_loop(s, p1 as int, Seq::empty()) == sp_lines_loop(
                s,
                p as int,
                lines.deep_view(),
            ),
            sp_device_id(s, pos as int) == Sp::Done(p1 as int, id@),
            id@.len() <= MAX_DEVICE_ID,
        decreases n - p,
    {
        match crc(input, p) {
            Ok((e, c)) => {
                return Ok((e, Telegram { device_id: id, lines, crc: c }));
            },
            Err(ParseErr::Incomplete) => {
                return Err(ParseErr::Incomplete);
            },
            Err(ParseErr::Failed(_, _)) => {
                match line(input, p) {
                    Ok((e, lv)) => {
                        if lines.len() >= MAX_LINES_PER_TELEGRAM {
                            return Err(ParseErr::Failed(p, ErrorKind::TooLarge));
                        }
                        let ghost old_lines = lines.deep_view();
                        lines.push(lv);
                        proof {
                            assert(lines.deep_view() =~~= old_lines.push(lv@));
                        }
                        p = e;
                    },
                    Err(e) => {
                        return Err(e);
                    },
                }
            },
        }
    }
}

} // verus!
