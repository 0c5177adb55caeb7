//! Streaming laws of the parser.
//!
//! The contracts in [`crate::framer`] and [`crate::parse`] pin each
//! function to its specification; this module proves what that
//! specification guarantees a streaming caller:
//!
//! * a whole well-formed telegram with a matching checksum parses to
//!   itself (round-trip framing);
//! * two telegrams back to back parse one after the other, consuming
//!   exactly the first and then exactly the second (resynchronisation);
//! * every strict prefix of a well-formed telegram reports
//!   `Incomplete` and consumes nothing (incomplete-prefix safety);
//! * corrupting any single byte — in particular flipping one bit —
//!   inside the checksum-covered span of a framed telegram makes
//!   `parse` report a checksum mismatch whose two values differ.

use vstd::prelude::*;

use crate::crc::{crc16_spec, lemma_crc16_single_byte_diff};
use crate::framer::{
    find_byte, find_crlf, lemma_find_byte, lemma_find_crlf, sp_cosem, sp_cosem_list,
    sp_device_id, sp_digits1, sp_line, sp_lines_loop, sp_obis, sp_opt_dot_u8, sp_raw_line,
    sp_tag, sp_telegram, sp_trailer, sp_u8s, sp_u8s_then, CR, LF,
};
use crate::num::{digit_run_end, hex_run_end, is_digit, is_hex_digit};
use crate::parse::{sp_parse, TelegramParseErrorV};
use crate::types::{LineV, Sp, TelegramV, MAX_COSEM_PER_LINE, MAX_LINES_PER_TELEGRAM};
use crate::utf8::{is_utf8, lemma_utf8_scan_concat, lemma_utf8_truncate, utf8_scan, Utf8Check};

verus! {

/// `s2` carries `s` unchanged at its front.
pub open spec fn extends(s2: Seq<u8>, s: Seq<u8>) -> bool {
    &&& s2.len() >= s.len()
    &&& forall|j: int| 0 <= j < s.len() ==> #[trigger] s2[j] == s[j]
}

/// `s` is exactly one well-formed telegram frame (checksum aside).
pub open spec fn is_telegram(s: Seq<u8>) -> bool {
    &&& is_utf8(s)
    &&& sp_telegram(s, 0) matches Sp::Done(e, _) && e == s.len()
}

/// The telegram value a well-formed frame denotes.
pub open spec fn telegram_value(s: Seq<u8>) -> TelegramV {
    sp_telegram(s, 0).val()
}

/// The frame's trailer checksum agrees with the checksum of its
/// covered span (everything but the final six bytes).
pub open spec fn crc_ok(s: Seq<u8>) -> bool {
    telegram_value(s).crc == crc16_spec(s.take(s.len() - 6))
}

// ---------------------------------------------------------------------
// Characterisation lemmas: rebuild a search result on an altered input
// ---------------------------------------------------------------------

proof fn lemma_find_crlf_is(s: Seq<u8>, pos: int, i: int)
    requires
        0 <= pos <= i,
        i + 1 < s.len(),
        s[i] == CR,
        s[i + 1] == LF,
        forall|k: int| pos <= k < i ==> !(#[trigger] s[k] == CR && s[k + 1] == LF),
    ensures
        find_crlf(s, pos) == Some(i),
    decreases i - pos,
{
    if pos < i {
        lemma_find_crlf_is(s, pos + 1, i);
    }
}

proof fn lemma_find_crlf_is_none(s: Seq<u8>, pos: int)
    requires
        0 <= pos,
        forall|k: int| pos <= k && k + 1 < s.len() ==> !(#[trigger] s[k] == CR && s[k + 1] == LF),
    ensures
        find_crlf(s, pos) == None::<int>,
    decreases s.len() - pos,
{
    if pos + 1 < s.len() {
        lemma_find_crlf_is_none(s, pos + 1);
    }
}

proof fn lemma_find_byte_is(s: Seq<u8>, pos: int, b: u8, i: int)
    requires
        0 <= pos <= i < s.len(),
        s[i] == b,
        forall|k: int| pos <= k < i ==> s[k] != b,
    ensures
        find_byte(s, pos, b) == Some(i),
    decreases i - pos,
{
    if pos < i {
        lemma_find_byte_is(s, pos + 1, b, i);
    }
}

proof fn lemma_find_byte_is_none(s: Seq<u8>, pos: int, b: u8)
    requires
        0 <= pos,
        forall|k: int| pos <= k < s.len() ==> s[k] != b,
    ensures
        find_byte(s, pos, b) == None::<int>,
    decreases s.len() - pos,
{
    if pos < s.len() {
        lemma_find_byte_is_none(s, pos + 1, b);
    }
}

proof fn lemma_digit_run_end_is(s: Seq<u8>, pos: int, e: int)
    requires
        0 <= pos <= e <= s.len(),
        forall|j: int| pos <= j < e ==> is_digit(#[trigger] s[j]),
        e < s.len() ==> !is_digit(s[e]),
    ensures
        digit_run_end(s, pos) == e,
    decreases e - pos,
{
    if pos < e {
        lemma_digit_run_end_is(s, pos + 1, e);
    }
}

proof fn lemma_hex_run_end_is(s: Seq<u8>, pos: int, e: int)
    requires
        0 <= pos <= e <= s.len(),
        forall|j: int| pos <= j < e ==> is_hex_digit(#[trigger] s[j]),
        e < s.len() ==> !is_hex_digit(s[e]),
    ensures
        hex_run_end(s, pos) == e,
    decreases e - pos,
{
    if pos < e {
        lemma_hex_run_end_is(s, pos + 1, e);
    }
}

// ---------------------------------------------------------------------
// Extension: a completed parse is unchanged by appending bytes
// ---------------------------------------------------------------------

proof fn lemma_device_id_ext(s: Seq<u8>, s2: Seq<u8>, pos: int)
    requires
        0 <= pos <= s.len(),
        extends(s2, s),
        sp_device_id(s, pos) matches Sp::Done(_, _),
    ensures
        sp_device_id(s2, pos) == sp_device_id(s, pos),
{
    lemma_find_crlf(s, pos + 1);
    let i = find_crlf(s, pos + 1)->Some_0;
    lemma_find_crlf_is(s2, pos + 1, i);
    assert(s2.subrange(pos + 1, i) =~= s.subrange(pos + 1, i));
}

proof fn lemma_digits1_ext(s: Seq<u8>, s2: Seq<u8>, pos: int)
    requires
        0 <= pos <= s.len(),
        extends(s2, s),
        sp_digits1(s, pos) matches Sp::Done(_, _),
    ensures
        sp_digits1(s2, pos) == sp_digits1(s, pos),
{
    let e = digit_run_end(s, pos);
    crate::num::lemma_digit_run_end(s, pos);
    lemma_digit_run_end_is(s2, pos, e);
    assert(s2.subrange(pos, e) =~= s.subrange(pos, e));
}

proof fn lemma_u8s_ext(s: Seq<u8>, s2: Seq<u8>, pos: int)
    requires
        0 <= pos <= s.len(),
        extends(s2, s),
        sp_u8s(s, pos) matches Sp::Done(_, _),
    ensures
        sp_u8s(s2, pos) == sp_u8s(s, pos),
{
    lemma_digits1_ext(s, s2, pos);
}

/// A failing group parse (the absent optional F group) is also stable:
/// the byte that made it fail is still there.
proof fn lemma_u8s_fail_ext(s: Seq<u8>, s2: Seq<u8>, pos: int)
    requires
        0 <= pos <= s.len(),
        extends(s2, s),
        sp_u8s(s, pos) matches Sp::Fail(_, _),
    ensures
        sp_u8s(s2, pos) == sp_u8s(s, pos),
{
    let e = digit_run_end(s, pos);
    crate::num::lemma_digit_run_end(s, pos);
    if e == pos {
        lemma_digit_run_end_is(s2, pos, pos);
    } else {
        lemma_digit_run_end_is(s2, pos, e);
        assert(s2.subrange(pos, e) =~= s.subrange(pos, e));
    }
}

proof fn lemma_u8s_then_ext(s: Seq<u8>, s2: Seq<u8>, pos: int, sep: u8)
    requires
        0 <= pos <= s.len(),
        extends(s2, s),
        sp_u8s_then(s, pos, sep) matches Sp::Done(_, _),
    ensures
        sp_u8s_then(s2, pos, sep) == sp_u8s_then(s, pos, sep),
{
    lemma_u8s_ext(s, s2, pos);
    if let Sp::Done(e, _) = sp_u8s(s, pos) {
        lemma_sp_u8s_done_bounds(s, pos);
    }
}

proof fn lemma_opt_dot_ext(s: Seq<u8>, s2: Seq<u8>, pos: int)
    requires
        0 <= pos <= s.len(),
        extends(s2, s),
        sp_opt_dot_u8(s, pos) matches Sp::Done(_, _),
    ensures
        sp_opt_dot_u8(s2, pos) == sp_opt_dot_u8(s, pos),
{
    match sp_tag(s, pos, 0x2E) {
        Sp::Done(p1, _) => {
            match sp_u8s(s, p1) {
                Sp::Done(_, _) => lemma_u8s_ext(s, s2, p1),
                Sp::Fail(_, _) => lemma_u8s_fail_ext(s, s2, p1),
                Sp::Incomplete => {},
            }
        },
        _ => {},
    }
}

proof fn lemma_obis_ext(s: Seq<u8>, s2: Seq<u8>, pos: int)
    requires
        0 <= pos <= s.len(),
        extends(s2, s),
        sp_obis(s, pos) matches Sp::Done(_, _),
    ensures
        sp_obis(s2, pos) == sp_obis(s, pos),
{
    if let Sp::Done(p1, _) = sp_u8s_then(s, pos, 0x2D) {
        lemma_u8s_then_ext(s, s2, pos, 0x2D);
        lemma_sp_u8s_then_done_bounds(s, pos, 0x2D);
        if let Sp::Done(p2, _) = sp_u8s_then(s, p1, 0x3A) {
            lemma_u8s_then_ext(s, s2, p1, 0x3A);
            lemma_sp_u8s_then_done_bounds(s, p1, 0x3A);
            if let Sp::Done(p3, _) = sp_u8s_then(s, p2, 0x2E) {
                lemma_u8s_then_ext(s, s2, p2, 0x2E);
                lemma_sp_u8s_then_done_bounds(s, p2, 0x2E);
                if let Sp::Done(p4, _) = sp_u8s_then(s, p3, 0x2E) {
                    lemma_u8s_then_ext(s, s2, p3, 0x2E);
                    lemma_sp_u8s_then_done_bounds(s, p3, 0x2E);
                    if let Sp::Done(p5, _) = sp_u8s(s, p4) {
                        lemma_u8s_ext(s, s2, p4);
                        lemma_sp_u8s_done_bounds(s, p4);
                        lemma_opt_dot_ext(s, s2, p5);
                    }
                }
            }
        }
    }
}

proof fn lemma_cosem_ext(s: Seq<u8>, s2: Seq<u8>, pos: int)
    requires
        0 <= pos <= s.len(),
        extends(s2, s),
        sp_cosem(s, pos) matches Sp::Done(_, _),
    ensures
        sp_cosem(s2, pos) == sp_cosem(s, pos),
{
    lemma_find_byte(s, pos + 1, 0x29);
    let i = find_byte(s, pos + 1, 0x29)->Some_0;
    lemma_find_byte_is(s2, pos + 1, 0x29, i);
    assert(s2.subrange(pos + 1, i) =~= s.subrange(pos + 1, i));
}

proof fn lemma_cosem_list_ext(s: Seq<u8>, s2: Seq<u8>, pos: int, acc: Seq<Seq<u8>>)
    requires
        0 <= pos <= s.len(),
        extends(s2, s),
        sp_cosem_list(s, pos, acc) matches Sp::Done(_, _),
    ensures
        sp_cosem_list(s2, pos, acc) == sp_cosem_list(s, pos, acc),
    decreases MAX_COSEM_PER_LINE - acc.len(),
{
    match sp_cosem(s, pos) {
        Sp::Fail(_, _) => {
            // The attempt failed on its opening byte, which is intact.
        },
        Sp::Done(e, _) => {
            lemma_cosem_ext(s, s2, pos);
            if acc.len() < MAX_COSEM_PER_LINE {
                lemma_sp_cosem_done_bounds(s, pos);
                lemma_cosem_list_ext(s, s2, e, acc.push(sp_cosem(s, pos).val()));
            }
        },
        Sp::Incomplete => {},
    }
}

/// A completed COSEM value ends inside the input and past its start.
proof fn lemma_sp_cosem_done_bounds(s: Seq<u8>, pos: int)
    requires
        0 <= pos <= s.len(),
        sp_cosem(s, pos) matches Sp::Done(_, _),
    ensures
        pos + 2 <= sp_cosem(s, pos).end() <= s.len(),
{
    lemma_find_byte(s, pos + 1, 0x29);
}

proof fn lemma_raw_line_ext(s: Seq<u8>, s2: Seq<u8>, pos: int)
    requires
        0 <= pos <= s.len(),
        extends(s2, s),
        sp_raw_line(s, pos) matches Sp::Done(_, _),
    ensures
        sp_raw_line(s2, pos) == sp_raw_line(s, pos),
{
    if let Sp::Done(p1, _) = sp_obis(s, pos) {
        lemma_obis_ext(s, s2, pos);
        lemma_sp_obis_done_bounds(s, pos);
        if let Sp::Done(p2, _) = sp_cosem_list(s, p1, Seq::empty()) {
            lemma_cosem_list_ext(s, s2, p1, Seq::empty());
            lemma_sp_cosem_list_done_bounds(s, p1, Seq::empty());
        }
    }
}

/// A completed OBIS code ends inside the input and past its start.
proof fn lemma_sp_obis_done_bounds(s: Seq<u8>, pos: int)
    requires
        0 <= pos <= s.len(),
        sp_obis(s, pos) matches Sp::Done(_, _),
    ensures
        pos < sp_obis(s, pos).end() <= s.len(),
{
    if let Sp::Done(p1, _) = sp_u8s_then(s, pos, 0x2D) {
        lemma_sp_u8s_then_done_bounds(s, pos, 0x2D);
        if let Sp::Done(p2, _) = sp_u8s_then(s, p1, 0x3A) {
            lemma_sp_u8s_then_done_bounds(s, p1, 0x3A);
            if let Sp::Done(p3, _) = sp_u8s_then(s, p2, 0x2E) {
                lemma_sp_u8s_then_done_bounds(s, p2, 0x2E);
                if let Sp::Done(p4, _) = sp_u8s_then(s, p3, 0x2E) {
                    lemma_sp_u8s_then_done_bounds(s, p3, 0x2E);
                    if let Sp::Done(p5, _) = sp_u8s(s, p4) {
                        lemma_sp_u8s_done_bounds(s, p4);
                        lemma_sp_opt_dot_done_bounds(s, p5);
                    }
                }
            }
        }
    }
}

proof fn lemma_sp_u8s_done_bounds(s: Seq<u8>, pos: int)
    requires
        0 <= pos <= s.len(),
        sp_u8s(s, pos) matches Sp::Done(_, _),
    ensures
        pos < sp_u8s(s, pos).end() < s.len(),
{
    crate::num::lemma_digit_run_end(s, pos);
}

proof fn lemma_sp_u8s_then_done_bounds(s: Seq<u8>, pos: int, sep: u8)
    requires
        0 <= pos <= s.len(),
        sp_u8s_then(s, pos, sep) matches Sp::Done(_, _),
    ensures
        pos < sp_u8s_then(s, pos, sep).end() <= s.len(),
{
    lemma_sp_u8s_done_bounds(s, pos);
}

proof fn lemma_sp_opt_dot_done_bounds(s: Seq<u8>, pos: int)
    requires
        0 <= pos <= s.len(),
        sp_opt_dot_u8(s, pos) matches Sp::Done(_, _),
    ensures
        pos <= sp_opt_dot_u8(s, pos).end() <= s.len(),
{
    match sp_tag(s, pos, 0x2E) {
        Sp::Done(p1, _) => {
            match sp_u8s(s, p1) {
                Sp::Done(_, _) => lemma_sp_u8s_done_bounds(s, p1),
                _ => {},
            }
        },
        _ => {},
    }
}

proof fn lemma_sp_cosem_list_done_bounds(s: Seq<u8>, pos: int, acc: Seq<Seq<u8>>)
    requires
        0 <= pos <= s.len(),
        sp_cosem_list(s, pos, acc) matches Sp::Done(_, _),
    ensures
        pos <= sp_cosem_list(s, pos, acc).end() <= s.len(),
    decreases MAX_COSEM_PER_LINE - acc.len(),
{
    match sp_cosem(s, pos) {
        Sp::Done(e, _) => {
            if acc.len() < MAX_COSEM_PER_LINE {
                lemma_sp_cosem_done_bounds(s, pos);
                lemma_sp_cosem_list_done_bounds(s, e, acc.push(sp_cosem(s, pos).val()));
            }
        },
        _ => {},
    }
}

/// A completed raw line ends inside the input and past its start.
proof fn lemma_sp_raw_line_done_bounds(s: Seq<u8>, pos: int)
    requires
        0 <= pos <= s.len(),
        sp_raw_line(s, pos) matches Sp::Done(_, _),
    ensures
        pos < sp_raw_line(s, pos).end() <= s.len(),
{
    if let Sp::Done(p1, _) = sp_obis(s, pos) {
        lemma_sp_obis_done_bounds(s, pos);
        if let Sp::Done(p2, _) = sp_cosem_list(s, p1, Seq::empty()) {
            lemma_sp_cosem_list_done_bounds(s, p1, Seq::empty());
        }
    }
}

proof fn lemma_line_ext(s: Seq<u8>, s2: Seq<u8>, pos: int)
    requires
        0 <= pos <= s.len(),
        extends(s2, s),
        sp_line(s, pos) matches Sp::Done(_, _),
    ensures
        sp_line(s2, pos) == sp_line(s, pos),
{
    lemma_raw_line_ext(s, s2, pos);
}

/// The first byte of a decoded line is a digit (the OBIS A group).
proof fn lemma_line_starts_with_digit(s: Seq<u8>, pos: int)
    requires
        0 <= pos <= s.len(),
        sp_line(s, pos) matches Sp::Done(_, _),
    ensures
        pos < s.len(),
        is_digit(s[pos]),
{
    crate::num::lemma_digit_run_end(s, pos);
}

proof fn lemma_trailer_ext(s: Seq<u8>, s2: Seq<u8>, pos: int)
    requires
        0 <= pos <= s.len(),
        extends(s2, s),
        sp_trailer(s, pos) matches Sp::Done(_, _),
    ensures
        sp_trailer(s2, pos) == sp_trailer(s, pos),
{
    let p1 = pos + 1;
    let e = hex_run_end(s, p1);
    crate::num::lemma_hex_run_end(s, p1);
    lemma_hex_run_end_is(s2, p1, e);
}

/// A completed trailer ends inside the input and past its start.
proof fn lemma_sp_trailer_done_bounds(s: Seq<u8>, pos: int)
    requires
        0 <= pos <= s.len(),
        sp_trailer(s, pos) matches Sp::Done(_, _),
    ensures
        pos + 7 <= sp_trailer(s, pos).end() <= s.len(),
{
    crate::num::lemma_hex_run_end(s, pos + 1);
}

/// A completed line ends inside the input and past its start.
proof fn lemma_sp_line_done_bounds(s: Seq<u8>, pos: int)
    requires
        0 <= pos <= s.len(),
        sp_line(s, pos) matches Sp::Done(_, _),
    ensures
        pos < sp_line(s, pos).end() <= s.len(),
{
    lemma_sp_raw_line_done_bounds(s, pos);
}

proof fn lemma_lines_loop_ext(s: Seq<u8>, s2: Seq<u8>, pos: int, acc: Seq<LineV>)
    requires
        0 <= pos <= s.len(),
        extends(s2, s),
        sp_lines_loop(s, pos, acc) matches Sp::Done(_, _),
    ensures
        sp_lines_loop(s2, pos, acc) == sp_lines_loop(s, pos, acc),
    decreases MAX_LINES_PER_TELEGRAM - acc.len(),
{
    match sp_trailer(s, pos) {
        Sp::Done(_, _) => {
            lemma_trailer_ext(s, s2, pos);
        },
        Sp::Fail(_, _) => {
            match sp_line(s, pos) {
                Sp::Done(e, lv) => {
                    lemma_line_starts_with_digit(s, pos);
                    // A digit is not `!`, so the trailer attempt still
                    // fails on its first byte in the extension.
                    lemma_line_ext(s, s2, pos);
                    if acc.len() < MAX_LINES_PER_TELEGRAM {
                        lemma_sp_line_done_bounds(s, pos);
                        lemma_lines_loop_ext(s, s2, e, acc.push(lv));
                    }
                },
                _ => {},
            }
        },
        Sp::Incomplete => {},
    }
}

/// A completed telegram frame is unchanged by appending bytes.
pub proof fn lemma_telegram_ext(s: Seq<u8>, s2: Seq<u8>, pos: int)
    requires
        0 <= pos <= s.len(),
        extends(s2, s),
        sp_telegram(s, pos) matches Sp::Done(_, _),
    ensures
        sp_telegram(s2, pos) == sp_telegram(s, pos),
{
    if let Sp::Done(p1, id) = sp_device_id(s, pos) {
        lemma_device_id_ext(s, s2, pos);
        lemma_sp_device_id_done_bounds(s, pos);
        if id.len() <= crate::types::MAX_DEVICE_ID {
            lemma_lines_loop_ext(s, s2, p1, Seq::empty());
        }
    }
}

/// A completed header ends inside the input and past its start.
proof fn lemma_sp_device_id_done_bounds(s: Seq<u8>, pos: int)
    requires
        0 <= pos <= s.len(),
        sp_device_id(s, pos) matches Sp::Done(_, _),
    ensures
        pos + 5 <= sp_device_id(s, pos).end() <= s.len(),
{
    lemma_find_crlf(s, pos + 1);
}

} // verus!
