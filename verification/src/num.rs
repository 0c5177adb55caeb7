//! Numeric primitives: digit classification, decimal and hexadecimal
//! valuation, and the fixed-width value decoders that run on the text
//! of a single COSEM field (two-digit integers, zero-padded counters,
//! fixed-point decimals, timestamps).
//!
//! The decoders here see a complete, parenthesis-delimited value, so
//! unlike the streaming framer they never report `Incomplete`: a value
//! that stops short is structurally malformed.

use vstd::prelude::*;

use crate::types::{ErrorKind, Timestamp};

verus! {

pub open spec fn is_digit(b: u8) -> bool {
    0x30 <= b <= 0x39
}

pub open spec fn is_hex_digit(b: u8) -> bool {
    is_digit(b) || (0x41 <= b <= 0x46) || (0x61 <= b <= 0x66)
}

pub open spec fn digit_val(b: u8) -> nat {
    (b - 0x30) as nat
}

pub open spec fn hex_val(b: u8) -> nat {
    if is_digit(b) {
        (b - 0x30) as nat
    } else if 0x41 <= b <= 0x46 {
        (b - 0x41 + 10) as nat
    } else {
        (b - 0x61 + 10) as nat
    }
}

/// Value of a string of decimal digits, most significant first.
pub open spec fn dec_value(s: Seq<u8>) -> nat
    decreases s.len(),
{
    if s.len() == 0 {
        0
    } else {
        dec_value(s.drop_last()) * 10 + digit_val(s.last())
    }
}

pub open spec fn pow10(n: nat) -> nat
    decreases n,
{
    if n == 0 {
        1
    } else {
        10 * pow10((n - 1) as nat)
    }
}

/// First position at or after `pos` that does not hold a decimal digit
/// (or the end of `s`).
pub open spec fn digit_run_end(s: Seq<u8>, pos: int) -> int
    decreases s.len() - pos,
{
    if pos < 0 || pos >= s.len() {
        pos
    } else if is_digit(s[pos]) {
        digit_run_end(s, pos + 1)
    } else {
        pos
    }
}

/// First position at or after `pos` that does not hold a hex digit.
pub open spec fn hex_run_end(s: Seq<u8>, pos: int) -> int
    decreases s.len() - pos,
{
    if pos < 0 || pos >= s.len() {
        pos
    } else if is_hex_digit(s[pos]) {
        hex_run_end(s, pos + 1)
    } else {
        pos
    }
}

pub proof fn lemma_digit_run_end(s: Seq<u8>, pos: int)
    requires
        0 <= pos <= s.len(),
    ensures
        pos <= digit_run_end(s, pos) <= s.len(),
        forall|j: int| pos <= j < digit_run_end(s, pos) ==> is_digit(s[j]),
        digit_run_end(s, pos) < s.len() ==> !is_digit(s[digit_run_end(s, pos)]),
    decreases s.len() - pos,
{
    if pos < s.len() && is_digit(s[pos]) {
        lemma_digit_run_end(s, pos + 1);
    }
}

pub proof fn lemma_hex_run_end(s: Seq<u8>, pos: int)
    requires
        0 <= pos <= s.len(),
    ensures
        pos <= hex_run_end(s, pos) <= s.len(),
        forall|j: int| pos <= j < hex_run_end(s, pos) ==> is_hex_digit(s[j]),
        hex_run_end(s, pos) < s.len() ==> !is_hex_digit(s[hex_run_end(s, pos)]),
    decreases s.len() - pos,
{
    if pos < s.len() && is_hex_digit(s[pos]) {
        lemma_hex_run_end(s, pos + 1);
    }
}

/// Peeling one more digit off the front of a prefix.
pub proof fn lemma_dec_value_take_succ(s: Seq<u8>, i: int)
    requires
        0 <= i < s.len(),
    ensures
        dec_value(s.take(i + 1)) == dec_value(s.take(i)) * 10 + digit_val(s[i]),
{
    assert(s.take(i + 1).drop_last() =~= s.take(i));
    assert(s.take(i + 1).last() == s[i]);
}

/// Extending a digit string never shrinks its value.
pub proof fn lemma_dec_value_take_mono(s: Seq<u8>, i: int, j: int)
    requires
        0 <= i <= j <= s.len(),
    ensures
        dec_value(s.take(i)) <= dec_value(s.take(j)),
    decreases j - i,
{
    if i < j {
        lemma_dec_value_take_mono(s, i, j - 1);
        lemma_dec_value_take_succ(s, j - 1);
    }
}

/// Scans forward from `pos` to the end of the run of decimal digits.
pub fn scan_digits(input: &[u8], pos: usize) -> (e: usize)
    requires
        pos <= input@.len(),
    ensures
        e == digit_run_end(input@, pos as int),
        pos <= e <= input@.len(),
{
    let n: usize = input.len();
    let mut i: usize = pos;
    while i < n && input[i] >= 0x30 && input[i] <= 0x39
        invariant
            pos <= i <= n,
            n == input@.len(),
            digit_run_end(input@, pos as int) == digit_run_end(input@, i as int),
        decreases n - i,
    {
        i = i + 1;
    }
    proof {
        lemma_digit_run_end(input@, i as int);
    }
    i
}

/// Scans forward from `pos` to the end of the run of hex digits.
pub fn scan_hex_digits(input: &[u8], pos: usize) -> (e: usize)
    requires
        pos <= input@.len(),
    ensures
        e == hex_run_end(input@, pos as int),
        pos <= e <= input@.len(),
{
    let n: usize = input.len();
    let mut i: usize = pos;
    while i < n && (
        (input[i] >= 0x30 && input[i] <= 0x39)
        || (input[i] >= 0x41 && input[i] <= 0x46)
        || (input[i] >= 0x61 && input[i] <= 0x66)
    )
        invariant
            pos <= i <= n,
            n == input@.len(),
            hex_run_end(input@, pos as int) == hex_run_end(input@, i as int),
        decreases n - i,
    {
        i = i + 1;
    }
    proof {
        lemma_hex_run_end(input@, i as int);
    }
    i
}

/// Decimal value of `input[start .. start + width]`, or `None` when it
/// exceeds `u32::MAX`.
pub fn dec_u32_bounded(input: &[u8], start: usize, width: usize) -> (r: Option<u32>)
    requires
        start + width <= input@.len(),
        forall|j: int| start <= j < start + width ==> is_digit(input@[j]),
    ensures
        ({
            let v = dec_value(input@.subrange(start as int, start + width));
            match r {
                Some(x) => x == v,
                None => v > u32::MAX,
            }
        }),
{
    let ghost sub = input@.subrange(start as int, start + width);
    let n: usize = input.len();
    let mut acc: u64 = 0;
    let mut i: usize = 0;
    while i < width
        invariant
            i <= width,
            n == input@.len(),
            start + width <= input@.len(),
            sub == input@.subrange(start as int, start + width),
            forall|j: int| start <= j < start + width ==> is_digit(input@[j]),
            acc == dec_value(sub.take(i as int)),
            acc <= u32::MAX,
        decreases width - i,
    {
        proof {
            assert(start + i < n);
            assert(is_digit(input@[start + i]));
            assert(sub[i as int] == input@[start + i]);
            lemma_dec_value_take_succ(sub, i as int);
        }
        let d: u8 = input[start + i] - 0x30;
        acc = acc * 10 + (d as u64);
        i = i + 1;
        if acc > u32::MAX as u64 {
            proof {
                lemma_dec_value_take_mono(sub, i as int, width as int);
                assert(sub.take(width as int) =~= sub);
            }
            return None;
        }
    }
    proof {
        assert(sub.take(width as int) =~= sub);
    }
    Some(acc as u32)
}

/// Fixed-width unsigned decoder, specification: exactly `width` leading
/// digits, decoded as `u8`; trailing text is ignored.
pub open spec fn sp_u8_complete(c: Seq<u8>, width: int) -> Result<u8, ErrorKind> {
    if digit_run_end(c, 0) < width {
        Err(ErrorKind::FixedWidth)
    } else if dec_value(c.take(width)) > 255 {
        Err(ErrorKind::Overflow)
    } else {
        Ok(dec_value(c.take(width)) as u8)
    }
}

/// Decodes a `width`-digit unsigned integer from the front of `input`.
pub fn u8_complete(input: &[u8], width: usize) -> (r: Result<u8, ErrorKind>)
    ensures
        r == sp_u8_complete(input@, width as int),
{
    let e: usize = scan_digits(input, 0);
    if e < width {
        return Err(ErrorKind::FixedWidth);
    }
    proof {
        lemma_digit_run_end(input@, 0);
        assert(input@.subrange(0, width as int) =~= input@.take(width as int));
    }
    match dec_u32_bounded(input, 0, width) {
        None => Err(ErrorKind::Overflow),
        Some(v) => {
            if v > 255 {
                Err(ErrorKind::Overflow)
            } else {
                Ok(v as u8)
            }
        },
    }
}

/// Fixed-width unsigned decoder to `u32`.
pub open spec fn sp_u32_complete(c: Seq<u8>, width: int) -> Result<u32, ErrorKind> {
    if digit_run_end(c, 0) < width {
        Err(ErrorKind::FixedWidth)
    } else if dec_value(c.take(width)) > u32::MAX {
        Err(ErrorKind::Overflow)
    } else {
        Ok(dec_value(c.take(width)) as u32)
    }
}

/// Decodes a `width`-digit unsigned integer from the front of `input`.
pub fn u32_complete(input: &[u8], width: usize) -> (r: Result<u32, ErrorKind>)
    ensures
        r == sp_u32_complete(input@, width as int),
{
    let e: usize = scan_digits(input, 0);
    if e < width {
        return Err(ErrorKind::FixedWidth);
    }
    proof {
        lemma_digit_run_end(input@, 0);
        assert(input@.subrange(0, width as int) =~= input@.take(width as int));
    }
    match dec_u32_bounded(input, 0, width) {
        None => Err(ErrorKind::Overflow),
        Some(v) => Ok(v),
    }
}

/// Fixed-point decoder, specification: `width` integer digits, a
/// literal dot, `decimals` fractional digits; the result is the
/// unscaled integer `int_part * 10^decimals + frac_part`.
pub open spec fn sp_fixed_point(c: Seq<u8>, width: int, decimals: int) -> Result<
    u32,
    ErrorKind,
> {
    if digit_run_end(c, 0) < width {
        Err(ErrorKind::FixedWidth)
    } else if width >= c.len() || c[width] != 0x2E {
        Err(ErrorKind::Tag)
    } else if digit_run_end(c, width + 1) < width + 1 + decimals {
        Err(ErrorKind::FixedWidth)
    } else {
        let v = dec_value(c.take(width)) * pow10(decimals as nat) + dec_value(
            c.subrange(width + 1, width + 1 + decimals),
        );
        if v > u32::MAX {
            Err(ErrorKind::Overflow)
        } else {
            Ok(v as u32)
        }
    }
}

/// `10^n` for small `n`.
fn pow10_u64(n: usize) -> (r: u64)
    requires
        n <= 9,
    ensures
        r == pow10(n as nat),
{
    let mut r: u64 = 1;
    let mut i: usize = 0;
    while i < n
        invariant
            i <= n <= 9,
            r == pow10(i as nat),
            r <= 1_000_000_000,
        decreases n - i,
    {
        proof {
            assert(pow10((i + 1) as nat) == 10 * pow10(i as nat));
            assert(pow10(9) == 1_000_000_000) by {
                reveal_with_fuel(pow10, 10);
            }
            lemma_pow10_le((i + 1) as nat, 9);
        }
        r = r * 10;
        i = i + 1;
    }
    r
}

proof fn lemma_pow10_ge_one(n: nat)
    ensures
        pow10(n) >= 1,
    decreases n,
{
    if n > 0 {
        lemma_pow10_ge_one((n - 1) as nat);
    }
}

proof fn lemma_pow10_big(n: nat)
    requires
        n >= 10,
    ensures
        pow10(n) > u32::MAX,
    decreases n,
{
    if n == 10 {
        assert(pow10(10) == 10_000_000_000) by {
            reveal_with_fuel(pow10, 11);
        }
    } else {
        lemma_pow10_big((n - 1) as nat);
    }
}

/// Decodes a fixed-point decimal from the front of `input` into its
/// unscaled integer value.
pub fn fixed_point(input: &[u8], width: usize, decimals: usize) -> (r: Result<u32, ErrorKind>)
    ensures
        r == sp_fixed_point(input@, width as int, decimals as int),
{
    let e: usize = scan_digits(input, 0);
    if e < width {
        return Err(ErrorKind::FixedWidth);
    }
    if width >= input.len() || input[width] != 0x2E {
        return Err(ErrorKind::Tag);
    }
    let fs: usize = width + 1;
    let e2: usize = scan_digits(input, fs);
    if e2 - fs < decimals {
        return Err(ErrorKind::FixedWidth);
    }
    proof {
        lemma_digit_run_end(input@, 0);
        lemma_digit_run_end(input@, fs as int);
        assert(input@.subrange(0, width as int) =~= input@.take(width as int));
    }
    let ghost iv = dec_value(input@.take(width as int));
    let ghost fv = dec_value(input@.subrange(fs as int, fs + decimals));
    let ghost total = iv * pow10(decimals as nat) + fv;
    let int_part: u32 = match dec_u32_bounded(input, 0, width) {
        None => {
            proof {
                lemma_pow10_ge_one(decimals as nat);
                assert(iv * pow10(decimals as nat) >= iv * 1 == iv) by (nonlinear_arith)
                    requires
                        pow10(decimals as nat) >= 1,
                        iv >= 0,
                ;
            }
            return Err(ErrorKind::Overflow);
        },
        Some(v) => v,
    };
    let frac_part: u32 = match dec_u32_bounded(input, fs, decimals) {
        None => {
            return Err(ErrorKind::Overflow);
        },
        Some(v) => v,
    };
    if int_part == 0 {
        proof {
            assert(iv * pow10(decimals as nat) == 0) by (nonlinear_arith)
                requires
                    iv == 0,
            ;
        }
        return Ok(frac_part);
    }
    if decimals > 9 {
        proof {
            lemma_pow10_big(decimals as nat);
            assert(iv * pow10(decimals as nat) >= 1 * pow10(decimals as nat)) by (
            nonlinear_arith)
                requires
                    iv >= 1,
                    pow10(decimals as nat) >= 0,
            ;
        }
        return Err(ErrorKind::Overflow);
    }
    let scale: u64 = pow10_u64(decimals);
    proof {
        assert(pow10(decimals as nat) <= 1_000_000_000) by {
            assert(decimals <= 9);
            assert(pow10(9) == 1_000_000_000) by {
                reveal_with_fuel(pow10, 10);
            }
            lemma_pow10_le(decimals as nat, 9);
        }
        assert(iv * pow10(decimals as nat) <= u32::MAX * 1_000_000_000) by (nonlinear_arith)
            requires
                0 <= iv <= u32::MAX,
                0 <= pow10(decimals as nat) <= 1_000_000_000,
        ;
    }
    let scaled: u64 = (int_part as u64) * scale;
    let total64: u64 = scaled + (frac_part as u64);
    if total64 > u32::MAX as u64 {
        Err(ErrorKind::Overflow)
    } else {
        Ok(total64 as u32)
    }
}

proof fn lemma_pow10_le(m: nat, n: nat)
    requires
        m <= n,
    ensures
        pow10(m) <= pow10(n),
    decreases n,
{
    if m < n {
        lemma_pow10_le(m, (n - 1) as nat);
        lemma_pow10_ge_one((n - 1) as nat);
    }
}

/// Timestamp decoder, specification: twelve digits `YYMMDDHHMMSS`
/// followed by an `S` (summer) or `W` (winter) marker; the century is
/// applied to the two-digit year.
pub open spec fn sp_timestamp(c: Seq<u8>) -> Result<Timestamp, ErrorKind> {
    if digit_run_end(c, 0) < 12 {
        Err(ErrorKind::FixedWidth)
    } else if c.len() <= 12 || (c[12] != 0x53 && c[12] != 0x57) {
        Err(ErrorKind::DstMarker)
    } else {
        Ok(
            Timestamp {
                year: (2000 + dec_value(c.subrange(0, 2))) as u16,
                month: dec_value(c.subrange(2, 4)) as u8,
                day: dec_value(c.subrange(4, 6)) as u8,
                hour: dec_value(c.subrange(6, 8)) as u8,
                minute: dec_value(c.subrange(8, 10)) as u8,
                second: dec_value(c.subrange(10, 12)) as u8,
                dst: c[12] == 0x53,
            },
        )
    }
}

/// Value of a two-digit field of `input` starting at `start`.
fn two_digits(input: &[u8], start: usize) -> (v: u8)
    requires
        start + 2 <= input@.len(),
        is_digit(input@[start as int]),
        is_digit(input@[start as int + 1]),
    ensures
        v == dec_value(input@.subrange(start as int, start as int + 2)),
        v <= 99,
{
    let ghost sub = input@.subrange(start as int, start as int + 2);
    proof {
        assert(sub.len() == 2);
        assert(sub.last() == sub[1]);
        assert(sub.drop_last() =~= seq![sub[0]]);
        assert(seq![sub[0]].drop_last() =~= Seq::<u8>::empty());
        assert(seq![sub[0]].last() == sub[0]);
        assert(dec_value(Seq::<u8>::empty()) == 0);
        assert(dec_value(seq![sub[0]]) == digit_val(sub[0]));
        assert(dec_value(sub) == digit_val(sub[0]) * 10 + digit_val(sub[1]));
        assert(sub[0] == input@[start as int]);
        assert(sub[1] == input@[start as int + 1]);
    }
    let hi: u8 = input[start] - 0x30;
    let lo: u8 = input[start + 1] - 0x30;
    hi * 10 + lo
}

/// Decodes a meter timestamp from the front of `input`.
pub fn timestamp(input: &[u8]) -> (r: Result<Timestamp, ErrorKind>)
    ensures
        r == sp_timestamp(input@),
{
    let e: usize = scan_digits(input, 0);
    if e < 12 {
        return Err(ErrorKind::FixedWidth);
    }
    if input.len() <= 12 || (input[12] != 0x53 && input[12] != 0x57) {
        return Err(ErrorKind::DstMarker);
    }
    proof {
        lemma_digit_run_end(input@, 0);
    }
    let yy: u8 = two_digits(input, 0);
    let month: u8 = two_digits(input, 2);
    let day: u8 = two_digits(input, 4);
    let hour: u8 = two_digits(input, 6);
    let minute: u8 = two_digits(input, 8);
    let second: u8 = two_digits(input, 10);
    Ok(
        Timestamp {
            year: 2000 + yy as u16,
            month,
            day,
            hour,
            minute,
            second,
            dst: input[12] == 0x53,
        },
    )
}

} // verus!
