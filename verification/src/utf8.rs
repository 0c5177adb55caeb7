//! Byte-to-text gate.
//!
//! The framer runs only over well-formed UTF-8, as the meter speaks an
//! ASCII protocol.  The validator distinguishes a provably malformed
//! byte sequence (the caller should discard it) from a multi-byte
//! character cut off at the end of the buffer (the caller should wait
//! for more data), mirroring the standard "maximal subpart"
//! convention: on a fault it reports the length of the valid prefix
//! and how many bytes the offending sequence's valid start spans.

use vstd::prelude::*;

verus! {

/// A UTF-8 continuation byte.
pub open spec fn is_cont(b: u8) -> bool {
    0x80 <= b < 0xC0
}

/// Admissible second byte for a lead byte `b0` of a three- or
/// four-byte sequence (the ranges that exclude overlong encodings,
/// surrogates and values past U+10FFFF).
pub open spec fn cont2_ok(b0: u8, b1: u8) -> bool {
    if b0 == 0xE0 {
        0xA0 <= b1 <= 0xBF
    } else if b0 == 0xED {
        0x80 <= b1 <= 0x9F
    } else if b0 == 0xF0 {
        0x90 <= b1 <= 0xBF
    } else if b0 == 0xF4 {
        0x80 <= b1 <= 0x8F
    } else {
        is_cont(b1)
    }
}

/// Verdict of scanning `s` from a character boundary onwards.
pub enum Utf8Check {
    /// Everything up to the end is well formed.
    Valid,
    /// The sequence starting at `0` is malformed; its first `1` bytes
    /// are the longest valid start it has.
    Invalid(int, int),
    /// The bytes from `0` to the end are the valid start of a sequence
    /// that needs more bytes.
    Truncated(int),
}

/// Scans `s` from position `pos`, which must be a character boundary.
pub open spec fn utf8_scan(s: Seq<u8>, pos: int) -> Utf8Check
    decreases s.len() - pos,
{
    if pos < 0 || pos >= s.len() {
        Utf8Check::Valid
    } else {
        let b0 = s[pos];
        if b0 < 0x80 {
            utf8_scan(s, pos + 1)
        } else if 0xC2 <= b0 <= 0xDF {
            if pos + 1 >= s.len() {
                Utf8Check::Truncated(pos)
            } else if !is_cont(s[pos + 1]) {
                Utf8Check::Invalid(pos, 1)
            } else {
                utf8_scan(s, pos + 2)
            }
        } else if 0xE0 <= b0 <= 0xEF {
            if pos + 1 >= s.len() {
                Utf8Check::Truncated(pos)
            } else if !cont2_ok(b0, s[pos + 1]) {
                Utf8Check::Invalid(pos, 1)
            } else if pos + 2 >= s.len() {
                Utf8Check::Truncated(pos)
            } else if !is_cont(s[pos + 2]) {
                Utf8Check::Invalid(pos, 2)
            } else {
                utf8_scan(s, pos + 3)
            }
        } else if 0xF0 <= b0 <= 0xF4 {
            if pos + 1 >= s.len() {
                Utf8Check::Truncated(pos)
            } else if !cont2_ok(b0, s[pos + 1]) {
                Utf8Check::Invalid(pos, 1)
            } else if pos + 2 >= s.len() {
                Utf8Check::Truncated(pos)
            } else if !is_cont(s[pos + 2]) {
                Utf8Check::Invalid(pos, 2)
            } else if pos + 3 >= s.len() {
                Utf8Check::Truncated(pos)
            } else if !is_cont(s[pos + 3]) {
                Utf8Check::Invalid(pos, 3)
            } else {
                utf8_scan(s, pos + 4)
            }
        } else {
            Utf8Check::Invalid(pos, 1)
        }
    }
}

/// The whole buffer is well-formed UTF-8.
pub open spec fn is_utf8(s: Seq<u8>) -> bool {
    utf8_scan(s, 0) == Utf8Check::Valid
}

/// Admissible second byte, executable form.
fn cont2(b0: u8, b1: u8) -> (r: bool)
    ensures
        r == cont2_ok(b0, b1),
{
    if b0 == 0xE0 {
        0xA0 <= b1 && b1 <= 0xBF
    } else if b0 == 0xED {
        0x80 <= b1 && b1 <= 0x9F
    } else if b0 == 0xF0 {
        0x90 <= b1 && b1 <= 0xBF
    } else if b0 == 0xF4 {
        0x80 <= b1 && b1 <= 0x8F
    } else {
        0x80 <= b1 && b1 < 0xC0
    }
}

/// Validates `input`; on a fault reports the valid prefix length and,
/// for a malformed (rather than merely truncated) sequence, the length
/// of its longest valid start.
pub fn utf8_check(input: &[u8]) -> (r: Result<(), (usize, Option<usize>)>)
    ensures
        match utf8_scan(input@, 0) {
            Utf8Check::Valid => r is Ok,
            Utf8Check::Invalid(v, e) => {
                &&& r matches Err(x)
                &&& x.0 == v
                &&& x.1 matches Some(l)
                &&& l == e
                &&& v + e <= input@.len()
            },
            Utf8Check::Truncated(v) => {
                &&& r matches Err(x)
                &&& x.0 == v
                &&& x.1 is None
            },
        },
{
    let ghost s = input@;
    let n: usize = input.len();
    let mut pos: usize = 0;
    while pos < n
        invariant
            pos <= n,
            n == s.len(),
            s == input@,
            utf8_scan(s, 0) == utf8_scan(s, pos as int),
        decreases n - pos,
    {
        let b0: u8 = input[pos];
        if b0 < 0x80 {
            pos = pos + 1;
        } else if 0xC2 <= b0 && b0 <= 0xDF {
            if pos + 1 >= n {
                return Err((pos, None));
            }
            let b1: u8 = input[pos + 1];
            if !(0x80 <= b1 && b1 < 0xC0) {
                return Err((pos, Some(1)));
            }
            pos = pos + 2;
        } else if 0xE0 <= b0 && b0 <= 0xEF {
            if pos + 1 >= n {
                return Err((pos, None));
            }
            if !cont2(b0, input[pos + 1]) {
                return Err((pos, Some(1)));
            }
            if pos + 2 >= n {
                return Err((pos, None));
            }
            let b2: u8 = input[pos + 2];
            if !(0x80 <= b2 && b2 < 0xC0) {
                return Err((pos, Some(2)));
            }
            pos = pos + 3;
        } else if 0xF0 <= b0 && b0 <= 0xF4 {
            if pos + 1 >= n {
                return Err((pos, None));
            }
            if !cont2(b0, input[pos + 1]) {
                return Err((pos, Some(1)));
            }
            if pos + 2 >= n {
                return Err((pos, None));
            }
            let b2: u8 = input[pos + 2];
            if !(0x80 <= b2 && b2 < 0xC0) {
                return Err((pos, Some(2)));
            }
            if pos + 3 >= n {
                return Err((pos, None));
            }
            let b3: u8 = input[pos + 3];
            if !(0x80 <= b3 && b3 < 0xC0) {
                return Err((pos, Some(3)));
            }
            pos = pos + 4;
        } else {
            return Err((pos, Some(1)));
        }
    }
    Ok(())
}

/// Appending one well-formed buffer to another keeps the whole well
/// formed: scanning the concatenation from any boundary of the first
/// part succeeds.
pub proof fn lemma_utf8_scan_concat(s1: Seq<u8>, s2: Seq<u8>, pos: int)
    requires
        0 <= pos <= s1.len(),
        utf8_scan(s1, pos) == Utf8Check::Valid,
        utf8_scan(s2, 0) == Utf8Check::Valid,
    ensures
        utf8_scan(s1 + s2, pos) == Utf8Check::Valid,
    decreases s1.len() - pos,
{
    let s = s1 + s2;
    if pos == s1.len() {
        lemma_utf8_scan_shift(s1, s2, 0);
    } else {
        assert(s[pos] == s1[pos]);
        let b0 = s1[pos];
        if b0 < 0x80 {
            lemma_utf8_scan_concat(s1, s2, pos + 1);
        } else if 0xC2 <= b0 <= 0xDF {
            assert(pos + 1 < s1.len() && is_cont(s1[pos + 1]));
            assert(s[pos + 1] == s1[pos + 1]);
            lemma_utf8_scan_concat(s1, s2, pos + 2);
        } else if 0xE0 <= b0 <= 0xEF {
            assert(pos + 2 < s1.len() && cont2_ok(b0, s1[pos + 1]) && is_cont(s1[pos + 2]));
            assert(s[pos + 1] == s1[pos + 1] && s[pos + 2] == s1[pos + 2]);
            lemma_utf8_scan_concat(s1, s2, pos + 3);
        } else {
            assert(0xF0 <= b0 <= 0xF4);
            assert(pos + 3 < s1.len() && cont2_ok(b0, s1[pos + 1]) && is_cont(s1[pos + 2])
                && is_cont(s1[pos + 3]));
            assert(s[pos + 1] == s1[pos + 1] && s[pos + 2] == s1[pos + 2] && s[pos + 3] == s1[pos
                + 3]);
            lemma_utf8_scan_concat(s1, s2, pos + 4);
        }
    }
}

/// Scanning a well-formed second part from inside the concatenation
/// succeeds just the same.
pub proof fn lemma_utf8_scan_shift(s1: Seq<u8>, s2: Seq<u8>, k: int)
    requires
        0 <= k <= s2.len(),
        utf8_scan(s2, k) == Utf8Check::Valid,
    ensures
        utf8_scan(s1 + s2, s1.len() + k) == Utf8Check::Valid,
    decreases s2.len() - k,
{
    let s = s1 + s2;
    let pos = s1.len() + k;
    if k < s2.len() {
        assert(s[pos] == s2[k]);
        let b0 = s2[k];
        if b0 < 0x80 {
            lemma_utf8_scan_shift(s1, s2, k + 1);
        } else if 0xC2 <= b0 <= 0xDF {
            assert(k + 1 < s2.len() && is_cont(s2[k + 1]));
            assert(s[pos + 1] == s2[k + 1]);
            lemma_utf8_scan_shift(s1, s2, k + 2);
        } else if 0xE0 <= b0 <= 0xEF {
            assert(k + 2 < s2.len() && cont2_ok(b0, s2[k + 1]) && is_cont(s2[k + 2]));
            assert(s[pos + 1] == s2[k + 1] && s[pos + 2] == s2[k + 2]);
            lemma_utf8_scan_shift(s1, s2, k + 3);
        } else {
            assert(0xF0 <= b0 <= 0xF4);
            assert(k + 3 < s2.len() && cont2_ok(b0, s2[k + 1]) && is_cont(s2[k + 2]) && is_cont(
                s2[k + 3],
            ));
            assert(s[pos + 1] == s2[k + 1] && s[pos + 2] == s2[k + 2] && s[pos + 3] == s2[k + 3]);
            lemma_utf8_scan_shift(s1, s2, k + 4);
        }
    }
}

/// A prefix of a well-formed buffer is either well formed or ends in
/// the middle of one multi-byte character.
pub proof fn lemma_utf8_truncate(s: Seq<u8>, k: int, pos: int)
    requires
        0 <= pos <= k <= s.len(),
        utf8_scan(s, pos) == Utf8Check::Valid,
    ensures
        utf8_scan(s.take(k), pos) == Utf8Check::Valid || utf8_scan(s.take(k), pos) matches
            Utf8Check::Truncated(_),
    decreases s.len() - pos,
{
    let t = s.take(k);
    if pos < k {
        assert(t[pos] == s[pos]);
        let b0 = s[pos];
        if b0 < 0x80 {
            lemma_utf8_truncate(s, k, pos + 1);
        } else if 0xC2 <= b0 <= 0xDF {
            assert(pos + 1 < s.len() && is_cont(s[pos + 1]));
            if pos + 1 < k {
                assert(t[pos + 1] == s[pos + 1]);
                lemma_utf8_truncate(s, k, pos + 2);
            }
        } else if 0xE0 <= b0 <= 0xEF {
            assert(pos + 2 < s.len() && cont2_ok(b0, s[pos + 1]) && is_cont(s[pos + 2]));
            if pos + 1 < k {
                assert(t[pos + 1] == s[pos + 1]);
                if pos + 2 < k {
                    assert(t[pos + 2] == s[pos + 2]);
                    lemma_utf8_truncate(s, k, pos + 3);
                }
            }
        } else {
            assert(0xF0 <= b0 <= 0xF4);
            assert(pos + 3 < s.len() && cont2_ok(b0, s[pos + 1]) && is_cont(s[pos + 2])
                && is_cont(s[pos + 3]));
            if pos + 1 < k {
                assert(t[pos + 1] == s[pos + 1]);
                if pos + 2 < k {
                    assert(t[pos + 2] == s[pos + 2]);
                    if pos + 3 < k {
                        assert(t[pos + 3] == s[pos + 3]);
                        lemma_utf8_truncate(s, k, pos + 4);
                    }
                }
            }
        }
    }
}

} // verus!
