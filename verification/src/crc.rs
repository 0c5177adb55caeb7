//! CRC-16/ARC engine: polynomial 0xA001 (reflected), initial value 0,
//! no final XOR.  The telegram checksum covers every byte from the
//! opening `/` up to, but not including, the `!` of the trailer.
//!
//! Beyond functional correctness this module proves the error-detection
//! fact the framing protocol relies on: two equal-length messages that
//! differ in exactly one byte never share a CRC, so in particular any
//! single flipped bit inside the covered span is caught.

use vstd::prelude::*;

verus! {

/// One shift-and-conditionally-xor round of the reflected polynomial.
pub open spec fn crc16_round(c: u16) -> u16 {
    if c & 1 == 1 {
        (c >> 1) ^ 0xA001
    } else {
        c >> 1
    }
}

/// `n` rounds applied to `c`.
pub open spec fn crc16_rounds(c: u16, n: nat) -> u16
    decreases n,
{
    if n == 0 {
        c
    } else {
        crc16_round(crc16_rounds(c, (n - 1) as nat))
    }
}

/// Folding one message byte into the running state.
pub open spec fn crc16_byte(c: u16, b: u8) -> u16 {
    crc16_rounds(c ^ (b as u16), 8)
}

/// State after processing the first `n` bytes of `s`.
pub open spec fn crc16_pre(s: Seq<u8>, n: int) -> u16
    decreases n,
{
    if n <= 0 {
        0
    } else {
        crc16_byte(crc16_pre(s, n - 1), s[n - 1])
    }
}

/// The CRC-16/ARC of a whole message.
pub open spec fn crc16_spec(s: Seq<u8>) -> u16 {
    crc16_pre(s, s.len() as int)
}

/// Computes the CRC-16/ARC of `data`.
pub fn crc16(data: &[u8]) -> (r: u16)
    ensures
        r == crc16_spec(data@),
{
    let mut crc: u16 = 0;
    let n: usize = data.len();
    let mut i: usize = 0;
    while i < n
        invariant
            n == data@.len(),
            i <= n,
            crc == crc16_pre(data@, i as int),
        decreases n - i,
    {
        let start: u16 = crc ^ (data[i] as u16);
        let mut c: u16 = start;
        let mut r: usize = 0;
        while r < 8
            invariant
                r <= 8,
                c == crc16_rounds(start, r as nat),
            decreases 8 - r,
        {
            proof {
                assert(crc16_rounds(start, (r + 1) as nat) == crc16_round(
                    crc16_rounds(start, r as nat),
                ));
            }
            if c & 1 == 1 {
                c = (c >> 1) ^ 0xA001;
            } else {
                c = c >> 1;
            }
            r = r + 1;
        }
        crc = c;
        i = i + 1;
    }
    crc
}

/// The state only depends on the bytes already processed.
pub proof fn lemma_crc16_pre_agree(s1: Seq<u8>, s2: Seq<u8>, n: int)
    requires
        0 <= n <= s1.len(),
        n <= s2.len(),
        forall|j: int| 0 <= j < n ==> s1[j] == s2[j],
    ensures
        crc16_pre(s1, n) == crc16_pre(s2, n),
    decreases n,
{
    if n > 0 {
        lemma_crc16_pre_agree(s1, s2, n - 1);
    }
}

/// One round is injective: the dropped low bit is recoverable from the
/// high bit of the result.
proof fn lemma_round_injective(a: u16, b: u16)
    requires
        a != b,
    ensures
        crc16_round(a) != crc16_round(b),
{
    assert((if a & 1 == 1 {
        (a >> 1) ^ 0xA001
    } else {
        a >> 1
    }) != (if b & 1 == 1 {
        (b >> 1) ^ 0xA001
    } else {
        b >> 1
    })) by (bit_vector)
        requires
            a != b,
    ;
}

proof fn lemma_rounds_injective(a: u16, b: u16, n: nat)
    requires
        a != b,
    ensures
        crc16_rounds(a, n) != crc16_rounds(b, n),
    decreases n,
{
    if n > 0 {
        lemma_rounds_injective(a, b, (n - 1) as nat);
        lemma_round_injective(crc16_rounds(a, (n - 1) as nat), crc16_rounds(b, (n - 1) as nat));
    }
}

/// Folding the same byte into different states keeps them apart.
proof fn lemma_byte_injective(a: u16, b: u16, x: u8)
    requires
        a != b,
    ensures
        crc16_byte(a, x) != crc16_byte(b, x),
{
    assert(a ^ (x as u16) != b ^ (x as u16)) by (bit_vector)
        requires
            a != b,
    ;
    lemma_rounds_injective(a ^ (x as u16), b ^ (x as u16), 8);
}

/// Folding different bytes into the same state drives them apart.
proof fn lemma_byte_diff(c: u16, x: u8, y: u8)
    requires
        x != y,
    ensures
        crc16_byte(c, x) != crc16_byte(c, y),
{
    assert(c ^ (x as u16) != c ^ (y as u16)) by (bit_vector)
        requires
            x != y,
    ;
    lemma_rounds_injective(c ^ (x as u16), c ^ (y as u16), 8);
}

proof fn lemma_crc16_pre_one_diff(s1: Seq<u8>, s2: Seq<u8>, i: int, n: int)
    requires
        s1.len() == s2.len(),
        0 <= i < n <= s1.len(),
        s1[i] != s2[i],
        forall|j: int| 0 <= j < n && j != i ==> s1[j] == s2[j],
    ensures
        crc16_pre(s1, n) != crc16_pre(s2, n),
    decreases n,
{
    if n == i + 1 {
        lemma_crc16_pre_agree(s1, s2, i);
        lemma_byte_diff(crc16_pre(s1, i), s1[i], s2[i]);
    } else {
        lemma_crc16_pre_one_diff(s1, s2, i, n - 1);
        lemma_byte_injective(crc16_pre(s1, n - 1), crc16_pre(s2, n - 1), s1[n - 1]);
    }
}

/// CRC-16 catches every single-byte corruption: two equal-length
/// messages that agree everywhere but at index `i` have distinct CRCs.
pub proof fn lemma_crc16_single_byte_diff(s1: Seq<u8>, s2: Seq<u8>, i: int)
    requires
        s1.len() == s2.len(),
        0 <= i < s1.len(),
        s1[i] != s2[i],
        forall|j: int| 0 <= j < s1.len() && j != i ==> s1[j] == s2[j],
    ensures
        crc16_spec(s1) != crc16_spec(s2),
{
    lemma_crc16_pre_one_diff(s1, s2, i, s1.len() as int);
}

} // verus!
