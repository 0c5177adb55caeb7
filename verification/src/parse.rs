//! Top-level entry point: decode exactly one telegram from the front
//! of the caller's receive buffer, and report how many bytes it may
//! drop whatever the outcome.
//!
//! The consumption policy is the contract the caller's buffer loop
//! relies on:
//!  * `Incomplete` consumes 0 bytes — wait for more data;
//!  * a structural `ParseError` consumes 1 byte — resynchronise
//!    byte by byte, so a valid telegram later in the buffer survives;
//!  * a framed telegram consumes its whole span, whether its checksum
//!    matched (`Ok`) or not (`CrcMismatch`);
//!  * malformed text consumes up to and including the offending
//!    bytes, but a multi-byte character cut off at the end of the
//!    buffer counts as `Incomplete`.

use vstd::prelude::*;
use vstd::slice::slice_subrange;

use crate::crc::{crc16, crc16_spec, lemma_crc16_pre_agree};
use crate::framer::{sp_telegram, telegram};
use crate::types::{
    telegram_wf, ErrorKind, ParseErr, Sp, Telegram, TelegramParseError, TelegramV,
};
use crate::utf8::{utf8_check, utf8_scan, Utf8Check};

verus! {

/// Ghost mirror of [`TelegramParseError`] with unbounded positions.
pub enum TelegramParseErrorV {
    CrcMismatch { calculated: u16, read: u16 },
    InvalidUtf8,
    Incomplete,
    ParseError(int, ErrorKind),
}

/// What [`parse`] returns, stated over the input alone: how many bytes
/// are consumed and with what outcome.
pub open spec fn sp_parse(s: Seq<u8>) -> (int, Result<TelegramV, TelegramParseErrorV>) {
    match utf8_scan(s, 0) {
        Utf8Check::Invalid(v, e) => (v + e, Err(TelegramParseErrorV::InvalidUtf8)),
        Utf8Check::Truncated(_) => (0, Err(TelegramParseErrorV::Incomplete)),
        Utf8Check::Valid => match sp_telegram(s, 0) {
            Sp::Done(end, t) => {
                let c = crc16_spec(s.take(end - 6));
                if t.crc != c {
                    (
                        end,
                        Err(TelegramParseErrorV::CrcMismatch { calculated: c, read: t.crc }),
                    )
                } else {
                    (end, Ok(t))
                }
            },
            Sp::Incomplete => (0, Err(TelegramParseErrorV::Incomplete)),
            Sp::Fail(p, k) => (1, Err(TelegramParseErrorV::ParseError(p, k))),
        },
    }
}

/// The executable error agrees with its ghost counterpart.
pub open spec fn err_matches(e: TelegramParseError, ev: TelegramParseErrorV) -> bool {
    match ev {
        TelegramParseErrorV::CrcMismatch { calculated, read } => {
            &&& e matches TelegramParseError::CrcMismatch(m)
            &&& m.calculated == calculated
            &&& m.read == read
        },
        TelegramParseErrorV::InvalidUtf8 => e == TelegramParseError::InvalidUtf8,
        TelegramParseErrorV::Incomplete => e == TelegramParseError::Incomplete,
        TelegramParseErrorV::ParseError(p, k) => {
            &&& e matches TelegramParseError::ParseError(ep, ek)
            &&& ep == p
            &&& ek == k
        },
    }
}

/// Attempts to decode exactly one telegram starting at offset 0 of
/// `input`, returning how many bytes were consumed together with the
/// telegram or the reason there is none.  Never panics; on every
/// outcome the consumed count follows the policy stated by
/// [`sp_parse`].
pub fn parse(input: &[u8]) -> (r: (usize, Result<Telegram, TelegramParseError>))
    ensures
        ({
            let (c, sr) = sp_parse(input@);
            &&& r.0 == c
            &&& match (r.1, sr) {
                (Ok(t), Ok(tv)) => t@ == tv && telegram_wf(t@),
                (Err(e), Err(ev)) => err_matches(e, ev),
                _ => false,
            }
        }),
{
    let n: usize = input.len();
    match utf8_check(input) {
        Err((v, Some(l))) => {
            proof {
                assert(v + l <= n);
            }
            (v + l, Err(TelegramParseError::InvalidUtf8))
        },
        Err((_, None)) => (0, Err(TelegramParseError::Incomplete)),
        Ok(()) => match telegram(input, 0) {
            Ok((end, t)) => {
                let covered = slice_subrange(input, 0, end - 6);
                let c = crc16(covered);
                if t.crc != c {
                    proof {
                        lemma_crc16_pre_agree(
                            input@.subrange(0, end - 6),
                            input@.take(end - 6),
                            end - 6,
                        );
                    }
                    (
                        end,
                        Err(
                            TelegramParseError::CrcMismatch(
                                crate::types::CrcMismatch { calculated: c, read: t.crc },
                            ),
                        ),
                    )
                } else {
                    proof {
                        lemma_crc16_pre_agree(
                            input@.subrange(0, end - 6),
                            input@.take(end - 6),
                            end - 6,
                        );
                    }
                    (end, Ok(t))
                }
            },
            Err(ParseErr::Incomplete) => (0, Err(TelegramParseError::Incomplete)),
            Err(ParseErr::Failed(p, k)) => (1, Err(TelegramParseError::ParseError(p, k))),
        },
    }
}

} // verus!
