//! Data model of a decoded telegram, the error taxonomy, and the ghost
//! result type that the specification-level parsers return.

use vstd::prelude::*;

verus! {

/// Upper bound on the number of data lines a telegram may carry.
pub const MAX_LINES_PER_TELEGRAM: usize = 32;

/// Upper bound on the number of parenthesised COSEM values on one line.
pub const MAX_COSEM_PER_LINE: usize = 16;

/// Upper bound on the length of the meter-reported device identifier.
pub const MAX_DEVICE_ID: usize = 32;

/// Electrical phase of a per-phase reading.
#[derive(Clone, Copy, Debug, PartialEq, Eq)]
pub enum Phase {
    L1,
    L2,
    L3,
}

/// Meter clock at telegram generation.  The two-digit wire year is
/// stored with the century applied (`20yy`); `dst` records whether the
/// trailing marker was `S` (summer time) rather than `W` (winter time).
#[derive(Clone, Copy, Debug, PartialEq, Eq)]
pub struct Timestamp {
    pub year: u16,
    pub month: u8,
    pub day: u8,
    pub hour: u8,
    pub minute: u8,
    pub second: u8,
    pub dst: bool,
}

/// One decoded data line.  Fixed-point sources are stored unscaled:
/// `integer_part * 10^decimals + fractional_part`.
#[derive(Clone, Debug, PartialEq, Eq)]
pub enum Line {
    Version(u8),
    Timestamp(Timestamp),
    EquipmentId,
    PowerFailureLog,
    /// Cumulative consumed energy in Wh for one tariff band.
    Consumed(u8, u32),
    /// Cumulative produced energy in Wh for one tariff band.
    Produced(u8, u32),
    ActiveTariff(u8),
    /// Instantaneous consumption in W.
    TotalConsuming(u32),
    /// Instantaneous production in W.
    TotalProducing(u32),
    PowerFailures(u32),
    LongPowerFailures(u32),
    VoltageSags(u32),
    VoltageSwells(u32),
    Current(Phase, u32),
    Consuming(Phase, u32),
    Producing(Phase, u32),
    /// A syntactically valid line whose OBIS code is not in the
    /// dispatch table; carries the raw six-group code.
    UnknownObis([u8; 6]),
}

/// Ghost mirror of [`Line`] whose OBIS payload is a sequence, so that
/// specification code can build it without array literals.
pub enum LineV {
    Version(u8),
    Timestamp(Timestamp),
    EquipmentId,
    PowerFailureLog,
    Consumed(u8, u32),
    Produced(u8, u32),
    ActiveTariff(u8),
    TotalConsuming(u32),
    TotalProducing(u32),
    PowerFailures(u32),
    LongPowerFailures(u32),
    VoltageSags(u32),
    VoltageSwells(u32),
    Current(Phase, u32),
    Consuming(Phase, u32),
    Producing(Phase, u32),
    UnknownObis(Seq<u8>),
}

impl DeepView for Line {
    type V = LineV;

    open spec fn deep_view(&self) -> LineV {
        self.view()
    }
}

impl View for Line {
    type V = LineV;

    open spec fn view(&self) -> LineV {
        match self {
            Line::Version(v) => LineV::Version(*v),
            Line::Timestamp(ts) => LineV::Timestamp(*ts),
            Line::EquipmentId => LineV::EquipmentId,
            Line::PowerFailureLog => LineV::PowerFailureLog,
            Line::Consumed(t, e) => LineV::Consumed(*t, *e),
            Line::Produced(t, e) => LineV::Produced(*t, *e),
            Line::ActiveTariff(t) => LineV::ActiveTariff(*t),
            Line::TotalConsuming(p) => LineV::TotalConsuming(*p),
            Line::TotalProducing(p) => LineV::TotalProducing(*p),
            Line::PowerFailures(c) => LineV::PowerFailures(*c),
            Line::LongPowerFailures(c) => LineV::LongPowerFailures(*c),
            Line::VoltageSags(c) => LineV::VoltageSags(*c),
            Line::VoltageSwells(c) => LineV::VoltageSwells(*c),
            Line::Current(ph, a) => LineV::Current(*ph, *a),
            Line::Consuming(ph, p) => LineV::Consuming(*ph, *p),
            Line::Producing(ph, p) => LineV::Producing(*ph, *p),
            Line::UnknownObis(code) => LineV::UnknownObis(code@),
        }
    }
}

/// Intermediate representation of one data line: the raw OBIS code and
/// the raw text of each parenthesised COSEM value.
#[derive(Clone, Debug, PartialEq, Eq)]
pub struct RawLine {
    pub obis: [u8; 6],
    pub cosem: Vec<Vec<u8>>,
}

/// Ghost mirror of [`RawLine`].
pub struct RawLineV {
    pub obis: Seq<u8>,
    pub cosem: Seq<Seq<u8>>,
}

impl View for RawLine {
    type V = RawLineV;

    open spec fn view(&self) -> RawLineV {
        RawLineV { obis: self.obis@, cosem: self.cosem.deep_view() }
    }
}

/// The fully decoded result of one complete, CRC-checked telegram.
#[derive(Clone, Debug, PartialEq, Eq)]
pub struct Telegram {
    pub device_id: Vec<u8>,
    pub lines: Vec<Line>,
    pub crc: u16,
}

/// Ghost mirror of [`Telegram`].
pub struct TelegramV {
    pub device_id: Seq<u8>,
    pub lines: Seq<LineV>,
    pub crc: u16,
}

impl View for Telegram {
    type V = TelegramV;

    open spec fn view(&self) -> TelegramV {
        TelegramV {
            device_id: self.device_id@,
            lines: self.lines.deep_view(),
            crc: self.crc,
        }
    }
}

/// Bounds that hold of every telegram the parser returns.
pub open spec fn telegram_wf(t: TelegramV) -> bool {
    &&& t.device_id.len() <= MAX_DEVICE_ID
    &&& t.lines.len() <= MAX_LINES_PER_TELEGRAM
}

/// What kind of structural fault a `ParseError` reports.
#[derive(Clone, Copy, Debug, PartialEq, Eq, Structural)]
pub enum ErrorKind {
    /// A required literal byte (`/`, `!`, `(`, a separator) was absent.
    Tag,
    /// A line or header terminator was not `\r\n`.
    CrLf,
    /// A decimal digit was required and absent.
    Digit,
    /// A hexadecimal digit was required and absent, or the checksum
    /// trailer held fewer than four of them.
    HexDigit,
    /// A decimal number did not fit its target integer type.
    Overflow,
    /// A fixed-width numeric field held too few digits.
    FixedWidth,
    /// A timestamp did not end in the `S`/`W` daylight-saving marker.
    DstMarker,
    /// A bounded container (device id, COSEM list, line list) would
    /// have overflowed its fixed capacity.
    TooLarge,
    /// A decoder needed a COSEM value the line did not carry.
    MissingField,
}

/// Why a sub-parser stopped: more bytes are needed, or the input is
/// structurally malformed at `pos`.
#[derive(Clone, Copy, Debug, PartialEq, Eq, Structural)]
pub enum ParseErr {
    Incomplete,
    Failed(usize, ErrorKind),
}

/// The checksum read from the trailer disagreed with the one computed
/// over the telegram bytes.
#[derive(Clone, Copy, Debug, PartialEq, Eq, Structural)]
pub struct CrcMismatch {
    pub calculated: u16,
    pub read: u16,
}

/// Everything [`crate::parse::parse`] can report instead of a telegram.
#[derive(Clone, Copy, Debug, PartialEq, Eq, Structural)]
pub enum TelegramParseError {
    CrcMismatch(CrcMismatch),
    InvalidUtf8,
    Incomplete,
    ParseError(usize, ErrorKind),
}

/// Outcome of a specification-level parser at some position of the
/// input: it finished at `0` with a value, it ran out of input, or the
/// input is malformed at `0` (ghost only).
pub enum Sp<T> {
    Done(int, T),
    Incomplete,
    Fail(int, ErrorKind),
}

impl<T> Sp<T> {
    /// End position of a completed parse.
    pub open spec fn end(self) -> int {
        match self {
            Sp::Done(e, _) => e,
            _ => arbitrary(),
        }
    }

    /// Value of a completed parse.
    pub open spec fn val(self) -> T {
        match self {
            Sp::Done(_, v) => v,
            _ => arbitrary(),
        }
    }
}

/// Relates an executable parser result to its specification-level
/// counterpart; `rel` relates the two value representations.
pub open spec fn matches_sp<TE, TS>(
    r: Result<(usize, TE), ParseErr>,
    sp: Sp<TS>,
    rel: spec_fn(TE, TS) -> bool,
) -> bool {
    match sp {
        Sp::Done(e, v) => {
            &&& r matches Ok(x)
            &&& x.0 == e
            &&& rel(x.1, v)
        },
        Sp::Incomplete => r matches Err(pe) && pe == ParseErr::Incomplete,
        Sp::Fail(p, k) => {
            &&& r matches Err(pe)
            &&& pe matches ParseErr::Failed(fp, fk)
            &&& fp == p
            &&& fk == k
        },
    }
}

} // verus!
