//! Incremental, allocation-light decoder for DSMR (Dutch Smart Meter
//! Requirements) telegrams: the line-oriented ASCII protocol spoken by
//! residential energy meters over their P1 serial port.
//!
//! The entry point is [`parse`]: it takes the bytes received so far,
//! tries to decode exactly one telegram starting at offset 0, and reports
//! how many bytes the caller must drop from the front of its buffer,
//! whatever the outcome.  Framing, OBIS line decoding, fixed-point value
//! decoding and CRC-16 validation are each specified by a total
//! mathematical model of the wire format, and every executable function
//! is proved to agree with that model.

pub mod types;
pub mod crc;
pub mod num;
pub mod utf8;
pub mod framer;
pub mod parse;
pub mod json;
pub mod random;
pub mod client;
pub mod stream;

pub use types::{
    CrcMismatch, ErrorKind, Line, ParseErr, Phase, RawLine, Telegram, TelegramParseError,
    Timestamp,
};
pub use crc::crc16;
pub use framer::{cosem, device_id, obis_code, raw_line, telegram};
pub use num::{fixed_point, timestamp, u32_complete, u8_complete};
pub use parse::parse;
pub use random::{generate_local_port, Random};
pub use client::TcpClientStore;
