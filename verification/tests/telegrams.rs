//! Whole-telegram behaviour: framing, consumption policy, CRC
//! validation, and serialization of the decoded result.

use dsmr42::{parse, Line, Telegram, TelegramParseError};

const EXAMPLE_TELEGRAM: &[u8] = b"/XMX5LGBBFFB231237741\r\n\r\n\
    1-3:0.2.8(42)\r\n\
    0-0:1.0.0(200208153516W)\r\n\
    0-0:96.1.1(4530303034303031383434303034323134)\r\n\
    1-0:1.8.1(004436.791*kWh)\r\n\
    1-0:2.8.1(000000.000*kWh)\r\n\
    1-0:1.8.2(004234.483*kWh)\r\n\
    1-0:2.8.2(000000.000*kWh)\r\n\
    0-0:96.14.0(0001)\r\n\
    1-0:1.7.0(00.329*kW)\r\n\
    1-0:2.7.0(00.000*kW)\r\n\
    0-0:96.7.21(00002)\r\n\
    0-0:96.7.9(00003)\r\n\
    1-0:99.97.0(3)(0-0:96.7.19)(180726223917S)(0000006462*s)(170325035658W)(0036416374*s)(160128161754W)(0024464269*s)\r\n\
    1-0:32.32.0(00000)\r\n\
    1-0:32.36.0(00000)\r\n\
    0-0:96.13.1()\r\n\
    0-0:96.13.0()\r\n\
    1-0:31.7.0(002*A)\r\n\
    1-0:21.7.0(00.329*kW)\r\n\
    1-0:22.7.0(00.000*kW)\r\n\
    !6130\r\n";

const TWO_TELEGRAMS: &[u8] = b"/XMX5LGBBFFB231237741\r\n\r\n\
    1-3:0.2.8(42)\r\n\
    0-0:1.0.0(200208153516W)\r\n\
    0-0:96.1.1(4530303034303031383434303034323134)\r\n\
    1-0:1.8.1(004436.791*kWh)\r\n\
    1-0:2.8.1(000000.000*kWh)\r\n\
    1-0:1.8.2(004234.483*kWh)\r\n\
    1-0:2.8.2(000000.000*kWh)\r\n\
    0-0:96.14.0(0001)\r\n\
    1-0:1.7.0(00.329*kW)\r\n\
    1-0:2.7.0(00.000*kW)\r\n\
    0-0:96.7.21(00002)\r\n\
    0-0:96.7.9(00003)\r\n\
    1-0:99.97.0(3)(0-0:96.7.19)(180726223917S)(0000006462*s)(170325035658W)(0036416374*s)(160128161754W)(0024464269*s)\r\n\
    1-0:32.32.0(00000)\r\n\
    1-0:32.36.0(00000)\r\n\
    0-0:96.13.1()\r\n\
    0-0:96.13.0()\r\n\
    1-0:31.7.0(002*A)\r\n\
    1-0:21.7.0(00.329*kW)\r\n\
    1-0:22.7.0(00.000*kW)\r\n\
    !6130\r\n/XMX5LGBBFFB231237741\r\n\r\n\
    1-3:0.2.8(42)\r\n\
    0-0:1.0.0(200208153516W)\r\n\
    0-0:96.1.1(4530303034303031383434303034323134)\r\n\
    1-0:1.8.1(004436.791*kWh)\r\n\
    1-0:2.8.1(000000.000*kWh)\r\n\
    1-0:1.8.2(004234.483*kWh)\r\n\
    1-0:2.8.2(000000.000*kWh)\r\n\
    0-0:96.14.0(0001)\r\n\
    1-0:1.7.0(00.329*kW)\r\n\
    1-0:2.7.0(00.000*kW)\r\n\
    0-0:96.7.21(00002)\r\n\
    0-0:96.7.9(00003)\r\n\
    1-0:99.97.0(3)(0-0:96.7.19)(180726223917S)(0000006462*s)(170325035658W)(0036416374*s)(160128161754W)(0024464269*s)\r\n\
    1-0:32.32.0(00000)\r\n\
    1-0:32.36.0(00000)\r\n\
    0-0:96.13.1()\r\n\
    0-0:96.13.0()\r\n\
    1-0:31.7.0(002*A)\r\n\
    1-0:21.7.0(00.329*kW)\r\n\
    1-0:22.7.0(00.000*kW)\r\n\
    !6130\r\n";

#[test]
fn test_serialize() {
    let (_read, res) = parse(EXAMPLE_TELEGRAM);
    let res = res.unwrap();
    let s = res.serialize();
    println!("{}", s);
}

#[test]
fn telegram_parses() {
    let (read, res) = parse(EXAMPLE_TELEGRAM);
    let res = res.unwrap();
    assert_eq!(EXAMPLE_TELEGRAM.len(), read);
    println!("{:?}", res);
}

#[test]
fn two_telegrams_parse_successively() {
    let (read1, res) = parse(TWO_TELEGRAMS);
    let _telegram1 = res.unwrap();
    let (read2, res) = parse(&TWO_TELEGRAMS[read1..]);
    let _telegram2 = res.unwrap();

    assert_eq!(TWO_TELEGRAMS.len(), read1 + read2);
}

#[test]
fn incomplete_telegram_err_incomplete() {
    for length in 0..EXAMPLE_TELEGRAM.len() {
        let (read, res) = parse(&EXAMPLE_TELEGRAM[..length]);
        match res {
            Err(TelegramParseError::Incomplete) => {}
            other => {
                panic!("Expected incomplete but got {:?}", other);
            }
        }
        assert_eq!(0, read);
    }
}

#[test]
fn simple_telegram_parses() {
    let res = dsmr42::telegram(
        b"/XMX1000\r\n\r\n1-3:0.2.8(42)\r\n0-0:1.0.0(200208153506W)\r\n!FFFF\r\n",
        0,
    );
    let (end, tel) = res.unwrap();
    assert_eq!(
        "/XMX1000\r\n\r\n1-3:0.2.8(42)\r\n0-0:1.0.0(200208153506W)\r\n!FFFF\r\n".len(),
        end
    );
    assert_eq!(b"XMX1000".as_slice(), tel.device_id.as_slice());
    assert_eq!(2, tel.lines.len());
    assert_eq!(65535, tel.crc);
}

/// Builds a telegram around `body` with a correct checksum trailer.
/// The covered span runs through the `!` that opens the trailer.
fn with_crc(body: &[u8]) -> Vec<u8> {
    let mut v = body.to_vec();
    v.push(b'!');
    let crc = dsmr42::crc16(&v);
    v.extend_from_slice(format!("{:04X}\r\n", crc).as_bytes());
    v
}

#[test]
fn example_scenario_decodes() {
    let (read, res) = parse(EXAMPLE_TELEGRAM);
    let tel: Telegram = res.unwrap();
    assert_eq!(EXAMPLE_TELEGRAM.len(), read);
    assert_eq!(Line::Version(42), tel.lines[0]);
    assert_eq!(0x6130, tel.crc);
    assert_eq!(b"XMX5LGBBFFB231237741".as_slice(), tel.device_id.as_slice());
}

#[test]
fn checksum_mismatch_consumes_whole_telegram() {
    let mut bad = EXAMPLE_TELEGRAM.to_vec();
    let n = bad.len();
    // Replace the trailer checksum 6130 with 0000.
    bad[n - 6] = b'0';
    bad[n - 5] = b'0';
    bad[n - 4] = b'0';
    bad[n - 3] = b'0';
    let (read, res) = parse(&bad);
    assert_eq!(n, read);
    match res {
        Err(TelegramParseError::CrcMismatch(m)) => {
            assert_eq!(0x6130, m.calculated);
            assert_eq!(0x0000, m.read);
        }
        other => panic!("Expected checksum mismatch but got {:?}", other),
    }
}

#[test]
fn single_bit_flip_is_caught() {
    let mut bad = EXAMPLE_TELEGRAM.to_vec();
    // Flip one bit inside the CRC-covered span (a device-id byte).
    bad[1] ^= 0x01;
    let (read, res) = parse(&bad);
    assert_eq!(EXAMPLE_TELEGRAM.len(), read);
    match res {
        Err(TelegramParseError::CrcMismatch(m)) => {
            assert!(m.calculated != m.read);
        }
        other => panic!("Expected checksum mismatch but got {:?}", other),
    }
}

#[test]
fn unknown_obis_is_tolerated() {
    let t = with_crc(b"/T\r\n\r\n1-2:3.4.5(x)\r\n1-3:0.2.8(42)\r\n");
    let (read, res) = parse(&t);
    let tel = res.unwrap();
    assert_eq!(t.len(), read);
    assert_eq!(2, tel.lines.len());
    assert_eq!(Line::UnknownObis([1, 2, 3, 4, 5, 255]), tel.lines[0]);
    assert_eq!(Line::Version(42), tel.lines[1]);
}

#[test]
fn thirty_three_lines_too_large() {
    let mut body = b"/T\r\n\r\n".to_vec();
    for _ in 0..33 {
        body.extend_from_slice(b"1-0:31.7.0(002*A)\r\n");
    }
    body.extend_from_slice(b"!FFFF\r\n");
    let (read, res) = parse(&body);
    assert_eq!(1, read);
    match res {
        Err(TelegramParseError::ParseError(_, dsmr42::ErrorKind::TooLarge)) => {}
        other => panic!("Expected TooLarge but got {:?}", other),
    }
}

#[test]
fn thirty_two_lines_fit() {
    let mut body = b"/T\r\n\r\n".to_vec();
    for _ in 0..32 {
        body.extend_from_slice(b"1-0:31.7.0(002*A)\r\n");
    }
    let t = with_crc(&body);
    let (read, res) = parse(&t);
    let tel = res.unwrap();
    assert_eq!(t.len(), read);
    assert_eq!(32, tel.lines.len());
}

#[test]
fn serialized_output_is_exact() {
    let t = with_crc(b"/XMX1000\r\n\r\n1-3:0.2.8(42)\r\n0-0:1.0.0(200208153516W)\r\n0-0:96.14.0(0001)\r\n1-0:31.7.0(002*A)\r\n");
    let (_, res) = parse(&t);
    let tel = res.unwrap();
    assert_eq!(
        "{\"dsmr_version\": 42,\
         \"timestamp\": \"2020-02-08T15:35:16+01:00\",\
         \"active_tariff\": 1,\
         \"l1_current\": 2}",
        tel.serialize()
    );
}

#[test]
fn silent_lines_are_omitted_from_output() {
    // An equipment id line first, then a value: no stray separator.
    let t = with_crc(b"/X\r\n\r\n0-0:96.1.1(45)\r\n1-3:0.2.8(42)\r\n");
    let (_, res) = parse(&t);
    let tel = res.unwrap();
    assert_eq!("{\"dsmr_version\": 42}", tel.serialize());
}

#[test]
fn garbage_resynchronises_byte_by_byte() {
    // One garbage byte, then a full telegram: the first call consumes
    // exactly one byte, the second consumes the telegram.
    let mut buf = b"X".to_vec();
    let t = with_crc(b"/T\r\n\r\n1-3:0.2.8(42)\r\n");
    buf.extend_from_slice(&t);
    let (read, res) = parse(&buf);
    assert_eq!(1, read);
    assert!(matches!(res, Err(TelegramParseError::ParseError(0, _))));
    let (read2, res2) = parse(&buf[read..]);
    assert_eq!(t.len(), read2);
    assert!(res2.is_ok());
}

#[test]
fn invalid_utf8_is_skipped() {
    let (read, res) = parse(b"\xFF/T\r\n\r\n");
    assert_eq!(1, read);
    assert!(matches!(res, Err(TelegramParseError::InvalidUtf8)));
}

#[test]
fn truncated_utf8_waits_for_more() {
    // 0xC3 opens a two-byte character that has not arrived yet.
    let (read, res) = parse(b"/T\xC3");
    assert_eq!(0, read);
    assert!(matches!(res, Err(TelegramParseError::Incomplete)));
}
