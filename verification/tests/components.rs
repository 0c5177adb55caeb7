//! Component-level behaviour: line and value decoders, OBIS parsing,
//! the checksum trailer, and the CRC engine.

use dsmr42::{cosem, crc16, obis_code, raw_line, u8_complete, ErrorKind, Line, ParseErr};

const EXAMPLE_TELEGRAM: &[u8] = b"/XMX5LGBBFFB231237741\r\n\r\n\
    1-3:0.2.8(42)\r\n\
    0-0:1.0.0(200208153516W)\r\n\
    0-0:96.1.1(4530303034303031383434303034323134)\r\n\
    1-0:1.8.1(004436.791*kWh)\r\n\
    1-0:2.8.1(000000.000*kWh)\r\n\
    1-0:1.8.2(004234.483*kWh)\r\n\
    1-0:2.8.2(000000.000*kWh)\r\n\
    0-0:96.14.0(0001)\r\n\
    1-0:1.7.0(00.329*kW)\r\n\
    1-0:2.7.0(00.000*kW)\r\n\
    0-0:96.7.21(00002)\r\n\
    0-0:96.7.9(00003)\r\n\
    1-0:99.97.0(3)(0-0:96.7.19)(180726223917S)(0000006462*s)(170325035658W)(0036416374*s)(160128161754W)(0024464269*s)\r\n\
    1-0:32.32.0(00000)\r\n\
    1-0:32.36.0(00000)\r\n\
    0-0:96.13.1()\r\n\
    0-0:96.13.0()\r\n\
    1-0:31.7.0(002*A)\r\n\
    1-0:21.7.0(00.329*kW)\r\n\
    1-0:22.7.0(00.000*kW)\r\n\
    !6130\r\n";

#[test]
fn single_value_line_parses() {
    let res = dsmr42::framer::line(b"1-3:0.2.8(42)\r\n", 0);
    let (_end, line) = res.unwrap();
    match line {
        Line::Version(ver) => assert_eq!(42, ver),
        var => panic!("Unexpected enum variant: {:?}", var),
    }
}

#[test]
fn single_value_raw_line_parses() {
    let input = b"0-0:96.14.0(0002)\r\n";
    let res = raw_line(input, 0);
    let (end, line) = res.unwrap();
    assert_eq!([0, 0, 96, 14, 0, 255], line.obis);
    assert_eq!(b"0002".to_vec(), line.cosem[0]);
    assert_eq!(1, line.cosem.len());
    assert_eq!(input.len(), end);
}

#[test]
fn multiple_value_raw_line_parses() {
    let input = b"0-1:24.2.1(101209110000W)(12785.123*m3)\r\n";
    let res = raw_line(input, 0);
    let (end, line) = res.unwrap();
    assert_eq!([0, 1, 24, 2, 1, 255], line.obis);
    assert_eq!(b"101209110000W".to_vec(), line.cosem[0]);
    assert_eq!(b"12785.123*m3".to_vec(), line.cosem[1]);
    assert_eq!(2, line.cosem.len());
    assert_eq!(input.len(), end);
}

#[test]
fn invalid_cosem_fails() {
    let res = cosem(b"invalid string", 0);
    match res.unwrap_err() {
        ParseErr::Failed(_, _) => {}
        _ => panic!("Expected parse error"),
    }
}

#[test]
fn valid_cosem_parses() {
    let res = cosem(b"(00.000*kW)", 0);
    let (_, value) = res.unwrap();
    assert_eq!(b"00.000*kW".to_vec(), value)
}

#[test]
fn obis_without_tag_f_parses() {
    let input = b"0-0:96.7.21()";
    let res = obis_code(input, 0);
    let (end, obis) = res.unwrap();
    assert_eq!(input.len() - 2, end);
    assert_eq!([0, 0, 96, 7, 21, 255], obis)
}

#[test]
fn obis_with_tag_f_parses() {
    let input = b"255-255:0.1.0.18()";
    let res = obis_code(input, 0);
    let (end, obis) = res.unwrap();
    assert_eq!(input.len() - 2, end);
    assert_eq!([255, 255, 0, 1, 0, 18], obis)
}

#[test]
fn u8_complete_parses() {
    let res = u8_complete(b"38", 2);
    let val = res.unwrap();
    assert_eq!(38, val);
}

#[test]
fn crc_parses() {
    let res = dsmr42::framer::crc(b"!FE01\r\n", 0);
    let (_end, crc) = res.unwrap();
    assert_eq!(65025, crc);
}

#[test]
fn crc16_matches() {
    let data = b"123456789";
    let crc = crc16(data);
    assert_eq!(0xbb3d, crc);
}

#[test]
fn crc16_full_telegram_matches() {
    // CRC (4 bytes) and final CRLF (2 bytes)
    const TRAILER: usize = 6;
    let crc = crc16(&EXAMPLE_TELEGRAM[..EXAMPLE_TELEGRAM.len() - TRAILER]);
    assert_eq!(0x6130, crc);
}

#[test]
fn fixed_point_is_exact() {
    assert_eq!(Ok(4436791), dsmr42::fixed_point(b"004436.791", 6, 3));
    assert_eq!(Ok(329), dsmr42::fixed_point(b"00.329", 2, 3));
    assert_eq!(Ok(0), dsmr42::fixed_point(b"000000.000", 6, 3));
}

#[test]
fn fixed_point_rejects_malformed_input() {
    assert_eq!(
        Err(ErrorKind::FixedWidth),
        dsmr42::fixed_point(b"04436.791", 6, 3)
    );
    assert_eq!(Err(ErrorKind::Tag), dsmr42::fixed_point(b"004436x791", 6, 3));
    assert_eq!(Err(ErrorKind::FixedWidth), dsmr42::fixed_point(b"00.32", 2, 3));
}

#[test]
fn u32_complete_parses_counters() {
    assert_eq!(Ok(2), dsmr42::u32_complete(b"00002", 5));
    assert_eq!(Err(ErrorKind::FixedWidth), dsmr42::u32_complete(b"0002", 5));
}

#[test]
fn u8_complete_rejects_overflow() {
    assert_eq!(Err(ErrorKind::Overflow), u8_complete(b"9999", 4));
}

#[test]
fn timestamp_decodes_with_century_and_dst() {
    let ts = dsmr42::timestamp(b"200208153516W").unwrap();
    assert_eq!(2020, ts.year);
    assert_eq!(2, ts.month);
    assert_eq!(8, ts.day);
    assert_eq!(15, ts.hour);
    assert_eq!(35, ts.minute);
    assert_eq!(16, ts.second);
    assert!(!ts.dst);
    let ts2 = dsmr42::timestamp(b"180726223917S").unwrap();
    assert_eq!(2018, ts2.year);
    assert!(ts2.dst);
}

#[test]
fn timestamp_rejects_bad_marker() {
    assert_eq!(Err(ErrorKind::DstMarker), dsmr42::timestamp(b"200208153516X"));
    assert_eq!(Err(ErrorKind::DstMarker), dsmr42::timestamp(b"200208153516"));
    assert_eq!(Err(ErrorKind::FixedWidth), dsmr42::timestamp(b"2002081535W"));
}

#[test]
fn trailer_needs_four_hex_digits() {
    assert!(matches!(
        dsmr42::framer::crc(b"!AB\r\n", 0),
        Err(ParseErr::Failed(_, ErrorKind::HexDigit))
    ));
    assert!(matches!(
        dsmr42::framer::crc(b"!XYZ\r\n", 0),
        Err(ParseErr::Failed(_, ErrorKind::HexDigit))
    ));
}

#[test]
fn trailer_waits_for_terminator() {
    assert_eq!(Err(ParseErr::Incomplete), dsmr42::framer::crc(b"!6130", 0));
}

#[test]
fn line_with_missing_field_fails() {
    assert!(matches!(
        dsmr42::framer::line(b"1-3:0.2.8\r\n", 0),
        Err(ParseErr::Failed(_, ErrorKind::MissingField))
    ));
}

#[test]
fn line_with_short_field_fails() {
    assert!(matches!(
        dsmr42::framer::line(b"1-3:0.2.8(4)\r\n", 0),
        Err(ParseErr::Failed(_, ErrorKind::FixedWidth))
    ));
}

#[test]
fn obis_group_overflow_fails() {
    assert!(matches!(
        obis_code(b"300-0:1.2.3(", 0),
        Err(ParseErr::Failed(_, ErrorKind::Overflow))
    ));
}

#[test]
fn seventeen_cosem_values_too_large() {
    let mut input = b"1-2:3.4.5".to_vec();
    for _ in 0..17 {
        input.extend_from_slice(b"(x)");
    }
    input.extend_from_slice(b"\r\n");
    assert!(matches!(
        raw_line(&input, 0),
        Err(ParseErr::Failed(_, ErrorKind::TooLarge))
    ));
}

#[test]
fn oversized_device_id_too_large() {
    let input = b"/123456789012345678901234567890123\r\n\r\n!FFFF\r\n";
    assert!(matches!(
        dsmr42::telegram(input, 0),
        Err(ParseErr::Failed(_, ErrorKind::TooLarge))
    ));
}

#[test]
fn bad_separator_fails_with_crlf_kind() {
    assert!(matches!(
        dsmr42::framer::line(b"1-3:0.2.8(42)xx\r\n", 0),
        Err(ParseErr::Failed(_, ErrorKind::CrLf))
    ));
}

#[test]
fn missing_digit_fails() {
    assert!(matches!(
        dsmr42::framer::line(b"x-3:0.2.8(42)\r\n", 0),
        Err(ParseErr::Failed(0, ErrorKind::Digit))
    ));
}

#[test]
fn xorshift_sequence_is_deterministic() {
    let mut r = dsmr42::Random::new(42);
    assert_eq!(11355432, r.next_u32());
    assert_eq!(2836018348, r.next_u32());
}

#[test]
fn random_next_stays_below_bound() {
    let mut r = dsmr42::Random::new(12345);
    for _ in 0..100 {
        let v = r.next(17);
        assert!(v < 17);
    }
}

#[test]
fn local_ports_are_ephemeral() {
    let mut r = dsmr42::Random::new(99);
    for _ in 0..100 {
        let p = dsmr42::generate_local_port(&mut r);
        assert!((49152..65535).contains(&p));
    }
}

#[test]
fn tcp_client_store_starts_zeroed() {
    let store = dsmr42::TcpClientStore::new();
    assert!(store.rx_buffer.iter().all(|b| *b == 0));
    assert!(store.tx_buffer.iter().all(|b| *b == 0));
    assert_eq!(4096, store.rx_buffer.len());
    assert_eq!(4096, store.tx_buffer.len());
}
