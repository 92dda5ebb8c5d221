use openvehiclediag::comm::FilterType;
use openvehiclediag::frame::CanFrame;
use openvehiclediag::slcan::{
    bitrate_code, command_reply, encode_frame, frame_is_allowed, parse_data_frame, parse_line,
    CommandReply, Expected, SlcanEvent,
};
use openvehiclediag::stream::split_lines;
use openvehiclediag::text::{parse_decimal, parse_hex};

#[test]
fn bitrate_codes_follow_the_profile_table() {
    let table = [
        (10_000, '0'),
        (20_000, '1'),
        (50_000, '2'),
        (100_000, '3'),
        (125_000, '4'),
        (250_000, '5'),
        (500_000, '6'),
        (800_000, '7'),
        (1_000_000, '8'),
    ];
    for (rate, code) in table {
        assert_eq!(bitrate_code(rate), Some(code));
    }
    assert_eq!(bitrate_code(83_333), None);
    assert_eq!(bitrate_code(0), None);
}

#[test]
fn hex_fields_read_either_case_and_digits_only() {
    assert_eq!(parse_hex(b"7ff"), Some(0x7ff));
    assert_eq!(parse_hex(b"7FF"), Some(0x7ff));
    assert_eq!(parse_hex(b"+1A"), None);
    assert_eq!(parse_hex(b"+"), None);
    assert_eq!(parse_hex(b""), None);
    assert_eq!(parse_hex(b"-1"), None);
    assert_eq!(parse_hex(b"1G"), None);
    assert_eq!(parse_hex(b"FFFFFFFF"), Some(u32::MAX));
    assert_eq!(parse_hex(b"100000000"), None);
    assert_eq!(parse_decimal("4294967295"), Some(u32::MAX));
    assert_eq!(parse_decimal("4294967296"), None);
    assert_eq!(parse_decimal("+8"), Some(8));
    assert_eq!(parse_decimal(" 8"), None);
}

#[test]
fn lines_are_classified() {
    assert!(matches!(parse_line(b""), SlcanEvent::Ack));
    assert!(matches!(parse_line(b"z"), SlcanEvent::TxAccepted));
    assert!(matches!(parse_line(b"zz"), SlcanEvent::Information));
    assert!(matches!(parse_line(b"V1013"), SlcanEvent::Information));
    assert!(matches!(parse_line(b"XSTAT tx_accepted=1"), SlcanEvent::Information));
    assert!(matches!(parse_line(b"r3218"), SlcanEvent::Information));
    match parse_line(b"t1232A1B2") {
        SlcanEvent::Frame(f) => {
            assert_eq!(f.id(), 0x123);
            assert_eq!(f.get_data(), &[0xa1, 0xb2]);
        }
        other => panic!("unexpected {:?}", other),
    }
    // A malformed frame line is information, not a frame.
    assert!(matches!(parse_line(b"t1239A1"), SlcanEvent::Information));
}

#[test]
fn frame_lines_are_checked() {
    // Standard identifiers above 0x7FF are refused.
    assert!(parse_data_frame(b"t8001AA").is_none());
    // Extended identifiers above 29 bits are refused.
    assert!(parse_data_frame(b"T200000001AA").is_none());
    // The data must match the DLC exactly (or be followed by four timestamp digits).
    assert!(parse_data_frame(b"t1232A1").is_none());
    assert!(parse_data_frame(b"t1232A1B2C").is_none());
    assert!(parse_data_frame(b"t1232A1B2ABC").is_none());
    // No DLC digit.
    assert!(parse_data_frame(b"t123").is_none());
    // DLC nine is not classic CAN.
    assert!(parse_data_frame(b"t1239000000000000000000").is_none());
    // Lowercase hexadecimal is accepted.
    let f = parse_data_frame(b"t7e83410cff").unwrap();
    assert_eq!(f.id(), 0x7e8);
    assert_eq!(f.get_data(), &[0x41, 0x0c, 0xff]);
    // Zero-length data, with a timestamp.
    let f = parse_data_frame(b"T1FFFFFFF0ABCD").unwrap();
    assert_eq!(f.id(), 0x1fff_ffff);
    assert_eq!(f.dlc(), 0);
    // Every field is hexadecimal digits: no sign, and a timestamp of four digits.
    assert!(parse_data_frame(b"t1232+AB2").is_none());
    assert!(parse_data_frame(b"t+232A1B2").is_none());
    assert!(parse_data_frame(b"t123+A1").is_none());
    assert!(parse_data_frame(b"t1232A1B2ZZZZ").is_none());
    assert!(parse_data_frame(b"t1232A1B2+ABC").is_none());
    let f = parse_data_frame(b"t1232a1b2abcd").unwrap();
    assert_eq!(f.id(), 0x123);
    assert_eq!(f.get_data(), &[0xa1, 0xb2]);
}

#[test]
fn frames_are_encoded_as_transmit_commands() {
    let f = CanFrame::new(0x123, &[0xa1, 0xb2]);
    assert_eq!(encode_frame(&f).unwrap(), "t1232A1B2");
    let f = CanFrame::new(0x1abc_deff, &[0xde, 0xad, 0xbe]);
    assert_eq!(encode_frame(&f).unwrap(), "T1ABCDEFF3DEADBE");
    let f = CanFrame::new(0x7ff, &[]);
    assert_eq!(encode_frame(&f).unwrap(), "t7FF0");
    let f = CanFrame::new(0x800, &[1]);
    assert_eq!(encode_frame(&f).unwrap(), "T00000800101");
    let e = encode_frame(&CanFrame::new(0x2000_0000, &[1])).unwrap_err();
    assert_eq!(e.err_code, 4);
    assert_eq!(e.err_desc, "CAN ID 0x20000000 is invalid");
}

#[test]
fn encoded_frames_parse_back() {
    for (id, data) in [
        (0u32, vec![]),
        (0x7ff, vec![1, 2, 3, 4, 5, 6, 7, 8]),
        (0x800, vec![0xff]),
        (0x1fff_ffff, vec![0x00, 0x10]),
    ] {
        let f = CanFrame::new(id, &data);
        let line = encode_frame(&f).unwrap();
        let back = parse_data_frame(line.as_bytes()).unwrap();
        assert_eq!(back.id(), id);
        assert_eq!(back.get_data(), &data[..]);
    }
}

#[test]
fn frames_keep_at_most_eight_bytes() {
    let f = CanFrame::new(1, &[1, 2, 3, 4, 5, 6, 7, 8, 9, 10]);
    assert_eq!(f.dlc(), 8);
    assert_eq!(f.get_data(), &[1, 2, 3, 4, 5, 6, 7, 8]);
}

#[test]
fn receive_filters_block_then_pass() {
    let frame = CanFrame::new(0x7e8, &[1]);
    let mut filters = [None; 10];
    assert!(frame_is_allowed(&frame, &filters));
    filters[3] = Some(FilterType::Pass { id: 0x700, mask: 0x700 });
    assert!(frame_is_allowed(&frame, &filters));
    assert!(!frame_is_allowed(&CanFrame::new(0x123, &[]), &filters));
    filters[5] = Some(FilterType::Block { id: 0x7e8, mask: 0x7ff });
    assert!(!frame_is_allowed(&frame, &filters));
    assert!(frame_is_allowed(&CanFrame::new(0x7e0, &[]), &filters));
    // ISO-TP entries neither pass nor block.
    let mut iso = [None; 10];
    iso[0] = Some(FilterType::IsoTP { id: 0, mask: 0, fc: 0 });
    assert!(frame_is_allowed(&frame, &iso));
}

#[test]
fn command_replies_are_found_among_other_events() {
    let frame = SlcanEvent::Frame(CanFrame::new(1, &[]));
    let events = [frame, SlcanEvent::Information, SlcanEvent::Ack];
    assert_eq!(command_reply(&events, Expected::Ack), CommandReply::Accepted);
    assert_eq!(command_reply(&events, Expected::TxAccepted), CommandReply::Pending);
    let events = [frame, SlcanEvent::Nack, SlcanEvent::Ack];
    assert_eq!(command_reply(&events, Expected::Ack), CommandReply::Rejected);
    assert_eq!(command_reply(&events, Expected::AckOrNack), CommandReply::Accepted);
    assert_eq!(command_reply(&[], Expected::Ack), CommandReply::Pending);
    let events = [SlcanEvent::TxAccepted];
    assert_eq!(command_reply(&events, Expected::TxAccepted), CommandReply::Accepted);
}

#[test]
fn stream_is_cut_at_cr_and_bel() {
    let (events, consumed) = split_lines(b"t1232A1B2\r\x07z\r\rV1013\rpart");
    assert_eq!(events.len(), 5);
    assert!(matches!(events[0], SlcanEvent::Frame(_)));
    assert!(matches!(events[1], SlcanEvent::Nack));
    assert!(matches!(events[2], SlcanEvent::TxAccepted));
    assert!(matches!(events[3], SlcanEvent::Ack));
    assert!(matches!(events[4], SlcanEvent::Information));
    assert_eq!(consumed, 20);
    // A BEL right after text ends that text as a line, then NACKs.
    let (events, consumed) = split_lines(b"V1013\x07");
    assert_eq!(events.len(), 2);
    assert!(matches!(events[0], SlcanEvent::Information));
    assert!(matches!(events[1], SlcanEvent::Nack));
    assert_eq!(consumed, 6);
    // Line feeds are not terminators of adapter output.
    let (events, consumed) = split_lines(b"z\n");
    assert!(events.is_empty());
    assert_eq!(consumed, 0);
}
