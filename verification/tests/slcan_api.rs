use openvehiclediag::adapter::SlcanState;
use openvehiclediag::comm::FilterType;
use openvehiclediag::frame::CanFrame;
use openvehiclediag::slcan::parse_data_frame;

#[test]
fn drains_can_queue_up_to_available_frames_and_requested_limit() {
    for (queued, max_msgs, expected) in [
        (0, 100, 0),
        (3, 100, 3), // CAN Analyzer crash: requested 100 with only 3 available.
        (100, 100, 100),
        (103, 100, 100),
        (3, 0, 0),
    ] {
        let mut inner = SlcanState::new();
        inner
            .receive_queue
            .extend((0..queued).map(|id| CanFrame::new(id as u32, &[id as u8])));

        let frames = inner.drain_can_queue(max_msgs);
        assert_eq!(frames.len(), expected);
        for (id, frame) in frames.iter().enumerate() {
            assert_eq!(frame.id(), id as u32);
            assert_eq!(frame.get_data(), &[id as u8]);
        }
        assert_eq!(inner.receive_queue.len(), queued - expected);

        let remaining = inner.drain_can_queue(usize::MAX);
        assert_eq!(remaining.len(), queued - expected);
        for (id, frame) in (expected..queued).zip(remaining) {
            assert_eq!(frame.id(), id as u32);
            assert_eq!(frame.get_data(), &[id as u8]);
        }
        assert!(inner.receive_queue.is_empty());
    }
}

#[test]
fn parses_standard_frame_with_timestamp() {
    let frame = parse_data_frame(b"t1232A1B2ABCD").unwrap();
    assert_eq!(frame.id(), 0x123);
    assert_eq!(frame.get_data(), &[0xa1, 0xb2]);
}

#[test]
fn parses_extended_frame_without_timestamp() {
    let frame = parse_data_frame(b"T1ABCDEFF3DEADBE").unwrap();
    assert_eq!(frame.id(), 0x1abc_deff);
    assert_eq!(frame.get_data(), &[0xde, 0xad, 0xbe]);
}

#[test]
fn reassembles_iso_tp_single_frame() {
    let mut inner = SlcanState::new();
    inner.mark_can_open();
    inner.open_iso_tp();
    inner
        .add_iso15765_filter(FilterType::IsoTP { id: 0x7e8, mask: 0x7ff, fc: 0x7e0 })
        .unwrap();
    let filter = inner.iso_tp_filter.unwrap();
    assert_eq!(filter.block_size, 8);
    assert_eq!(filter.separation_time_min, 20);
    let payload = inner
        .receive_iso_tp_frame(CanFrame::new(0x7e8, &[0x03, 0x41, 0x00, 0xff]))
        .unwrap()
        .payload
        .unwrap();
    assert_eq!(payload.id, 0x7e8);
    assert_eq!(payload.data, &[0x41, 0x00, 0xff]);
}
