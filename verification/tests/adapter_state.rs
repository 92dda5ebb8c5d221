use openvehiclediag::adapter::{
    open_can_commands, port_not_open_error, rejected_error, slcan_capabilities, timeout_error,
    SlcanState,
};
use openvehiclediag::comm::{Capability, FilterType};
use openvehiclediag::frame::CanFrame;
use openvehiclediag::slcan::{Expected, SlcanEvent};

#[test]
fn reads_split_anywhere_give_the_same_events() {
    let whole = b"t1232A1B2\rz\r\x07T1ABCDEFF3DEADBE\r";
    let mut once = SlcanState::new();
    let all = once.ingest(whole);
    for cut in 0..whole.len() {
        let mut state = SlcanState::new();
        let mut events = state.ingest(&whole[..cut]);
        events.extend(state.ingest(&whole[cut..]));
        assert_eq!(events.len(), all.len());
        assert_eq!(state.receive_queue.len(), 2);
        assert!(state.receive_buffer.is_empty());
    }
    assert_eq!(once.receive_queue.len(), 2);
}

#[test]
fn unfinished_lines_wait_for_their_terminator() {
    let mut state = SlcanState::new();
    assert!(state.ingest(b"t12").is_empty());
    assert_eq!(state.receive_buffer, b"t12");
    let events = state.ingest(b"32A1B2\r");
    assert_eq!(events.len(), 1);
    assert!(state.receive_buffer.is_empty());
    assert_eq!(state.receive_queue[0].id(), 0x123);
}

#[test]
fn received_frames_go_to_the_queues() {
    let mut state = SlcanState::new();
    state.add_can_filter(FilterType::Block { id: 0x7e8, mask: 0x7ff }).unwrap();
    state.ingest(b"t7E81AA\rt1231BB\r");
    assert_eq!(state.receive_queue.len(), 1);
    assert_eq!(state.receive_queue[0].id(), 0x123);
    assert!(state.iso_receive_queue.is_empty());
    state.mark_can_open();
    state.open_iso_tp();
    state.ingest(b"t7E81AA\r");
    assert_eq!(state.iso_receive_queue.len(), 1);
    assert_eq!(state.receive_queue.len(), 1);
    let f = state.pop_iso_frame().unwrap();
    assert_eq!(f.get_data(), &[0xaa]);
    assert!(state.pop_iso_frame().is_none());
}

#[test]
fn can_filters_fill_free_slots() {
    let mut state = SlcanState::new();
    let e = state.add_can_filter(FilterType::IsoTP { id: 1, mask: 1, fc: 1 }).unwrap_err();
    assert_eq!(e.err_code, 8);
    assert_eq!(e.err_desc, "Cannot apply an ISO-TP filter to SLCAN CAN");
    for expected in 0..10 {
        let idx = state.add_can_filter(FilterType::Pass { id: expected, mask: 0 }).unwrap();
        assert_eq!(idx, expected);
    }
    let e = state.add_can_filter(FilterType::Pass { id: 0, mask: 0 }).unwrap_err();
    assert_eq!(e.err_code, 9);
    assert_eq!(e.err_desc, "No free SLCAN CAN filters");
    state.rem_can_filter(4).unwrap();
    assert_eq!(state.add_can_filter(FilterType::Block { id: 0, mask: 0 }).unwrap(), 4);
    let e = state.rem_can_filter(10).unwrap_err();
    assert_eq!(e.err_code, 10);
    assert_eq!(e.err_desc, "Invalid SLCAN CAN filter index");
}

#[test]
fn iso_tp_filter_and_parameters() {
    let mut state = SlcanState::new();
    let e = state.add_iso15765_filter(FilterType::Pass { id: 0, mask: 0 }).unwrap_err();
    assert_eq!(e.err_code, 22);
    assert_eq!(e.err_desc, "SLCAN ISO-TP requires a flow-control filter");
    let e = state.add_iso15765_filter(FilterType::IsoTP { id: 0x7e8, mask: 0x7ff, fc: 0x7e0 }).unwrap_err();
    assert_eq!(e.err_code, 6);
    assert_eq!(e.err_desc, "SLCAN ISO-TP interface is not open");
    let e = state.set_iso15765_params(0x80, 8).unwrap_err();
    assert_eq!(e.err_code, 24);
    assert_eq!(e.err_desc, "SLCAN ISO-TP flow-control parameters are invalid");
    assert_eq!(state.set_iso15765_params(10, 256).unwrap_err().err_code, 24);
    assert_eq!(state.set_iso15765_params(10, 4).unwrap_err().err_code, 6);
    let e = state.iso_tp_send_filter().unwrap_err();
    assert_eq!(e.err_code, 21);
    assert_eq!(e.err_desc, "SLCAN ISO-TP filter is not configured");

    state.open_iso_tp();
    assert_eq!(state.add_iso15765_filter(FilterType::IsoTP { id: 0x7e8, mask: 0x7ff, fc: 0x7e0 }).unwrap(), 0);
    state.set_iso15765_params(10, 4).unwrap();
    let f = state.iso_tp_send_filter().unwrap();
    assert_eq!((f.response_id, f.mask, f.flow_control_id), (0x7e8, 0x7ff, 0x7e0));
    assert_eq!((f.block_size, f.separation_time_min), (4, 10));
    assert_eq!(state.rem_iso15765_filter(1).unwrap_err().err_code, 23);
    state.rem_iso15765_filter(0).unwrap();
    assert!(state.iso_tp_filter.is_none());
}

#[test]
fn closing_the_channel_drops_its_state() {
    let mut state = SlcanState::new();
    state.mark_can_open();
    state.open_iso_tp();
    state.add_can_filter(FilterType::Pass { id: 1, mask: 1 }).unwrap();
    state.add_iso15765_filter(FilterType::IsoTP { id: 1, mask: 1, fc: 2 }).unwrap();
    state.ingest(b"t0011AA\rt00");
    state.reset_can_channel();
    assert!(!state.can_open && !state.iso_tp_open);
    assert!(state.filters.iter().all(|f| f.is_none()));
    assert!(state.iso_tp_filter.is_none());
    assert!(state.receive_queue.is_empty() && state.iso_receive_queue.is_empty());
    assert_eq!(state.receive_buffer, b"t00");
    state.clear_port_buffers();
    assert!(state.receive_buffer.is_empty());
    assert_eq!(state.check_can_open().unwrap_err().err_code, 5);
    assert_eq!(state.check_iso_tp_open().unwrap_err().err_desc, "SLCAN ISO-TP interface is not open");
}

#[test]
fn opening_commands_and_errors() {
    let (expect, cmd) = open_can_commands(false, 500_000).unwrap();
    assert_eq!(expect, Expected::AckOrNack);
    assert_eq!(cmd, "S6");
    let (expect, cmd) = open_can_commands(true, 1_000_000).unwrap();
    assert_eq!(expect, Expected::Ack);
    assert_eq!(cmd, "S8");
    let e = open_can_commands(false, 1234).unwrap_err();
    assert_eq!(e.err_code, 7);
    assert_eq!(e.err_desc, "SLCAN does not support 1234 bit/s");
    assert_eq!(rejected_error("O").err_desc, "SLCAN command 'O' was rejected");
    assert_eq!(rejected_error("O").err_code, 2);
    assert_eq!(timeout_error("C").err_desc, "Timed out waiting for SLCAN response to 'C'");
    assert_eq!(port_not_open_error().err_code, 1);
}

#[test]
fn capabilities_of_an_slcan_adapter() {
    let c = slcan_capabilities("COM3".into());
    assert_eq!(c.name, "COM3");
    assert_eq!(c.vendor, "SLCAN");
    assert_eq!(c.can, Capability::Yes);
    assert_eq!(c.supports_iso15765(), Capability::Yes);
    assert_eq!(c.battery_voltage, Capability::NA);
}

#[test]
fn received_events_keep_their_order() {
    let mut state = SlcanState::new();
    let events = state.ingest(b"\rz\r\x07");
    assert!(matches!(events[0], SlcanEvent::Ack));
    assert!(matches!(events[1], SlcanEvent::TxAccepted));
    assert!(matches!(events[2], SlcanEvent::Nack));
    let _ = CanFrame::new(0, &[]);
}
