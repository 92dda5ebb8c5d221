use openvehiclediag::comm::ISO15765Data;
use openvehiclediag::frame::CanFrame;
use openvehiclediag::isotp::{
    flow_control_decision, flow_control_frame, receive_iso_tp_frame, IsoTpFilter, IsoTpReceive,
    IsoTpSender,
};

fn payload(len: usize, pad: bool) -> ISO15765Data {
    ISO15765Data {
        id: 0x7e0,
        data: (0..len).map(|i| i as u8).collect(),
        pad_frame: pad,
        ext_addressing: false,
    }
}

fn filter(block_size: u8) -> IsoTpFilter {
    IsoTpFilter {
        response_id: 0x7e8,
        mask: 0xffff,
        flow_control_id: 0x7e0,
        block_size,
        separation_time_min: 20,
    }
}

/// Every frame of a payload, sent without waiting.
fn all_frames(data: &ISO15765Data) -> Vec<CanFrame> {
    let mut sender = IsoTpSender::new(data).ok().unwrap();
    let mut frames = vec![sender.first_frame()];
    if sender.is_segmented() {
        sender.start(0, 0);
        while let Some(step) = sender.next_consecutive() {
            frames.push(step.frame);
        }
    }
    frames
}

#[test]
fn short_payloads_go_in_one_single_frame() {
    let frames = all_frames(&payload(3, false));
    assert_eq!(frames.len(), 1);
    assert_eq!(frames[0].id(), 0x7e0);
    assert_eq!(frames[0].get_data(), &[0x03, 0, 1, 2]);
    let frames = all_frames(&payload(3, true));
    assert_eq!(frames[0].get_data(), &[0x03, 0, 1, 2, 0, 0, 0, 0]);
    assert_eq!(frames[0].dlc(), 8);
    let frames = all_frames(&payload(7, false));
    assert_eq!(frames[0].get_data(), &[0x07, 0, 1, 2, 3, 4, 5, 6]);
    let frames = all_frames(&payload(0, false));
    assert_eq!(frames[0].get_data(), &[0x00]);
}

#[test]
fn long_payloads_are_segmented() {
    let frames = all_frames(&payload(20, false));
    assert_eq!(frames.len(), 3);
    assert_eq!(frames[0].get_data(), &[0x10, 20, 0, 1, 2, 3, 4, 5]);
    assert_eq!(frames[1].get_data(), &[0x21, 6, 7, 8, 9, 10, 11, 12]);
    assert_eq!(frames[2].get_data(), &[0x22, 13, 14, 15, 16, 17, 18, 19]);
    let frames = all_frames(&payload(14, true));
    assert_eq!(frames[2].get_data(), &[0x22, 13, 0, 0, 0, 0, 0, 0]);
    let frames = all_frames(&payload(4095, false));
    assert_eq!(frames[0].get_data()[..2], [0x1f, 0xff]);
    assert_eq!(frames.len(), 1 + (4095 - 6 + 6) / 7);
    // Sequence numbers wrap from F to 0.
    assert_eq!(frames[15].get_data()[0], 0x2f);
    assert_eq!(frames[16].get_data()[0], 0x20);
}

#[test]
fn payloads_the_sender_refuses() {
    let mut p = payload(3, false);
    p.ext_addressing = true;
    let e = IsoTpSender::new(&p).err().unwrap();
    assert_eq!(e.err_code, 15);
    assert_eq!(e.err_desc, "Extended ISO-TP addressing is not supported by SLCAN");
    let e = IsoTpSender::new(&payload(4096, false)).err().unwrap();
    assert_eq!(e.err_code, 16);
    assert_eq!(e.err_desc, "SLCAN ISO-TP payload exceeds 4095 bytes");
}

#[test]
fn consecutive_frames_follow_block_size_and_separation() {
    let mut sender = IsoTpSender::new(&payload(40, false)).ok().unwrap();
    sender.start(2, 500);
    assert_eq!(sender.separation_us(), 500);
    let s1 = sender.next_consecutive().unwrap();
    assert!(s1.sleep && !s1.await_flow_control);
    let s2 = sender.next_consecutive().unwrap();
    assert!(s2.sleep && s2.await_flow_control);
    sender.continue_after_flow_control(0);
    let mut last = None;
    while let Some(step) = sender.next_consecutive() {
        assert!(!step.await_flow_control);
        last = Some(step);
    }
    let last = last.unwrap();
    assert!(!last.sleep && !last.await_flow_control);
    assert_eq!(last.frame.get_data(), &[0x25, 34, 35, 36, 37, 38, 39]);
}

#[test]
fn frames_are_reassembled() {
    for len in [0usize, 1, 7, 8, 13, 20, 100, 4095] {
        let data = payload(len, len % 2 == 0);
        let mut rx: Option<IsoTpReceive> = None;
        let mut got = None;
        let frames = all_frames(&data);
        let last = frames.len() - 1;
        for (k, mut f) in frames.into_iter().enumerate() {
            f = CanFrame::new(0x7e8, f.get_data());
            let step = receive_iso_tp_frame(&mut rx, Some(filter(0)), &f).ok().unwrap();
            assert_eq!(step.payload.is_some(), k == last);
            if let Some(p) = step.payload {
                got = Some(p);
            }
        }
        let got = got.unwrap();
        assert_eq!(got.data, data.data, "length {}", len);
        assert_eq!(got.id, 0x7e8);
        assert!(!got.pad_frame && !got.ext_addressing);
    }
}

#[test]
fn the_receiver_asks_for_flow_control_per_block() {
    let mut rx: Option<IsoTpReceive> = None;
    let f = CanFrame::new(0x7e8, &[0x10, 30, 0, 1, 2, 3, 4, 5]);
    let step = receive_iso_tp_frame(&mut rx, Some(filter(2)), &f).ok().unwrap();
    let fc = step.flow_control.unwrap();
    assert_eq!(fc.id(), 0x7e0);
    assert_eq!(fc.get_data(), &[0x30, 2, 20, 0, 0, 0, 0, 0]);
    let f = CanFrame::new(0x7e8, &[0x21, 6, 7, 8, 9, 10, 11, 12]);
    let step = receive_iso_tp_frame(&mut rx, Some(filter(2)), &f).ok().unwrap();
    assert!(step.flow_control.is_none() && step.payload.is_none());
    let f = CanFrame::new(0x7e8, &[0x22, 13, 14, 15, 16, 17, 18, 19]);
    let step = receive_iso_tp_frame(&mut rx, Some(filter(2)), &f).ok().unwrap();
    assert!(step.flow_control.is_some());
    let f = CanFrame::new(0x7e8, &[0x23, 20, 21, 22, 23, 24, 25, 26]);
    assert!(receive_iso_tp_frame(&mut rx, Some(filter(2)), &f).ok().unwrap().payload.is_none());
    let f = CanFrame::new(0x7e8, &[0x24, 27, 28, 29, 0xaa, 0xaa, 0xaa, 0xaa]);
    let p = receive_iso_tp_frame(&mut rx, Some(filter(2)), &f).ok().unwrap().payload.unwrap();
    assert_eq!(p.data, (0..30).collect::<Vec<u8>>());
    assert!(rx.is_none());
}

#[test]
fn the_receiver_reports_broken_frames() {
    let mut rx: Option<IsoTpReceive> = None;
    let flt = Some(filter(0));
    let e = receive_iso_tp_frame(&mut rx, flt, &CanFrame::new(0x7e8, &[0x05, 1, 2]))
        .err()
        .unwrap();
    assert_eq!(e.err_code, 17);
    assert_eq!(e.err_desc, "ISO-TP single frame is shorter than its declared length");
    let e = receive_iso_tp_frame(&mut rx, flt, &CanFrame::new(0x7e8, &[0x10])).err().unwrap();
    assert_eq!(e.err_code, 18);
    assert_eq!(e.err_desc, "ISO-TP first frame is truncated");
    let e = receive_iso_tp_frame(&mut rx, flt, &CanFrame::new(0x7e8, &[0x10, 0x07, 1]))
        .err()
        .unwrap();
    assert_eq!(e.err_code, 19);
    assert_eq!(e.err_desc, "ISO-TP first frame has an invalid length");
    receive_iso_tp_frame(&mut rx, flt, &CanFrame::new(0x7e8, &[0x10, 20, 0, 1, 2, 3, 4, 5]))
        .ok()
        .unwrap();
    let e = receive_iso_tp_frame(&mut rx, flt, &CanFrame::new(0x7e8, &[0x22, 6]))
        .err()
        .unwrap();
    assert_eq!(e.err_code, 20);
    assert_eq!(e.err_desc, "ISO-TP consecutive-frame sequence mismatch");
    assert!(rx.is_none());
}

#[test]
fn the_receiver_ignores_other_frames() {
    let mut rx: Option<IsoTpReceive> = None;
    let single = CanFrame::new(0x7e8, &[0x01, 0x55]);
    let step = receive_iso_tp_frame(&mut rx, None, &single).ok().unwrap();
    assert!(step.payload.is_none() && step.flow_control.is_none());
    let other = CanFrame::new(0x123, &[0x01, 0x55]);
    let step = receive_iso_tp_frame(&mut rx, Some(filter(0)), &other).ok().unwrap();
    assert!(step.payload.is_none());
    let stray = CanFrame::new(0x7e8, &[0x21, 1, 2]);
    let step = receive_iso_tp_frame(&mut rx, Some(filter(0)), &stray).ok().unwrap();
    assert!(step.payload.is_none() && rx.is_none());
    let empty = CanFrame::new(0x7e8, &[]);
    assert!(receive_iso_tp_frame(&mut rx, Some(filter(0)), &empty).ok().unwrap().payload.is_none());
    let step = receive_iso_tp_frame(&mut rx, Some(filter(0)), &single).ok().unwrap();
    assert_eq!(step.payload.unwrap().data, vec![0x55]);
}

#[test]
fn flow_control_frames_are_understood() {
    let fc = |d: &[u8]| flow_control_decision(&CanFrame::new(0x7e8, d), 0x7e8, 0xffff);
    assert_eq!(fc(&[0x30, 8, 20]).ok(), Some(Some((8, 20_000))));
    assert_eq!(fc(&[0x30, 0, 0x7f]).ok(), Some(Some((0, 127_000))));
    assert_eq!(fc(&[0x30, 0, 0xf5]).ok(), Some(Some((0, 500))));
    assert_eq!(fc(&[0x30, 0, 0xf1]).ok(), Some(Some((0, 100))));
    assert_eq!(fc(&[0x31, 0, 0]).ok(), Some(None));
    assert_eq!(fc(&[0x30, 0]).ok(), Some(None));
    assert_eq!(fc(&[0x21, 0, 0]).ok(), Some(None));
    let e = fc(&[0x30, 0, 0x80]).err().unwrap();
    assert_eq!((e.err_code, e.err_desc.as_str()), (11, "ECU sent an invalid ISO-TP separation time"));
    let e = fc(&[0x30, 0, 0xfa]).err().unwrap();
    assert_eq!(e.err_code, 11);
    let e = fc(&[0x32, 0, 0]).err().unwrap();
    assert_eq!((e.err_code, e.err_desc.as_str()), (12, "ECU rejected the ISO-TP transfer"));
    let e = fc(&[0x33, 0, 0]).err().unwrap();
    assert_eq!((e.err_code, e.err_desc.as_str()), (13, "ECU sent an invalid ISO-TP flow-control frame"));
    let other = flow_control_decision(&CanFrame::new(0x123, &[0x30, 0, 0]), 0x7e8, 0xffff);
    assert_eq!(other.ok(), Some(None));
    let f = flow_control_frame(&filter(4));
    assert_eq!(f.get_data(), &[0x30, 4, 20, 0, 0, 0, 0, 0]);
}

#[test]
fn waiting_for_flow_control_can_time_out() {
    let e = openvehiclediag::adapter::flow_control_timeout_error();
    assert_eq!((e.err_code, e.err_desc.as_str()), (14, "Timed out waiting for ISO-TP flow control"));
    let e = openvehiclediag::adapter::timeout_error("O");
    assert_eq!(e.err_code, 3);
}
