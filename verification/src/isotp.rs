//! ISO-TP (ISO 15765-2) over SLCAN: cutting a payload into CAN frames,
//! pacing them by the receiver's flow control, and putting received frames
//! back together.
use vstd::prelude::*;
use crate::comm::{error, ComServerError, ISO15765Data};
use crate::frame::{CanFrame, FrameView};

verus! {

/// The addressing and pacing of the ISO-TP channel.
#[derive(Clone, Copy, Debug, PartialEq, Eq, Structural)]
pub struct IsoTpFilter {
    pub response_id: u32,
    pub mask: u32,
    pub flow_control_id: u32,
    pub block_size: u8,
    pub separation_time_min: u8,
}

/// Largest payload that an ISO-TP first frame can announce.
pub const MAX_ISO_TP_PAYLOAD: usize = 0x0fff;

/// `s` followed by zeros up to eight bytes when `pad` is set.
pub open spec fn pad_to_8(s: Seq<u8>, pad: bool) -> Seq<u8> {
    if pad && s.len() < 8 {
        s + Seq::new((8 - s.len()) as nat, |i: int| 0u8)
    } else {
        s
    }
}

/// A single frame: the length nibble, then the payload.
pub open spec fn single_frame(data: Seq<u8>, pad: bool) -> Seq<u8> {
    pad_to_8(seq![data.len() as u8] + data, pad)
}

/// A first frame: `1` and the twelve-bit length, then six payload bytes.
pub open spec fn first_frame(data: Seq<u8>) -> Seq<u8> {
    seq![(0x10 + data.len() / 256) as u8, (data.len() % 256) as u8] + data.take(6)
}

pub open spec fn min_int(a: int, b: int) -> int {
    if a <= b {
        a
    } else {
        b
    }
}

/// A consecutive frame: `2` and the sequence number, then up to seven payload bytes.
pub open spec fn consecutive_frame(data: Seq<u8>, offset: int, sequence: u8, pad: bool) -> Seq<u8> {
    pad_to_8(
        seq![(0x20 + sequence) as u8] + data.subrange(offset, min_int(offset + 7, data.len() as int)),
        pad,
    )
}

/// The consecutive frames that carry `data` from `offset` on, numbered from `sequence`.
pub open spec fn consecutive_frames(data: Seq<u8>, offset: int, sequence: u8, pad: bool) -> Seq<
    Seq<u8>,
>
    decreases data.len() - offset,
{
    if offset < 0 || offset >= data.len() {
        Seq::empty()
    } else {
        seq![consecutive_frame(data, offset, sequence, pad)] + consecutive_frames(
            data,
            min_int(offset + 7, data.len() as int),
            ((sequence + 1) % 16) as u8,
            pad,
        )
    }
}

/// Every frame of a payload in the order it is sent: one single frame for up to
/// seven bytes, else a first frame and consecutive frames numbered from one.
pub open spec fn segments(data: Seq<u8>, pad: bool) -> Seq<Seq<u8>> {
    if data.len() <= 7 {
        seq![single_frame(data, pad)]
    } else {
        seq![first_frame(data)] + consecutive_frames(data, 6, 1, pad)
    }
}

fn pad_frame_data(v: &mut Vec<u8>, pad: bool)
    requires
        old(v)@.len() <= 8,
    ensures
        final(v)@ == pad_to_8(old(v)@, pad),
{
    if pad {
        let ghost start = v@;
        while v.len() < 8
            invariant
                start.len() <= v@.len() <= 8,
                v@ =~= start + Seq::new((v@.len() - start.len()) as nat, |i: int| 0u8),
            decreases 8 - v@.len(),
        {
            v.push(0);
        }
    }
}

fn push_range(v: &mut Vec<u8>, data: &[u8], from: usize, to: usize)
    requires
        from <= to <= data@.len(),
    ensures
        final(v)@ == old(v)@ + data@.subrange(from as int, to as int),
{
    let mut i: usize = from;
    while i < to
        invariant
            from <= i <= to <= data@.len(),
            v@ =~= old(v)@ + data@.subrange(from as int, i as int),
        decreases to - i,
    {
        v.push(data[i]);
        i = i + 1;
    }
}

/// Sends one ISO-TP payload: yields its frames in order and says, after each
/// consecutive frame, whether to wait the separation time and whether to wait
/// for the next flow-control frame.
pub struct IsoTpSender {
    id: u32,
    data: Vec<u8>,
    pad: bool,
    offset: usize,
    sequence: u8,
    frames_in_block: u8,
    block_size: u8,
    separation_us: u32,
}

/// One consecutive frame and what to do after sending it.
pub struct ConsecutiveStep {
    pub frame: CanFrame,
    pub sleep: bool,
    pub await_flow_control: bool,
}

impl IsoTpSender {
    pub closed spec fn spec_id(&self) -> u32 {
        self.id
    }

    pub closed spec fn spec_data(&self) -> Seq<u8> {
        self.data@
    }

    pub closed spec fn spec_pad(&self) -> bool {
        self.pad
    }

    pub closed spec fn spec_offset(&self) -> nat {
        self.offset as nat
    }

    pub closed spec fn spec_block_size(&self) -> u8 {
        self.block_size
    }

    pub closed spec fn spec_frames_in_block(&self) -> u8 {
        self.frames_in_block
    }

    pub closed spec fn spec_separation_us(&self) -> u32 {
        self.separation_us
    }

    /// The consecutive frames still to send.
    pub closed spec fn remaining(&self) -> Seq<Seq<u8>> {
        consecutive_frames(self.data@, self.offset as int, self.sequence, self.pad)
    }

    pub closed spec fn wf(&self) -> bool {
        &&& self.data@.len() <= MAX_ISO_TP_PAYLOAD
        &&& self.offset <= self.data@.len()
        &&& self.sequence < 16
    }

    /// Checks a payload and prepares its transmission.
    pub fn new(payload: &ISO15765Data) -> (r: Result<IsoTpSender, ComServerError>)
        ensures
            payload.ext_addressing ==> (r matches Err(e) && e.err_code == 15 && e.err_desc@
                == "Extended ISO-TP addressing is not supported by SLCAN"@),
            !payload.ext_addressing && payload.data@.len() > MAX_ISO_TP_PAYLOAD ==> (r matches Err(
                e,
            ) && e.err_code == 16 && e.err_desc@ == "SLCAN ISO-TP payload exceeds 4095 bytes"@),
            !payload.ext_addressing && payload.data@.len() <= MAX_ISO_TP_PAYLOAD ==> (r matches Ok(
                s,
            ) && s.wf() && s.spec_id() == payload.id && s.spec_data() == payload.data@
                && s.spec_pad() == payload.pad_frame && s.spec_offset() == 0),
    {
        if payload.ext_addressing {
            return Err(error(15, "Extended ISO-TP addressing is not supported by SLCAN"));
        }
        if payload.data.len() > MAX_ISO_TP_PAYLOAD {
            return Err(error(16, "SLCAN ISO-TP payload exceeds 4095 bytes"));
        }
        Ok(
            IsoTpSender {
                id: payload.id,
                data: payload.data.clone(),
                pad: payload.pad_frame,
                offset: 0,
                sequence: 1,
                frames_in_block: 0,
                block_size: 0,
                separation_us: 0,
            },
        )
    }

    /// Whether the payload needs a first frame and consecutive frames.
    pub fn is_segmented(&self) -> (r: bool)
        ensures
            r == (self.spec_data().len() > 7),
    {
        self.data.len() > 7
    }

    /// The frame that opens the transfer: the single frame, or the first frame.
    pub fn first_frame(&self) -> (f: CanFrame)
        requires
            self.wf(),
        ensures
            f.spec_id() == self.spec_id(),
            f.spec_data() == segments(self.spec_data(), self.spec_pad())[0],
    {
        let len = self.data.len();
        let mut bytes: Vec<u8> = Vec::new();
        if len <= 7 {
            bytes.push(len as u8);
            push_range(&mut bytes, &self.data, 0, len);
            pad_frame_data(&mut bytes, self.pad);
        } else {
            let hi: usize = (len >> 8) & 0x0f;
            assert(hi == len / 256) by (bit_vector)
                requires
                    len <= 0x0fff,
                    hi == (len >> 8) & 0x0f,
            ;
            let hi8: u8 = hi as u8;
            let b0: u8 = 0x10 | hi8;
            assert(b0 == 0x10 + hi8) by (bit_vector)
                requires
                    hi8 < 16,
                    b0 == 0x10 | hi8,
            ;
            bytes.push(b0);
            bytes.push((len % 256) as u8);
            push_range(&mut bytes, &self.data, 0, 6);
            assert(self.data@.subrange(0, 6) =~= self.data@.take(6));
        }
        let f = CanFrame::new(self.id, &bytes);
        assert(bytes@.take(bytes@.len() as int) =~= bytes@);
        f
    }

    /// Takes the parameters of the first flow-control frame and starts the
    /// consecutive frames after the six bytes of the first frame.
    pub fn start(&mut self, block_size: u8, separation_us: u32)
        requires
            old(self).wf(),
            old(self).spec_data().len() > 7,
        ensures
            final(self).wf(),
            final(self).spec_id() == old(self).spec_id(),
            final(self).spec_data() == old(self).spec_data(),
            final(self).spec_pad() == old(self).spec_pad(),
            final(self).spec_block_size() == block_size,
            final(self).spec_separation_us() == separation_us,
            final(self).spec_frames_in_block() == 0,
            final(self).remaining() == segments(old(self).spec_data(), old(self).spec_pad()).drop_first(),
    {
        self.offset = 6;
        self.sequence = 1;
        self.frames_in_block = 0;
        self.block_size = block_size;
        self.separation_us = separation_us;
        let ghost segs = segments(self.data@, self.pad);
        assert(segs.drop_first() =~= consecutive_frames(self.data@, 6, 1, self.pad));
    }

    /// The separation time the receiver asked for, in microseconds.
    pub fn separation_us(&self) -> (r: u32)
        ensures
            r == self.spec_separation_us(),
    {
        self.separation_us
    }

    /// The next consecutive frame, if any remain, and the pacing after it: wait
    /// the separation time when it is not zero and more frames follow; wait for
    /// flow control when a block size is set, the block is full and more follow.
    pub fn next_consecutive(&mut self) -> (r: Option<ConsecutiveStep>)
        requires
            old(self).wf(),
        ensures
            final(self).wf(),
            final(self).spec_id() == old(self).spec_id(),
            final(self).spec_data() == old(self).spec_data(),
            final(self).spec_pad() == old(self).spec_pad(),
            final(self).spec_block_size() == old(self).spec_block_size(),
            final(self).spec_separation_us() == old(self).spec_separation_us(),
            old(self).remaining().len() == 0 <==> r is None,
            r is None ==> final(self).remaining() == old(self).remaining(),
            r matches Some(step) ==> {
                &&& step.frame.spec_id() == old(self).spec_id()
                &&& step.frame.spec_data() == old(self).remaining()[0]
                &&& final(self).remaining() == old(self).remaining().drop_first()
                &&& final(self).spec_frames_in_block() == (old(self).spec_frames_in_block() + 1)
                    % 256
                &&& step.sleep == (old(self).spec_separation_us() != 0 && final(self).remaining().len()
                    > 0)
                &&& step.await_flow_control == (old(self).spec_block_size() != 0
                    && final(self).spec_frames_in_block() >= old(self).spec_block_size()
                    && final(self).remaining().len() > 0)
            },
    {
        let len = self.data.len();
        if self.offset >= len {
            return None;
        }
        let end: usize = if self.offset + 7 <= len { self.offset + 7 } else { len };
        let mut bytes: Vec<u8> = Vec::new();
        let sq: u8 = self.sequence;
        let b0: u8 = 0x20 | sq;
        assert(b0 == 0x20 + sq) by (bit_vector)
            requires
                sq < 16,
                b0 == 0x20 | sq,
        ;
        bytes.push(b0);
        push_range(&mut bytes, &self.data, self.offset, end);
        pad_frame_data(&mut bytes, self.pad);
        let frame = CanFrame::new(self.id, &bytes);
        assert(bytes@.take(bytes@.len() as int) =~= bytes@);
        let ghost old_remaining = self.remaining();
        self.offset = end;
        let s0: u8 = self.sequence;
        let s1: u8 = s0 + 1;
        let next_sequence: u8 = s1 & 0x0f;
        assert(next_sequence == s1 % 16) by (bit_vector)
            requires
                next_sequence == s1 & 0x0f,
        ;
        self.sequence = next_sequence;
        self.frames_in_block = self.frames_in_block.wrapping_add(1);
        let more = end < len;
        proof {
            assert(old_remaining.drop_first() =~= self.remaining());
            if more {
                assert(self.remaining().len() > 0);
            } else {
                assert(self.remaining().len() == 0);
            }
        }
        let sleep = self.separation_us != 0 && more;
        let await_flow_control = self.block_size != 0 && self.frames_in_block >= self.block_size
            && more;
        Some(ConsecutiveStep { frame, sleep, await_flow_control })
    }

    /// A later flow-control frame sets a new block size and starts a new block;
    /// the separation time of the first flow-control frame stays in force.
    pub fn continue_after_flow_control(&mut self, block_size: u8)
        requires
            old(self).wf(),
        ensures
            final(self).wf(),
            final(self).spec_id() == old(self).spec_id(),
            final(self).spec_data() == old(self).spec_data(),
            final(self).spec_pad() == old(self).spec_pad(),
            final(self).remaining() == old(self).remaining(),
            final(self).spec_block_size() == block_size,
            final(self).spec_frames_in_block() == 0,
            final(self).spec_separation_us() == old(self).spec_separation_us(),
    {
        self.block_size = block_size;
        self.frames_in_block = 0;
    }
}

/// The mathematical content of a reception in progress.
#[verifier::ext_equal]
pub struct RxView {
    pub id: u32,
    pub length: nat,
    pub data: Seq<u8>,
    pub next_sequence: u8,
    pub frames_since_flow_control: u8,
}

/// A segmented payload being received.
#[derive(Debug)]
pub struct IsoTpReceive {
    id: u32,
    length: usize,
    data: Vec<u8>,
    next_sequence: u8,
    frames_since_flow_control: u8,
}

impl IsoTpReceive {
    #[verifier::type_invariant]
    spec fn sequence_in_range(self) -> bool {
        self.next_sequence < 16
    }

    pub closed spec fn spec_view(self) -> RxView {
        RxView {
            id: self.id,
            length: self.length as nat,
            data: self.data@,
            next_sequence: self.next_sequence,
            frames_since_flow_control: self.frames_since_flow_control,
        }
    }
}

pub open spec fn rx_option_view(r: Option<IsoTpReceive>) -> Option<RxView> {
    match r {
        Some(r) => Some(r.spec_view()),
        None => None,
    }
}

/// What the receiver does with one frame.
pub enum RxOutcome {
    /// Nothing to report.
    Idle,
    /// A payload is complete.
    Payload(Seq<u8>),
    /// A flow-control frame is to be sent.
    FlowControl,
    /// The frame breaks the protocol; the error code.
    Failed(u32),
}

pub open spec fn take_upto(s: Seq<u8>, n: nat) -> Seq<u8> {
    if s.len() <= n {
        s
    } else {
        s.take(n as int)
    }
}

pub open spec fn filter_accepts(filter: IsoTpFilter, id: u32) -> bool {
    id & filter.mask == filter.response_id & filter.mask
}

/// One step of reception. Frames that the filter does not accept, empty frames
/// and frames of an unknown type change nothing. A single frame gives its
/// payload; a first frame starts a reception (replacing any other) and asks for
/// flow control; a consecutive frame of the reception in progress must carry
/// the next sequence number, adds its bytes up to the announced length, and
/// either completes the payload or, when a block is full, asks for flow control.
pub open spec fn rx_step(rx: Option<RxView>, filter: Option<IsoTpFilter>, f: FrameView) -> (
    Option<RxView>,
    RxOutcome,
) {
    let b = f.data;
    match filter {
        None => (rx, RxOutcome::Idle),
        Some(flt) => {
            if !filter_accepts(flt, f.id) || b.len() == 0 {
                (rx, RxOutcome::Idle)
            } else if b[0] / 16 == 0 {
                let n = b[0] % 16;
                if b.len() < n + 1 {
                    (rx, RxOutcome::Failed(17))
                } else {
                    (rx, RxOutcome::Payload(b.subrange(1, n + 1)))
                }
            } else if b[0] / 16 == 1 {
                if b.len() < 2 {
                    (rx, RxOutcome::Failed(18))
                } else {
                    let n: nat = ((b[0] % 16) * 256 + b[1]) as nat;
                    if n <= 7 || b.len() < 3 {
                        (rx, RxOutcome::Failed(19))
                    } else {
                        (
                            Some(
                                RxView {
                                    id: f.id,
                                    length: n,
                                    data: take_upto(b.skip(2), n),
                                    next_sequence: 1,
                                    frames_since_flow_control: 0,
                                },
                            ),
                            RxOutcome::FlowControl,
                        )
                    }
                }
            } else if b[0] / 16 == 2 {
                match rx {
                    None => (rx, RxOutcome::Idle),
                    Some(r) => {
                        if r.id != f.id {
                            (rx, RxOutcome::Idle)
                        } else if b[0] % 16 != r.next_sequence {
                            (None, RxOutcome::Failed(20))
                        } else {
                            let data = take_upto(r.data + b.skip(1), r.length);
                            let ns = ((r.next_sequence + 1) % 16) as u8;
                            let fs = ((r.frames_since_flow_control + 1) % 256) as u8;
                            if data.len() == r.length {
                                (None, RxOutcome::Payload(data))
                            } else if flt.block_size != 0 && fs >= flt.block_size {
                                (
                                    Some(
                                        RxView {
                                            id: r.id,
                                            length: r.length,
                                            data,
                                            next_sequence: ns,
                                            frames_since_flow_control: 0,
                                        },
                                    ),
                                    RxOutcome::FlowControl,
                                )
                            } else {
                                (
                                    Some(
                                        RxView {
                                            id: r.id,
                                            length: r.length,
                                            data,
                                            next_sequence: ns,
                                            frames_since_flow_control: fs,
                                        },
                                    ),
                                    RxOutcome::Idle,
                                )
                            }
                        }
                    },
                }
            } else {
                (rx, RxOutcome::Idle)
            }
        },
    }
}

/// The text of each reception error.
pub open spec fn rx_error_text(code: u32) -> Seq<char> {
    if code == 17 {
        "ISO-TP single frame is shorter than its declared length"@
    } else if code == 18 {
        "ISO-TP first frame is truncated"@
    } else if code == 19 {
        "ISO-TP first frame has an invalid length"@
    } else {
        "ISO-TP consecutive-frame sequence mismatch"@
    }
}

/// The flow-control frame that the receiver sends: continue, block size,
/// minimum separation time.
pub open spec fn flow_control_view(filter: IsoTpFilter) -> FrameView {
    FrameView {
        id: filter.flow_control_id,
        data: seq![0x30u8, filter.block_size, filter.separation_time_min, 0u8, 0u8, 0u8, 0u8, 0u8],
    }
}

/// Builds the "continue to send" flow-control frame of a filter.
pub fn flow_control_frame(filter: &IsoTpFilter) -> (f: CanFrame)
    ensures
        f.spec_view() == flow_control_view(*filter),
{
    let data: [u8; 8] = [0x30, filter.block_size, filter.separation_time_min, 0, 0, 0, 0, 0];
    let f = CanFrame::new(filter.flow_control_id, &data);
    assert(f.spec_data() =~= flow_control_view(*filter).data);
    f
}

/// What the driver does after handing one frame to the receiver.
pub struct RxStep {
    pub payload: Option<ISO15765Data>,
    pub flow_control: Option<CanFrame>,
}

pub open spec fn rx_step_matches(
    r: Result<RxStep, ComServerError>,
    outcome: RxOutcome,
    id: u32,
    filter: Option<IsoTpFilter>,
) -> bool {
    match outcome {
        RxOutcome::Idle => r matches Ok(s) && s.payload is None && s.flow_control is None,
        RxOutcome::Payload(d) => {
            &&& r matches Ok(s)
            &&& r->Ok_0.flow_control is None
            &&& r->Ok_0.payload matches Some(p)
            &&& r->Ok_0.payload->0.id == id
            &&& r->Ok_0.payload->0.data@ == d
            &&& !r->Ok_0.payload->0.pad_frame
            &&& !r->Ok_0.payload->0.ext_addressing
        },
        RxOutcome::FlowControl => {
            &&& r matches Ok(s)
            &&& r->Ok_0.payload is None
            &&& r->Ok_0.flow_control matches Some(c)
            &&& r->Ok_0.flow_control->0.spec_view() == flow_control_view(filter.unwrap())
        },
        RxOutcome::Failed(code) => r matches Err(e) && e.err_code == code && e.err_desc@
            == rx_error_text(code),
    }
}

fn idle() -> (s: RxStep)
    ensures
        s.payload is None,
        s.flow_control is None,
{
    RxStep { payload: None, flow_control: None }
}

/// Hands one received frame to the ISO-TP receiver.
pub fn receive_iso_tp_frame(
    receive: &mut Option<IsoTpReceive>,
    filter: Option<IsoTpFilter>,
    frame: &CanFrame,
) -> (r: Result<RxStep, ComServerError>)
    ensures
        rx_option_view(*final(receive)) == rx_step(
            rx_option_view(*old(receive)),
            filter,
            frame.spec_view(),
        ).0,
        rx_step_matches(
            r,
            rx_step(rx_option_view(*old(receive)), filter, frame.spec_view()).1,
            frame.spec_id(),
            filter,
        ),
{
    let flt = match filter {
        Some(f) => f,
        None => {
            return Ok(idle());
        },
    };
    let id = frame.id();
    if id & flt.mask != flt.response_id & flt.mask {
        return Ok(idle());
    }
    let bytes = frame.get_data();
    if bytes.len() == 0 {
        return Ok(idle());
    }
    let b0: u8 = bytes[0];
    let pci: u8 = b0 >> 4;
    let low: u8 = b0 & 0x0f;
    assert(pci == b0 / 16 && low == b0 % 16) by (bit_vector)
        requires
            pci == b0 >> 4,
            low == b0 & 0x0f,
    ;
    if pci == 0 {
        let length = low as usize;
        if bytes.len() < length + 1 {
            return Err(error(17, "ISO-TP single frame is shorter than its declared length"));
        }
        let mut data: Vec<u8> = Vec::new();
        push_range(&mut data, bytes, 1, 1 + length);
        Ok(
            RxStep {
                payload: Some(ISO15765Data { id, data, pad_frame: false, ext_addressing: false }),
                flow_control: None,
            },
        )
    } else if pci == 1 {
        if bytes.len() < 2 {
            return Err(error(18, "ISO-TP first frame is truncated"));
        }
        let lw: usize = low as usize;
        let b1: usize = bytes[1] as usize;
        let length: usize = (lw << 8) | b1;
        assert(length == lw * 256 + b1) by (bit_vector)
            requires
                lw < 16,
                b1 < 256,
                length == (lw << 8) | b1,
        ;
        if length <= 7 || bytes.len() < 3 {
            return Err(error(19, "ISO-TP first frame has an invalid length"));
        }
        let mut data: Vec<u8> = Vec::new();
        push_range(&mut data, bytes, 2, bytes.len());
        data.truncate(length);
        proof {
            assert(Seq::<u8>::empty() + bytes@.subrange(2, bytes@.len() as int) =~= bytes@.skip(2));
        }
        *receive = Some(
            IsoTpReceive { id, length, data, next_sequence: 1, frames_since_flow_control: 0 },
        );
        Ok(RxStep { payload: None, flow_control: Some(flow_control_frame(&flt)) })
    } else if pci == 2 {
        let in_progress = match receive {
            Some(r) => r.id == id,
            None => false,
        };
        if !in_progress {
            return Ok(idle());
        }
        let r = receive.take().unwrap();
        proof {
            use_type_invariant(&r);
        }
        let ghost rv = r.spec_view();
        assert(rx_option_view(*old(receive)) == Some(rv));
        assert(rv.id == id);
        let IsoTpReceive {
            id: rid,
            length,
            data: mut data,
            next_sequence,
            frames_since_flow_control,
        } = r;
        if low != next_sequence {
            return Err(error(20, "ISO-TP consecutive-frame sequence mismatch"));
        }
        let ghost old_data = data@;
        push_range(&mut data, bytes, 1, bytes.len());
        data.truncate(length);
        proof {
            assert(old_data + bytes@.subrange(1, bytes@.len() as int) =~= old_data + bytes@.skip(1));
        }
        let s1: u8 = next_sequence + 1;
        let ns: u8 = s1 & 0x0f;
        assert(ns == s1 % 16 && ns < 16) by (bit_vector)
            requires
                ns == s1 & 0x0f,
        ;
        let fs: u8 = frames_since_flow_control.wrapping_add(1);
        let completed = data.len() == length;
        let send_flow_control = !completed && flt.block_size != 0 && fs >= flt.block_size;
        assert(data@ == take_upto(rv.data + frame.spec_data().skip(1), rv.length));
        if completed {
            assert(rx_step(rx_option_view(*old(receive)), filter, frame.spec_view()).1 == RxOutcome::Payload(data@));
            return Ok(
                RxStep {
                    payload: Some(
                        ISO15765Data { id: rid, data, pad_frame: false, ext_addressing: false },
                    ),
                    flow_control: None,
                },
            );
        }
        if send_flow_control {
            *receive = Some(
                IsoTpReceive {
                    id: rid,
                    length,
                    data,
                    next_sequence: ns,
                    frames_since_flow_control: 0,
                },
            );
            return Ok(RxStep { payload: None, flow_control: Some(flow_control_frame(&flt)) });
        }
        *receive = Some(
            IsoTpReceive { id: rid, length, data, next_sequence: ns, frames_since_flow_control: fs },
        );
        Ok(idle())
    } else {
        Ok(idle())
    }
}

/// What a frame means to a sender that waits for flow control.
pub enum FcOutcome {
    /// Not a flow-control frame for this transfer, or "wait": keep waiting.
    Pending,
    /// Continue: the block size and the separation time in microseconds.
    Continue(u8, u32),
    /// The transfer fails with this error code.
    Failed(u32),
}

/// A flow-control frame from the receiver: type `3`, then block size and
/// separation time. Status `0` continues (separation time 0-127 ms, or
/// 100-900 µs as `F1`-`F9`), `1` asks to wait, `2` aborts; any other status
/// or separation time is an error. Other frames are passed over.
pub open spec fn spec_flow_control(f: FrameView, response_id: u32, mask: u32) -> FcOutcome {
    let d = f.data;
    if f.id & mask != response_id & mask || d.len() < 3 || d[0] / 16 != 3 {
        FcOutcome::Pending
    } else if d[0] % 16 == 0 {
        if d[2] <= 0x7f {
            FcOutcome::Continue(d[1], (d[2] * 1000) as u32)
        } else if 0xf1 <= d[2] <= 0xf9 {
            FcOutcome::Continue(d[1], ((d[2] - 0xf0) * 100) as u32)
        } else {
            FcOutcome::Failed(11)
        }
    } else if d[0] % 16 == 1 {
        FcOutcome::Pending
    } else if d[0] % 16 == 2 {
        FcOutcome::Failed(12)
    } else {
        FcOutcome::Failed(13)
    }
}

pub open spec fn fc_error_text(code: u32) -> Seq<char> {
    if code == 11 {
        "ECU sent an invalid ISO-TP separation time"@
    } else if code == 12 {
        "ECU rejected the ISO-TP transfer"@
    } else {
        "ECU sent an invalid ISO-TP flow-control frame"@
    }
}

/// Reads one frame while waiting for flow control: `Ok(None)` to keep
/// waiting, `Ok(Some((block size, separation µs)))` to continue, or the error.
pub fn flow_control_decision(frame: &CanFrame, response_id: u32, mask: u32) -> (r: Result<
    Option<(u8, u32)>,
    ComServerError,
>)
    ensures
        match spec_flow_control(frame.spec_view(), response_id, mask) {
            FcOutcome::Pending => r matches Ok(None),
            FcOutcome::Continue(bs, us) => r == Ok::<Option<(u8, u32)>, ComServerError>(
                Some((bs, us)),
            ),
            FcOutcome::Failed(code) => r matches Err(e) && e.err_code == code && e.err_desc@
                == fc_error_text(code),
        },
{
    if frame.id() & mask != response_id & mask {
        return Ok(None);
    }
    let data = frame.get_data();
    if data.len() < 3 {
        return Ok(None);
    }
    let b0: u8 = data[0];
    let pci: u8 = b0 >> 4;
    let status: u8 = b0 & 0x0f;
    assert(pci == b0 / 16 && status == b0 % 16) by (bit_vector)
        requires
            pci == b0 >> 4,
            status == b0 & 0x0f,
    ;
    if pci != 3 {
        return Ok(None);
    }
    if status == 0 {
        let st = data[2];
        if st <= 0x7f {
            Ok(Some((data[1], st as u32 * 1000)))
        } else if 0xf1 <= st && st <= 0xf9 {
            Ok(Some((data[1], (st as u32 - 0xf0) * 100)))
        } else {
            Err(error(11, "ECU sent an invalid ISO-TP separation time"))
        }
    } else if status == 1 {
        Ok(None)
    } else if status == 2 {
        Err(error(12, "ECU rejected the ISO-TP transfer"))
    } else {
        Err(error(13, "ECU sent an invalid ISO-TP flow-control frame"))
    }
}

} // verus!


