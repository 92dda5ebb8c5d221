//! What the ISO-TP sender and receiver promise together.
use vstd::prelude::*;
use crate::frame::FrameView;
use crate::isotp::{
    flow_control_view, spec_flow_control, FcOutcome,
    consecutive_frame, consecutive_frames, filter_accepts, first_frame, min_int, pad_to_8, rx_step,
    segments, single_frame, take_upto, IsoTpFilter, RxOutcome, RxView,
};

verus! {

/// The frames of a payload as they appear on the bus.
pub open spec fn segment_frames(id: u32, data: Seq<u8>, pad: bool) -> Seq<FrameView> {
    segments(data, pad).map_values(|d: Seq<u8>| FrameView { id, data: d })
}

/// Feeds frames to the receiver one by one: the payloads it completes, in
/// order, or the first error code.
pub open spec fn rx_run(rx: Option<RxView>, filter: Option<IsoTpFilter>, frames: Seq<FrameView>) -> Result<
    Seq<Seq<u8>>,
    u32,
>
    decreases frames.len(),
{
    if frames.len() == 0 {
        Ok(Seq::empty())
    } else {
        let (next, out) = rx_step(rx, filter, frames[0]);
        match out {
            RxOutcome::Failed(code) => Err(code),
            RxOutcome::Payload(d) => match rx_run(next, filter, frames.drop_first()) {
                Ok(ps) => Ok(seq![d] + ps),
                Err(code) => Err(code),
            },
            _ => rx_run(next, filter, frames.drop_first()),
        }
    }
}

/// What the receiver reports for each frame, in order.
pub open spec fn rx_outcomes(rx: Option<RxView>, filter: Option<IsoTpFilter>, frames: Seq<FrameView>) -> Seq<
    RxOutcome,
>
    decreases frames.len(),
{
    if frames.len() == 0 {
        Seq::empty()
    } else {
        let (next, out) = rx_step(rx, filter, frames[0]);
        seq![out] + rx_outcomes(next, filter, frames.drop_first())
    }
}

/// Every report but the last is "nothing" or "send flow control"; the last
/// is the payload.
pub open spec fn quiet_until_payload(outs: Seq<RxOutcome>, data: Seq<u8>) -> bool {
    &&& outs.len() > 0
    &&& outs.last() == RxOutcome::Payload(data)
    &&& forall|i: int| 0 <= i < outs.len() - 1 ==> #[trigger] outs[i] is Idle || outs[i] is FlowControl
}

proof fn lemma_quiet_prepend(out: RxOutcome, rest: Seq<RxOutcome>, data: Seq<u8>)
    requires
        out is Idle || out is FlowControl,
        quiet_until_payload(rest, data),
    ensures
        quiet_until_payload(seq![out] + rest, data),
{
    let outs = seq![out] + rest;
    assert(outs.last() == rest.last());
    assert forall|i: int| 0 <= i < outs.len() - 1 implies #[trigger] outs[i] is Idle || outs[i] is FlowControl by {
        if i > 0 {
            assert(outs[i] == rest[i - 1]);
        }
    }
}

proof fn lemma_consecutive_reassemble(
    id: u32,
    data: Seq<u8>,
    pad: bool,
    filter: IsoTpFilter,
    offset: int,
    sequence: u8,
    frames_since: u8,
)
    requires
        8 <= data.len() <= 0x0fff,
        6 <= offset < data.len(),
        sequence < 16,
        filter_accepts(filter, id),
    ensures
        rx_run(
            Some(
                RxView {
                    id,
                    length: data.len(),
                    data: data.take(offset),
                    next_sequence: sequence,
                    frames_since_flow_control: frames_since,
                },
            ),
            Some(filter),
            consecutive_frames(data, offset, sequence, pad).map_values(
                |d: Seq<u8>| FrameView { id, data: d },
            ),
        ) == Ok::<Seq<Seq<u8>>, u32>(seq![data]),
        quiet_until_payload(
            rx_outcomes(
                Some(
                    RxView {
                        id,
                        length: data.len(),
                        data: data.take(offset),
                        next_sequence: sequence,
                        frames_since_flow_control: frames_since,
                    },
                ),
                Some(filter),
                consecutive_frames(data, offset, sequence, pad).map_values(
                    |d: Seq<u8>| FrameView { id, data: d },
                ),
            ),
            data,
        ),
    decreases data.len() - offset,
{
    let frames = consecutive_frames(data, offset, sequence, pad).map_values(
        |d: Seq<u8>| FrameView { id, data: d },
    );
    let end = min_int(offset + 7, data.len() as int);
    let next_sequence = ((sequence + 1) % 16) as u8;
    let b = consecutive_frame(data, offset, sequence, pad);
    let chunk = data.subrange(offset, end);
    assert(frames[0] == FrameView { id, data: b });
    let rest = consecutive_frames(data, end, next_sequence, pad).map_values(
        |d: Seq<u8>| FrameView { id, data: d },
    );
    assert(frames.drop_first() =~= rest);
    let head = seq![(0x20 + sequence) as u8] + chunk;
    assert(b == pad_to_8(head, pad));
    assert(b[0] == (0x20 + sequence) as u8);
    assert(b.len() >= 2);
    assert(b[0] / 16 == 2);
    assert(b[0] % 16 == sequence);
    let rv = RxView {
        id,
        length: data.len(),
        data: data.take(offset),
        next_sequence: sequence,
        frames_since_flow_control: frames_since,
    };
    let joined = data.take(offset) + b.skip(1);
    let fs = ((frames_since + 1) % 256) as u8;
    if end < data.len() {
        assert(chunk.len() == 7);
        assert(b == head);
        assert(b.skip(1) =~= chunk);
        assert(joined =~= data.take(end));
        assert(take_upto(joined, data.len()) == data.take(end));
        let (next, out) = rx_step(Some(rv), Some(filter), frames[0]);
        let expected_next = RxView {
            id,
            length: data.len(),
            data: data.take(end),
            next_sequence,
            frames_since_flow_control: if filter.block_size != 0 && fs >= filter.block_size {
                0
            } else {
                fs
            },
        };
        assert(next == Some(expected_next));
        assert(!(out is Payload) && !(out is Failed));
        lemma_consecutive_reassemble(
            id,
            data,
            pad,
            filter,
            end,
            next_sequence,
            expected_next.frames_since_flow_control,
        );
        lemma_quiet_prepend(out, rx_outcomes(next, Some(filter), frames.drop_first()), data);
    } else {
        assert(end == data.len());
        assert(take_upto(joined, data.len()) =~= data) by {
            if pad && head.len() < 8 {
                assert(b.skip(1) =~= chunk + Seq::new((8 - head.len()) as nat, |i: int| 0u8));
            } else {
                assert(b.skip(1) =~= chunk);
            }
            assert(joined.take(data.len() as int) =~= data);
        }
        let (next, out) = rx_step(Some(rv), Some(filter), frames[0]);
        assert(out == RxOutcome::Payload(data));
        assert(next is None);
        assert(consecutive_frames(data, end, next_sequence, pad).len() == 0);
        assert(rest.len() == 0);
        assert(rx_run(next, Some(filter), frames.drop_first()) == Ok::<Seq<Seq<u8>>, u32>(
            Seq::empty(),
        ));
        assert(seq![data] + Seq::<Seq<u8>>::empty() =~= seq![data]);
        assert(rx_outcomes(next, Some(filter), frames.drop_first()).len() == 0);
        assert(rx_outcomes(Some(rv), Some(filter), frames) =~= seq![out]);
    }
}

/// Whatever the receiver was doing, the frames that the sender cuts a payload
/// of at most 4095 bytes into, received through a filter that accepts their
/// identifier, give back exactly that payload, once, and no error: every
/// frame but the last gives nothing (or a flow-control request), the last
/// gives the payload.
pub proof fn law_segments_reassemble(
    rx: Option<RxView>,
    id: u32,
    data: Seq<u8>,
    pad: bool,
    filter: IsoTpFilter,
)
    requires
        data.len() <= 0x0fff,
        filter_accepts(filter, id),
    ensures
        rx_run(rx, Some(filter), segment_frames(id, data, pad)) == Ok::<Seq<Seq<u8>>, u32>(
            seq![data],
        ),
        quiet_until_payload(rx_outcomes(rx, Some(filter), segment_frames(id, data, pad)), data),
{
    let frames = segment_frames(id, data, pad);
    if data.len() <= 7 {
        let b = single_frame(data, pad);
        assert(frames[0] == FrameView { id, data: b });
        assert(b[0] == data.len() as u8);
        assert(b[0] / 16 == 0);
        assert(b.subrange(1, data.len() as int + 1) =~= data);
        assert(frames.drop_first().len() == 0);
        let (next, out) = rx_step(rx, Some(filter), frames[0]);
        assert(out == RxOutcome::Payload(data));
        assert(rx_run(next, Some(filter), frames.drop_first()) == Ok::<Seq<Seq<u8>>, u32>(
            Seq::empty(),
        ));
        assert(seq![data] + Seq::<Seq<u8>>::empty() =~= seq![data]);
        assert(rx_outcomes(next, Some(filter), frames.drop_first()).len() == 0);
        assert(rx_outcomes(rx, Some(filter), frames) =~= seq![out]);
    } else {
        let b = first_frame(data);
        let len = data.len();
        assert(frames[0] == FrameView { id, data: b });
        assert(len / 256 < 16);
        assert(b[0] == (0x10 + len / 256) as u8);
        assert(b[0] / 16 == 1);
        assert(b[0] % 16 == len / 256);
        assert(b[1] == (len % 256) as u8);
        assert((b[0] % 16) * 256 + b[1] == len);
        assert(b.skip(2) =~= data.take(6));
        assert(take_upto(b.skip(2), len) == data.take(6));
        let rv = RxView {
            id,
            length: len,
            data: data.take(6),
            next_sequence: 1,
            frames_since_flow_control: 0,
        };
        let (next, out) = rx_step(rx, Some(filter), frames[0]);
        assert(next == Some(rv));
        assert(out is FlowControl);
        assert(frames.drop_first() =~= consecutive_frames(data, 6, 1, pad).map_values(
            |d: Seq<u8>| FrameView { id, data: d },
        ));
        lemma_consecutive_reassemble(id, data, pad, filter, 6, 1, 0);
        assert(frames.len() > 0);
        assert(rx_run(rx, Some(filter), frames) == rx_run(next, Some(filter), frames.drop_first()));
        lemma_quiet_prepend(out, rx_outcomes(next, Some(filter), frames.drop_first()), data);
        assert(rx_outcomes(rx, Some(filter), frames) == seq![out] + rx_outcomes(
            next,
            Some(filter),
            frames.drop_first(),
        ));
    }
}

/// With a block size set, the receiver counts the consecutive frames since
/// its last flow-control request and keeps that count below the block size:
/// every flow-control request (after a first frame, or after a full block)
/// restarts the count at zero. A consecutive frame of the payload in progress
/// that does not complete it asks for flow control exactly when it fills the
/// block, and otherwise adds one to the count.
pub proof fn law_flow_control_once_per_block(r: RxView, flt: IsoTpFilter, f: FrameView)
    requires
        flt.block_size != 0,
        r.frames_since_flow_control < flt.block_size,
    ensures
        ({
            let (next, out) = rx_step(Some(r), Some(flt), f);
            &&& out is FlowControl ==> (next matches Some(n) && n.frames_since_flow_control == 0)
            &&& next matches Some(n) ==> n.frames_since_flow_control < flt.block_size
            &&& (filter_accepts(flt, f.id) && f.data.len() > 0 && f.data[0] / 16 == 2 && f.id == r.id
                && f.data[0] % 16 == r.next_sequence && take_upto(r.data + f.data.skip(1), r.length).len()
                != r.length) ==> {
                &&& (out is FlowControl <==> r.frames_since_flow_control + 1 == flt.block_size)
                &&& !(out is FlowControl) ==> out is Idle
                &&& !(out is FlowControl) ==> (next matches Some(n)
                    && n.frames_since_flow_control == r.frames_since_flow_control + 1)
            }
        }),
{
}

/// The flow-control frame that a receiver sends is read by a sender waiting
/// on that identifier as "continue", with the receiver's block size and its
/// separation time (in milliseconds, 0 to 127).
pub proof fn law_flow_control_understood(filter: IsoTpFilter, response_id: u32, mask: u32)
    requires
        filter.separation_time_min <= 0x7f,
        filter.flow_control_id & mask == response_id & mask,
    ensures
        spec_flow_control(flow_control_view(filter), response_id, mask) == FcOutcome::Continue(
            filter.block_size,
            (filter.separation_time_min * 1000) as u32,
        ),
{
    let d = flow_control_view(filter).data;
    assert(d[0] == 0x30u8);
    assert(d[0] / 16 == 3);
    assert(d[0] % 16 == 0);
}

} // verus!

