//! The state of an SLCAN adapter channel, apart from the serial port itself:
//! the bytes of an unfinished line, the CAN and ISO-TP receive queues, the
//! receive filters and the ISO-TP settings, and every change the driver makes
//! to them.
use vstd::prelude::*;
use vstd::string::StringExecFns;
use std::collections::VecDeque;
use crate::comm::{error, Capability, ComServerError, DeviceCapabilities, FilterType};
use crate::frame::{CanFrame, FrameView};
use crate::isotp::{
    receive_iso_tp_frame, rx_option_view, rx_step, rx_step_matches, IsoTpFilter, IsoTpReceive,
    RxStep, RxView,
};
use crate::slcan::{
    bitrate_code, frame_is_allowed, spec_bitrate_code, spec_frame_is_allowed, Expected, SlcanEvent,
};
use crate::stream::{law_reads_may_split_lines, split_lines, stream_consumed, stream_events};
use crate::slcan::events_view;
use crate::slcan::EventView;
use crate::text::{decimal, push_decimal};

verus! {

/// The number of CAN receive filter slots.
pub const FILTER_SLOTS: usize = 10;

/// Everything the driver keeps about a channel besides the port.
pub struct SlcanState {
    pub receive_buffer: Vec<u8>,
    pub receive_queue: VecDeque<CanFrame>,
    pub iso_receive_queue: VecDeque<CanFrame>,
    pub can_open: bool,
    pub iso_tp_open: bool,
    pub filters: [Option<FilterType>; 10],
    pub iso_tp_filter: Option<IsoTpFilter>,
    pub iso_tp_receive: Option<IsoTpReceive>,
    pub iso_tp_block_size: u8,
    pub iso_tp_separation_time_min: u8,
}

/// The mathematical content of a channel state.
#[verifier::ext_equal]
pub struct SlcanStateView {
    pub receive_buffer: Seq<u8>,
    pub receive_queue: Seq<CanFrame>,
    pub iso_receive_queue: Seq<CanFrame>,
    pub can_open: bool,
    pub iso_tp_open: bool,
    pub filters: Seq<Option<FilterType>>,
    pub iso_tp_filter: Option<IsoTpFilter>,
    pub iso_tp_receive: Option<RxView>,
    pub iso_tp_block_size: u8,
    pub iso_tp_separation_time_min: u8,
}

impl View for SlcanState {
    type V = SlcanStateView;

    open spec fn view(&self) -> SlcanStateView {
        SlcanStateView {
            receive_buffer: self.receive_buffer@,
            receive_queue: self.receive_queue@,
            iso_receive_queue: self.iso_receive_queue@,
            can_open: self.can_open,
            iso_tp_open: self.iso_tp_open,
            filters: self.filters@,
            iso_tp_filter: self.iso_tp_filter,
            iso_tp_receive: rx_option_view(self.iso_tp_receive),
            iso_tp_block_size: self.iso_tp_block_size,
            iso_tp_separation_time_min: self.iso_tp_separation_time_min,
        }
    }
}

/// The frames among the events, in order.
pub open spec fn event_frames(events: Seq<SlcanEvent>) -> Seq<CanFrame>
    decreases events.len(),
{
    if events.len() == 0 {
        Seq::empty()
    } else {
        let rest = event_frames(events.drop_last());
        match events.last() {
            SlcanEvent::Frame(f) => rest.push(f),
            _ => rest,
        }
    }
}

/// The frames that the receive filters let through, in order.
pub open spec fn allowed_frames(frames: Seq<CanFrame>, filters: Seq<Option<FilterType>>) -> Seq<
    CanFrame,
>
    decreases frames.len(),
{
    if frames.len() == 0 {
        Seq::empty()
    } else {
        let rest = allowed_frames(frames.drop_last(), filters);
        if spec_frame_is_allowed(frames.last().spec_id(), filters) {
            rest.push(frames.last())
        } else {
            rest
        }
    }
}

/// The frames of a queue, taken mathematically.
pub open spec fn frames_view(q: Seq<CanFrame>) -> Seq<FrameView> {
    q.map_values(|f: CanFrame| f.spec_view())
}

/// The frames among events, in order.
pub open spec fn event_view_frames(events: Seq<EventView>) -> Seq<FrameView>
    decreases events.len(),
{
    if events.len() == 0 {
        Seq::empty()
    } else {
        let rest = event_view_frames(events.drop_last());
        match events.last() {
            EventView::Frame(f) => rest.push(f),
            _ => rest,
        }
    }
}

/// The frames that the receive filters let through, in order.
pub open spec fn allowed_views(frames: Seq<FrameView>, filters: Seq<Option<FilterType>>) -> Seq<
    FrameView,
>
    decreases frames.len(),
{
    if frames.len() == 0 {
        Seq::empty()
    } else {
        let rest = allowed_views(frames.drop_last(), filters);
        if spec_frame_is_allowed(frames.last().id, filters) {
            rest.push(frames.last())
        } else {
            rest
        }
    }
}

proof fn lemma_event_frames_view(events: Seq<SlcanEvent>)
    ensures
        frames_view(event_frames(events)) == event_view_frames(events_view(events)),
    decreases events.len(),
{
    if events.len() > 0 {
        lemma_event_frames_view(events.drop_last());
        assert(events_view(events).drop_last() =~= events_view(events.drop_last()));
        assert(events_view(events).last() == events.last().spec_view());
        let rest = event_frames(events.drop_last());
        match events.last() {
            SlcanEvent::Frame(f) => {
                assert(frames_view(rest.push(f)) =~= frames_view(rest).push(f.spec_view()));
            },
            _ => {},
        }
    } else {
        assert(frames_view(event_frames(events)) =~= Seq::<FrameView>::empty());
    }
}

proof fn lemma_allowed_frames_view(frames: Seq<CanFrame>, filters: Seq<Option<FilterType>>)
    ensures
        frames_view(allowed_frames(frames, filters)) == allowed_views(frames_view(frames), filters),
    decreases frames.len(),
{
    if frames.len() > 0 {
        lemma_allowed_frames_view(frames.drop_last(), filters);
        assert(frames_view(frames).drop_last() =~= frames_view(frames.drop_last()));
        assert(frames_view(frames).last() == frames.last().spec_view());
        let rest = allowed_frames(frames.drop_last(), filters);
        assert(frames_view(rest.push(frames.last())) =~= frames_view(rest).push(
            frames.last().spec_view(),
        ));
    } else {
        assert(frames_view(allowed_frames(frames, filters)) =~= Seq::<FrameView>::empty());
    }
}

proof fn lemma_event_view_frames_concat(x: Seq<EventView>, y: Seq<EventView>)
    ensures
        event_view_frames(x + y) == event_view_frames(x) + event_view_frames(y),
    decreases y.len(),
{
    if y.len() == 0 {
        assert(x + y =~= x);
        assert(event_view_frames(x) + event_view_frames(y) =~= event_view_frames(x));
    } else {
        lemma_event_view_frames_concat(x, y.drop_last());
        assert((x + y).drop_last() =~= x + y.drop_last());
        assert((x + y).last() == y.last());
        match y.last() {
            EventView::Frame(f) => {
                assert(event_view_frames(x) + event_view_frames(y.drop_last()).push(f) =~= (
                event_view_frames(x) + event_view_frames(y.drop_last())).push(f));
            },
            _ => {},
        }
    }
}

proof fn lemma_allowed_views_concat(
    x: Seq<FrameView>,
    y: Seq<FrameView>,
    filters: Seq<Option<FilterType>>,
)
    ensures
        allowed_views(x + y, filters) == allowed_views(x, filters) + allowed_views(y, filters),
    decreases y.len(),
{
    if y.len() == 0 {
        assert(x + y =~= x);
        assert(allowed_views(x, filters) + allowed_views(y, filters) =~= allowed_views(x, filters));
    } else {
        lemma_allowed_views_concat(x, y.drop_last(), filters);
        assert((x + y).drop_last() =~= x + y.drop_last());
        assert((x + y).last() == y.last());
        assert(allowed_views(x, filters) + allowed_views(y.drop_last(), filters).push(y.last()) =~= (
        allowed_views(x, filters) + allowed_views(y.drop_last(), filters)).push(y.last()));
    }
}

/// However the adapter's output is cut into reads, the channel ends up the
/// same: taking the bytes `a` and then `b` after the buffered bytes gives the
/// events, the unfinished line, the frames for the ISO-TP queue and the
/// frames that the filters let into the CAN queue that taking `a` and `b` at
/// once gives (see what `SlcanState::ingest` does with each of them).
pub proof fn law_split_reads_fill_the_same_queues(
    buffer: Seq<u8>,
    a: Seq<u8>,
    b: Seq<u8>,
    filters: Seq<Option<FilterType>>,
)
    ensures
        ({
            let first = buffer + a;
            let second = first.skip(stream_consumed(first) as int) + b;
            let whole = buffer + a + b;
            let f1 = event_view_frames(stream_events(first));
            let f2 = event_view_frames(stream_events(second));
            let fw = event_view_frames(stream_events(whole));
            &&& stream_events(first) + stream_events(second) == stream_events(whole)
            &&& second.skip(stream_consumed(second) as int) == whole.skip(
                stream_consumed(whole) as int,
            )
            &&& f1 + f2 == fw
            &&& allowed_views(f1, filters) + allowed_views(f2, filters) == allowed_views(
                fw,
                filters,
            )
        }),
{
    let first = buffer + a;
    law_reads_may_split_lines(first, b);
    assert(first + b =~= buffer + a + b);
    let second = first.skip(stream_consumed(first) as int) + b;
    lemma_event_view_frames_concat(stream_events(first), stream_events(second));
    lemma_allowed_views_concat(
        event_view_frames(stream_events(first)),
        event_view_frames(stream_events(second)),
        filters,
    );
}

pub open spec fn min_nat(a: nat, b: nat) -> nat {
    if a <= b {
        a
    } else {
        b
    }
}

impl SlcanState {
    /// A closed channel with no filters; ISO-TP block size 8 and separation time 20 ms.
    pub fn new() -> (s: SlcanState)
        ensures
            s@ == (SlcanStateView {
                receive_buffer: Seq::empty(),
                receive_queue: Seq::empty(),
                iso_receive_queue: Seq::empty(),
                can_open: false,
                iso_tp_open: false,
                filters: Seq::new(10, |i: int| None),
                iso_tp_filter: None,
                iso_tp_receive: None,
                iso_tp_block_size: 8,
                iso_tp_separation_time_min: 20,
            }),
    {
        let s = SlcanState {
            receive_buffer: Vec::new(),
            receive_queue: VecDeque::new(),
            iso_receive_queue: VecDeque::new(),
            can_open: false,
            iso_tp_open: false,
            filters: [None; 10],
            iso_tp_filter: None,
            iso_tp_receive: None,
            iso_tp_block_size: 8,
            iso_tp_separation_time_min: 20,
        };
        assert(s.filters@ =~= Seq::new(10, |i: int| None::<FilterType>));
        s
    }

    /// Takes the bytes just read from the port: the complete lines among the
    /// buffered bytes become events, an unfinished line stays buffered, and
    /// each received frame goes to the ISO-TP queue while ISO-TP is open and
    /// to the CAN queue if the filters let it through.
    pub fn ingest(&mut self, bytes: &[u8]) -> (events: Vec<SlcanEvent>)
        ensures
            ({
                let buf = old(self).receive_buffer@ + bytes@;
                let frames = event_frames(events@);
                &&& events_view(events@) == stream_events(buf)
                &&& final(self)@ == (SlcanStateView {
                    receive_buffer: buf.skip(stream_consumed(buf) as int),
                    receive_queue: old(self).receive_queue@ + allowed_frames(
                        frames,
                        old(self).filters@,
                    ),
                    iso_receive_queue: old(self).iso_receive_queue@ + (if old(self).iso_tp_open {
                        frames
                    } else {
                        Seq::empty()
                    }),
                    ..old(self)@
                })
                &&& frames_view(final(self).receive_queue@) == frames_view(
                    old(self).receive_queue@,
                ) + allowed_views(event_view_frames(stream_events(buf)), old(self).filters@)
                &&& frames_view(final(self).iso_receive_queue@) == frames_view(
                    old(self).iso_receive_queue@,
                ) + (if old(self).iso_tp_open {
                    event_view_frames(stream_events(buf))
                } else {
                    Seq::empty()
                })
            }),
    {
        let mut i: usize = 0;
        while i < bytes.len()
            invariant
                i <= bytes@.len(),
                self.receive_buffer@ =~= old(self).receive_buffer@ + bytes@.take(i as int),
                self.receive_queue == old(self).receive_queue,
                self.iso_receive_queue == old(self).iso_receive_queue,
                self.can_open == old(self).can_open,
                self.iso_tp_open == old(self).iso_tp_open,
                self.filters == old(self).filters,
                self.iso_tp_filter == old(self).iso_tp_filter,
                self.iso_tp_receive == old(self).iso_tp_receive,
                self.iso_tp_block_size == old(self).iso_tp_block_size,
                self.iso_tp_separation_time_min == old(self).iso_tp_separation_time_min,
            decreases bytes@.len() - i,
        {
            self.receive_buffer.push(bytes[i]);
            i = i + 1;
        }
        assert(bytes@.take(bytes@.len() as int) =~= bytes@);
        let ghost buf = self.receive_buffer@;
        let (events, consumed) = split_lines(self.receive_buffer.as_slice());
        let mut rest: Vec<u8> = Vec::new();
        let mut k: usize = consumed;
        while k < self.receive_buffer.len()
            invariant
                consumed <= k <= buf.len(),
                self.receive_buffer@ == buf,
                rest@ =~= buf.subrange(consumed as int, k as int),
            decreases buf.len() - k,
        {
            rest.push(self.receive_buffer[k]);
            k = k + 1;
        }
        self.receive_buffer = rest;
        let ghost q0 = self.receive_queue@;
        let ghost iq0 = self.iso_receive_queue@;
        let mut j: usize = 0;
        while j < events.len()
            invariant
                j <= events@.len(),
                self.filters == old(self).filters,
                self.iso_tp_open == old(self).iso_tp_open,
                self.receive_queue@ =~= q0 + allowed_frames(
                    event_frames(events@.take(j as int)),
                    self.filters@,
                ),
                self.iso_receive_queue@ =~= iq0 + (if self.iso_tp_open {
                    event_frames(events@.take(j as int))
                } else {
                    Seq::empty()
                }),
                self.receive_buffer@ == buf.skip(consumed as int),
                self.can_open == old(self).can_open,
                self.iso_tp_filter == old(self).iso_tp_filter,
                self.iso_tp_receive == old(self).iso_tp_receive,
                self.iso_tp_block_size == old(self).iso_tp_block_size,
                self.iso_tp_separation_time_min == old(self).iso_tp_separation_time_min,
            decreases events@.len() - j,
        {
            let ghost before = events@.take(j as int);
            assert(events@.take(j + 1).drop_last() =~= before);
            assert(events@.take(j + 1).last() == events@[j as int]);
            if let SlcanEvent::Frame(f) = events[j] {
                proof {
                    let ef = event_frames(before);
                    assert(event_frames(events@.take(j + 1)) == ef.push(f));
                    assert(ef.push(f).drop_last() =~= ef);
                    assert(ef.push(f).last() == f);
                }
                if self.iso_tp_open {
                    self.iso_receive_queue.push_back(f);
                }
                if frame_is_allowed(&f, &self.filters) {
                    self.receive_queue.push_back(f);
                }
            }
            j = j + 1;
        }
        assert(events@.take(events@.len() as int) =~= events@);
        proof {
            let frames = event_frames(events@);
            lemma_event_frames_view(events@);
            lemma_allowed_frames_view(frames, old(self).filters@);
            assert(frames_view(self.receive_queue@) =~= frames_view(old(self).receive_queue@)
                + frames_view(allowed_frames(frames, old(self).filters@)));
            assert(frames_view(self.iso_receive_queue@) =~= frames_view(
                old(self).iso_receive_queue@,
            ) + frames_view(
                if old(self).iso_tp_open {
                    frames
                } else {
                    Seq::empty()
                },
            ));
        }
        events
    }

    /// Takes up to `max_msgs` frames from the front of the CAN queue.
    pub fn drain_can_queue(&mut self, max_msgs: usize) -> (frames: Vec<CanFrame>)
        ensures
            ({
                let n = min_nat(max_msgs as nat, old(self).receive_queue@.len());
                &&& frames@ == old(self).receive_queue@.take(n as int)
                &&& final(self)@ == (SlcanStateView {
                    receive_queue: old(self).receive_queue@.skip(n as int),
                    ..old(self)@
                })
            }),
    {
        let count: usize = if max_msgs <= self.receive_queue.len() {
            max_msgs
        } else {
            self.receive_queue.len()
        };
        let ghost q = self.receive_queue@;
        let mut frames: Vec<CanFrame> = Vec::new();
        let mut taken: usize = 0;
        while taken < count
            invariant
                taken <= count <= q.len(),
                frames@ =~= q.take(taken as int),
                self.receive_queue@ =~= q.skip(taken as int),
                self.receive_buffer == old(self).receive_buffer,
                self.iso_receive_queue == old(self).iso_receive_queue,
                self.can_open == old(self).can_open,
                self.iso_tp_open == old(self).iso_tp_open,
                self.filters == old(self).filters,
                self.iso_tp_filter == old(self).iso_tp_filter,
                self.iso_tp_receive == old(self).iso_tp_receive,
                self.iso_tp_block_size == old(self).iso_tp_block_size,
                self.iso_tp_separation_time_min == old(self).iso_tp_separation_time_min,
            decreases count - taken,
        {
            let f = self.receive_queue.pop_front().unwrap();
            frames.push(f);
            taken = taken + 1;
        }
        frames
    }

    /// Takes the next frame of the ISO-TP queue.
    pub fn pop_iso_frame(&mut self) -> (f: Option<CanFrame>)
        ensures
            old(self).iso_receive_queue@.len() == 0 ==> f is None && final(self)@ == old(self)@,
            old(self).iso_receive_queue@.len() > 0 ==> f == Some(old(self).iso_receive_queue@[0])
                && final(self)@ == (SlcanStateView {
                iso_receive_queue: old(self).iso_receive_queue@.drop_first(),
                ..old(self)@
            }),
    {
        self.iso_receive_queue.pop_front()
    }

    /// Installs a CAN receive filter in the first free slot and returns the slot.
    pub fn add_can_filter(&mut self, filter: FilterType) -> (r: Result<u32, ComServerError>)
        ensures
            filter is IsoTP ==> (r matches Err(e) && e.err_code == 8 && e.err_desc@
                == "Cannot apply an ISO-TP filter to SLCAN CAN"@ && final(self)@ == old(self)@),
            !(filter is IsoTP) && (forall|i: int| 0 <= i < 10 ==> #[trigger] old(self).filters@[i] is Some)
                ==> (r matches Err(e) && e.err_code == 9 && e.err_desc@ == "No free SLCAN CAN filters"@
                && final(self)@ == old(self)@),
            !(filter is IsoTP) && (exists|i: int| 0 <= i < 10 && #[trigger] old(self).filters@[i] is None)
                ==> (r matches Ok(idx) && idx < 10 && old(self).filters@[idx as int] is None && (forall|j: int|
                0 <= j < idx ==> #[trigger] old(self).filters@[j] is Some) && final(self)@ == (SlcanStateView {
                filters: old(self).filters@.update(idx as int, Some(filter)),
                ..old(self)@
            })),
    {
        if let FilterType::IsoTP { .. } = filter {
            return Err(error(8, "Cannot apply an ISO-TP filter to SLCAN CAN"));
        }
        let mut i: usize = 0;
        while i < 10
            invariant
                i <= 10,
                self.filters@.len() == 10,
                self == old(self),
                !(filter is IsoTP),
                forall|j: int| 0 <= j < i ==> #[trigger] self.filters@[j] is Some,
            decreases 10 - i,
        {
            if self.filters[i].is_none() {
                self.filters[i] = Some(filter);
                assert(self.filters@ =~= old(self).filters@.update(i as int, Some(filter)));
                return Ok(i as u32);
            }
            i = i + 1;
        }
        Err(error(9, "No free SLCAN CAN filters"))
    }

    /// Empties a CAN receive filter slot.
    pub fn rem_can_filter(&mut self, filter_idx: u32) -> (r: Result<(), ComServerError>)
        ensures
            filter_idx >= 10 ==> (r matches Err(e) && e.err_code == 10 && e.err_desc@
                == "Invalid SLCAN CAN filter index"@ && final(self)@ == old(self)@),
            filter_idx < 10 ==> (r is Ok && final(self)@ == (SlcanStateView {
                filters: old(self).filters@.update(filter_idx as int, None),
                ..old(self)@
            })),
    {
        if filter_idx as usize >= 10 {
            return Err(error(10, "Invalid SLCAN CAN filter index"));
        }
        self.filters[filter_idx as usize] = None;
        assert(self.filters@ =~= old(self).filters@.update(filter_idx as int, None));
        Ok(())
    }

    /// Sets the ISO-TP addressing from an ISO-TP filter, with the current
    /// block size and separation time; the only slot is 0.
    pub fn add_iso15765_filter(&mut self, filter: FilterType) -> (r: Result<u32, ComServerError>)
        ensures
            !(filter is IsoTP) ==> (r matches Err(e) && e.err_code == 22 && e.err_desc@
                == "SLCAN ISO-TP requires a flow-control filter"@ && final(self)@ == old(self)@),
            filter is IsoTP && !old(self).iso_tp_open ==> (r matches Err(e) && e.err_code == 6
                && e.err_desc@ == "SLCAN ISO-TP interface is not open"@ && final(self)@ == old(self)@),
            old(self).iso_tp_open ==> (filter matches FilterType::IsoTP { id, mask, fc } ==> r
                == Ok::<u32, ComServerError>(0) && final(self)@ == (SlcanStateView {
                iso_tp_filter: Some(
                    IsoTpFilter {
                        response_id: id,
                        mask,
                        flow_control_id: fc,
                        block_size: old(self).iso_tp_block_size,
                        separation_time_min: old(self).iso_tp_separation_time_min,
                    },
                ),
                ..old(self)@
            })),
    {
        let (id, mask, fc) = match filter {
            FilterType::IsoTP { id, mask, fc } => (id, mask, fc),
            _ => {
                return Err(error(22, "SLCAN ISO-TP requires a flow-control filter"));
            },
        };
        if !self.iso_tp_open {
            return Err(error(6, "SLCAN ISO-TP interface is not open"));
        }
        self.iso_tp_filter = Some(
            IsoTpFilter {
                response_id: id,
                mask,
                flow_control_id: fc,
                block_size: self.iso_tp_block_size,
                separation_time_min: self.iso_tp_separation_time_min,
            },
        );
        Ok(0)
    }

    /// Removes the ISO-TP addressing; only slot 0 exists.
    pub fn rem_iso15765_filter(&mut self, filter_idx: u32) -> (r: Result<(), ComServerError>)
        ensures
            filter_idx != 0 ==> (r matches Err(e) && e.err_code == 23 && e.err_desc@
                == "Invalid SLCAN ISO-TP filter index"@ && final(self)@ == old(self)@),
            filter_idx == 0 ==> (r is Ok && final(self)@ == (SlcanStateView {
                iso_tp_filter: None,
                ..old(self)@
            })),
    {
        if filter_idx != 0 {
            return Err(error(23, "Invalid SLCAN ISO-TP filter index"));
        }
        self.iso_tp_filter = None;
        Ok(())
    }

    /// Sets the block size and separation time that flow control announces,
    /// also in the installed ISO-TP filter.
    pub fn set_iso15765_params(&mut self, separation_time_min: u32, block_size: u32) -> (r: Result<
        (),
        ComServerError,
    >)
        ensures
            separation_time_min > 0x7f || block_size > 0xff ==> (r matches Err(e) && e.err_code
                == 24 && e.err_desc@ == "SLCAN ISO-TP flow-control parameters are invalid"@
                && final(self)@ == old(self)@),
            separation_time_min <= 0x7f && block_size <= 0xff && !old(self).iso_tp_open ==> (r matches Err(
                e,
            ) && e.err_code == 6 && e.err_desc@ == "SLCAN ISO-TP interface is not open"@
                && final(self)@ == old(self)@),
            separation_time_min <= 0x7f && block_size <= 0xff && old(self).iso_tp_open ==> (r is Ok
                && final(self)@ == (SlcanStateView {
                iso_tp_block_size: block_size as u8,
                iso_tp_separation_time_min: separation_time_min as u8,
                iso_tp_filter: match old(self).iso_tp_filter {
                    Some(f) => Some(
                        IsoTpFilter {
                            block_size: block_size as u8,
                            separation_time_min: separation_time_min as u8,
                            ..f
                        },
                    ),
                    None => None,
                },
                ..old(self)@
            })),
    {
        if separation_time_min > 0x7f || block_size > 0xff {
            return Err(error(24, "SLCAN ISO-TP flow-control parameters are invalid"));
        }
        if !self.iso_tp_open {
            return Err(error(6, "SLCAN ISO-TP interface is not open"));
        }
        self.iso_tp_separation_time_min = separation_time_min as u8;
        self.iso_tp_block_size = block_size as u8;
        if let Some(f) = self.iso_tp_filter {
            self.iso_tp_filter = Some(
                IsoTpFilter {
                    block_size: block_size as u8,
                    separation_time_min: separation_time_min as u8,
                    ..f
                },
            );
        }
        Ok(())
    }

    /// The channel is closed: every flag, filter, queue and reception in
    /// progress is dropped (the unfinished line stays buffered).
    pub fn reset_can_channel(&mut self)
        ensures
            final(self)@ == (SlcanStateView {
                can_open: false,
                iso_tp_open: false,
                filters: Seq::new(10, |i: int| None),
                iso_tp_filter: None,
                iso_tp_receive: None,
                receive_queue: Seq::empty(),
                iso_receive_queue: Seq::empty(),
                ..old(self)@
            }),
    {
        self.can_open = false;
        self.iso_tp_open = false;
        self.filters = [None; 10];
        self.iso_tp_filter = None;
        self.iso_tp_receive = None;
        self.receive_queue.clear();
        self.iso_receive_queue.clear();
        assert(self.filters@ =~= Seq::new(10, |i: int| None::<FilterType>));
    }

    /// Before the controller is reopened (at another bitrate): the CAN channel
    /// counts as closed and ISO-TP is closed with its addressing, reception and queue.
    pub fn prepare_reopen(&mut self)
        ensures
            final(self)@ == (SlcanStateView {
                can_open: false,
                iso_tp_open: false,
                iso_tp_filter: None,
                iso_tp_receive: None,
                iso_receive_queue: Seq::empty(),
                ..old(self)@
            }),
    {
        self.can_open = false;
        self.iso_tp_open = false;
        self.iso_tp_filter = None;
        self.iso_tp_receive = None;
        self.iso_receive_queue.clear();
    }

    /// The controller acknowledged `O`.
    pub fn mark_can_open(&mut self)
        ensures
            final(self)@ == (SlcanStateView { can_open: true, ..old(self)@ }),
    {
        self.can_open = true;
    }

    /// ISO-TP is opened on top of an open channel, with no reception in progress.
    pub fn open_iso_tp(&mut self)
        ensures
            final(self)@ == (SlcanStateView {
                iso_tp_open: true,
                iso_tp_receive: None,
                iso_receive_queue: Seq::empty(),
                ..old(self)@
            }),
    {
        self.iso_tp_open = true;
        self.iso_tp_receive = None;
        self.iso_receive_queue.clear();
    }

    /// ISO-TP is closed with its addressing, reception and queue.
    pub fn close_iso15765_interface(&mut self)
        ensures
            final(self)@ == (SlcanStateView {
                iso_tp_open: false,
                iso_tp_filter: None,
                iso_tp_receive: None,
                iso_receive_queue: Seq::empty(),
                ..old(self)@
            }),
    {
        self.iso_tp_open = false;
        self.iso_tp_filter = None;
        self.iso_tp_receive = None;
        self.iso_receive_queue.clear();
    }

    /// Drops the received CAN frames.
    pub fn clear_can_rx_buffer(&mut self)
        ensures
            final(self)@ == (SlcanStateView { receive_queue: Seq::empty(), ..old(self)@ }),
    {
        self.receive_queue.clear();
    }

    /// Drops the received ISO-TP frames and the reception in progress.
    pub fn clear_iso15765_rx_buffer(&mut self)
        ensures
            final(self)@ == (SlcanStateView {
                iso_receive_queue: Seq::empty(),
                iso_tp_receive: None,
                ..old(self)@
            }),
    {
        self.iso_receive_queue.clear();
        self.iso_tp_receive = None;
    }

    /// The serial port is closed: the unfinished line and the CAN queue go.
    pub fn clear_port_buffers(&mut self)
        ensures
            final(self)@ == (SlcanStateView {
                receive_buffer: Seq::empty(),
                receive_queue: Seq::empty(),
                ..old(self)@
            }),
    {
        self.receive_buffer.clear();
        self.receive_queue.clear();
    }

    /// CAN traffic needs an open channel.
    pub fn check_can_open(&self) -> (r: Result<(), ComServerError>)
        ensures
            self.can_open ==> r is Ok,
            !self.can_open ==> (r matches Err(e) && e.err_code == 5 && e.err_desc@
                == "SLCAN CAN channel is not open"@),
    {
        if !self.can_open {
            return Err(error(5, "SLCAN CAN channel is not open"));
        }
        Ok(())
    }

    /// ISO-TP reception needs an open ISO-TP interface.
    pub fn check_iso_tp_open(&self) -> (r: Result<(), ComServerError>)
        ensures
            self.iso_tp_open ==> r is Ok,
            !self.iso_tp_open ==> (r matches Err(e) && e.err_code == 6 && e.err_desc@
                == "SLCAN ISO-TP interface is not open"@),
    {
        if !self.iso_tp_open {
            return Err(error(6, "SLCAN ISO-TP interface is not open"));
        }
        Ok(())
    }

    /// ISO-TP transmission needs the addressing, then an open interface.
    pub fn iso_tp_send_filter(&self) -> (r: Result<IsoTpFilter, ComServerError>)
        ensures
            self.iso_tp_filter is None ==> (r matches Err(e) && e.err_code == 21 && e.err_desc@
                == "SLCAN ISO-TP filter is not configured"@),
            self.iso_tp_filter is Some && !self.iso_tp_open ==> (r matches Err(e) && e.err_code
                == 6 && e.err_desc@ == "SLCAN ISO-TP interface is not open"@),
            self.iso_tp_filter is Some && self.iso_tp_open ==> r == Ok::<
                IsoTpFilter,
                ComServerError,
            >(self.iso_tp_filter.unwrap()),
    {
        let filter = match self.iso_tp_filter {
            Some(f) => f,
            None => {
                return Err(error(21, "SLCAN ISO-TP filter is not configured"));
            },
        };
        if !self.iso_tp_open {
            return Err(error(6, "SLCAN ISO-TP interface is not open"));
        }
        Ok(filter)
    }

    /// Hands one frame of the ISO-TP queue to the receiver.
    pub fn receive_iso_tp_frame(&mut self, frame: CanFrame) -> (r: Result<RxStep, ComServerError>)
        ensures
            final(self)@ == (SlcanStateView {
                iso_tp_receive: rx_step(
                    old(self)@.iso_tp_receive,
                    old(self).iso_tp_filter,
                    frame.spec_view(),
                ).0,
                ..old(self)@
            }),
            rx_step_matches(
                r,
                rx_step(old(self)@.iso_tp_receive, old(self).iso_tp_filter, frame.spec_view()).1,
                frame.spec_id(),
                old(self).iso_tp_filter,
            ),
    {
        receive_iso_tp_frame(&mut self.iso_tp_receive, self.iso_tp_filter, &frame)
    }
}

/// The error for a bitrate that has no `Sx` code.
pub open spec fn unsupported_bitrate_text(bus_speed: u32) -> Seq<char> {
    "SLCAN does not support "@ + decimal(bus_speed as nat) + " bit/s"@
}

/// The commands that (re)open the CAN channel at a bitrate: first `C`, which
/// must be acknowledged, or may also be refused when the channel is not open
/// (an earlier client may have left the controller open or closed); then `Sx`.
pub fn open_can_commands(can_open: bool, bus_speed: u32) -> (r: Result<(Expected, String), ComServerError>)
    ensures
        spec_bitrate_code(bus_speed) is None ==> (r matches Err(e) && e.err_code == 7 && e.err_desc@
            == unsupported_bitrate_text(bus_speed)),
        spec_bitrate_code(bus_speed) matches Some(c) ==> (r matches Ok((x, cmd)) && cmd@ == seq![
            'S',
            c,
        ] && x == (if can_open {
            Expected::Ack
        } else {
            Expected::AckOrNack
        })),
{
    let code = match bitrate_code(bus_speed) {
        Some(c) => c,
        None => {
            let mut desc = String::from_str("SLCAN does not support ");
            push_decimal(&mut desc, bus_speed as u128);
            desc.append(" bit/s");
            return Err(ComServerError { err_code: 7, err_desc: desc });
        },
    };
    let mut cmd = String::new();
    crate::text::push_char(&mut cmd, 'S');
    crate::text::push_char(&mut cmd, code);
    assert(cmd@ =~= seq!['S', code]);
    let expect = if can_open {
        Expected::Ack
    } else {
        Expected::AckOrNack
    };
    Ok((expect, cmd))
}

/// Opening ISO-TP with extended addressing is refused before anything is sent.
pub fn check_iso_tp_addressing(ext_addressing: bool) -> (r: Result<(), ComServerError>)
    ensures
        !ext_addressing ==> r is Ok,
        ext_addressing ==> (r matches Err(e) && e.err_code == 15 && e.err_desc@
            == "Extended ISO-TP addressing is not supported by SLCAN"@),
{
    if ext_addressing {
        return Err(error(15, "Extended ISO-TP addressing is not supported by SLCAN"));
    }
    Ok(())
}

/// The error when no serial port is open.
pub fn port_not_open_error() -> (e: ComServerError)
    ensures
        e.err_code == 1,
        e.err_desc@ == "SLCAN serial port is not open"@,
{
    error(1, "SLCAN serial port is not open")
}

/// The error when the adapter answers a command with BEL.
pub fn rejected_error(command: &str) -> (e: ComServerError)
    ensures
        e.err_code == 2,
        e.err_desc@ == "SLCAN command '"@ + command@ + "' was rejected"@,
{
    let mut desc = String::from_str("SLCAN command '");
    desc.append(command);
    desc.append("' was rejected");
    ComServerError { err_code: 2, err_desc: desc }
}

/// The error when no reply to a command arrives in time.
pub fn timeout_error(command: &str) -> (e: ComServerError)
    ensures
        e.err_code == 3,
        e.err_desc@ == "Timed out waiting for SLCAN response to '"@ + command@ + "'"@,
{
    let mut desc = String::from_str("Timed out waiting for SLCAN response to '");
    desc.append(command);
    desc.append("'");
    ComServerError { err_code: 3, err_desc: desc }
}

/// The error when no flow-control frame arrives in time.
pub fn flow_control_timeout_error() -> (e: ComServerError)
    ensures
        e.err_code == 14,
        e.err_desc@ == "Timed out waiting for ISO-TP flow control"@,
{
    error(14, "Timed out waiting for ISO-TP flow control")
}

/// What an SLCAN adapter on a serial port offers: CAN and ISO-TP only.
pub fn slcan_capabilities(port_name: String) -> (c: DeviceCapabilities)
    ensures
        c.name@ == port_name@,
        c.vendor@ == "SLCAN"@,
        c.library_path@ == "Serial port"@,
        c.device_fw_version@ == "Unknown"@,
        c.library_version@ == "SLCAN"@,
        c.j1850vpw == Capability::NA,
        c.j1850pwm == Capability::NA,
        c.can == Capability::Yes,
        c.iso15765 == Capability::Yes,
        c.iso9141 == Capability::NA,
        c.iso14230 == Capability::NA,
        c.ip == Capability::NA,
        c.battery_voltage == Capability::NA,
{
    DeviceCapabilities {
        name: port_name,
        vendor: String::from_str("SLCAN"),
        library_path: String::from_str("Serial port"),
        device_fw_version: String::from_str("Unknown"),
        library_version: String::from_str("SLCAN"),
        j1850vpw: Capability::NA,
        j1850pwm: Capability::NA,
        can: Capability::Yes,
        iso15765: Capability::Yes,
        iso9141: Capability::NA,
        iso14230: Capability::NA,
        ip: Capability::NA,
        battery_voltage: Capability::NA,
    }
}

} // verus!
