//! Cutting the byte stream from the adapter into events: lines end at CR, and
//! a BEL is a NACK on its own (it also ends the line before it, if any).
use vstd::prelude::*;
use crate::slcan::{events_view, parse_line, spec_parse_line, EventView, SlcanEvent};

verus! {

/// CR ends a line; BEL is a NACK.
pub open spec fn is_terminator(b: u8) -> bool {
    b == 7 || b == 13
}

pub open spec fn has_terminator(b: Seq<u8>) -> bool {
    exists|i: int| 0 <= i < b.len() && #[trigger] is_terminator(b[i])
}

/// The position of the first CR or BEL.
pub open spec fn first_terminator(b: Seq<u8>) -> int {
    choose|i: int|
        0 <= i < b.len() && is_terminator(b[i]) && forall|j: int|
            0 <= j < i ==> !#[trigger] is_terminator(b[j])
}

/// The events of the line that ends at position `k`.
pub open spec fn line_events(b: Seq<u8>, k: int) -> Seq<EventView> {
    if b[k] == 7 {
        if k > 0 {
            seq![spec_parse_line(b.take(k)), EventView::Nack]
        } else {
            seq![EventView::Nack]
        }
    } else {
        seq![spec_parse_line(b.take(k))]
    }
}

proof fn lemma_first_terminator(b: Seq<u8>)
    requires
        has_terminator(b),
    ensures
        0 <= first_terminator(b) < b.len(),
        is_terminator(b[first_terminator(b)]),
        forall|j: int| 0 <= j < first_terminator(b) ==> !#[trigger] is_terminator(b[j]),
    decreases b.len(),
{
    if is_terminator(b[0]) {
        assert(0 <= 0 < b.len() && is_terminator(b[0]) && forall|j: int|
            0 <= j < 0 ==> !#[trigger] is_terminator(b[j]));
    } else {
        let t = b.drop_first();
        let i = choose|i: int| 0 <= i < b.len() && #[trigger] is_terminator(b[i]);
        assert(is_terminator(t[i - 1]));
        lemma_first_terminator(t);
        let k = first_terminator(t);
        assert(forall|j: int| 0 <= j < k + 1 ==> !#[trigger] is_terminator(b[j])) by {
            assert forall|j: int| 0 <= j < k + 1 implies !#[trigger] is_terminator(b[j]) by {
                if j > 0 {
                    assert(b[j] == t[j - 1]);
                }
            }
        }
        assert(is_terminator(b[k + 1]));
    }
}

/// The events of every complete line in the buffer, in order.
#[verifier::opaque]
pub open spec fn stream_events(b: Seq<u8>) -> Seq<EventView>
    decreases b.len(),
{
    if has_terminator(b) {
        let k = first_terminator(b);
        if 0 <= k < b.len() {
            line_events(b, k) + stream_events(b.skip(k + 1))
        } else {
            Seq::empty()
        }
    } else {
        Seq::empty()
    }
}

/// How many bytes the complete lines take: everything up to the last terminator.
#[verifier::opaque]
pub open spec fn stream_consumed(b: Seq<u8>) -> nat
    decreases b.len(),
{
    if has_terminator(b) {
        let k = first_terminator(b);
        if 0 <= k < b.len() {
            (k + 1 + stream_consumed(b.skip(k + 1))) as nat
        } else {
            0
        }
    } else {
        0
    }
}

#[verifier::spinoff_prover]
#[verifier::rlimit(40)]
proof fn lemma_line_step(b: Seq<u8>, line_start: int, index: int)
    requires
        0 <= line_start <= index < b.len(),
        is_terminator(b[index]),
        forall|j: int| line_start <= j < index ==> !#[trigger] is_terminator(b[j]),
    ensures
        stream_events(b.skip(line_start)) == line_events(b.skip(line_start), index - line_start)
            + stream_events(b.skip(index + 1)),
        stream_consumed(b.skip(line_start)) == index - line_start + 1 + stream_consumed(
            b.skip(index + 1),
        ),
        line_events(b.skip(line_start), index - line_start) == (if b[index] == 7 {
            if index > line_start {
                seq![spec_parse_line(b.subrange(line_start, index)), EventView::Nack]
            } else {
                seq![EventView::Nack]
            }
        } else {
            seq![spec_parse_line(b.subrange(line_start, index))]
        }),
{
    reveal(stream_events);
    reveal(stream_consumed);
    let rest = b.skip(line_start);
    let k = index - line_start;
    assert(rest[k] == b[index]);
    assert(has_terminator(rest));
    lemma_first_terminator(rest);
    let f = first_terminator(rest);
    if f < k {
        assert(rest[f] == b[line_start + f]);
    }
    if f > k {
        assert(!is_terminator(rest[k]));
    }
    assert(f == k);
    assert(rest.skip(k + 1) =~= b.skip(index + 1));
    assert(rest.take(k) =~= b.subrange(line_start, index));
}

/// Splits the buffered bytes into the events of its complete lines; returns
/// them and the number of bytes they took (the rest is an unfinished line).
pub fn split_lines(buffer: &[u8]) -> (r: (Vec<SlcanEvent>, usize))
    ensures
        events_view(r.0@) == stream_events(buffer@),
        r.1 == stream_consumed(buffer@),
        r.1 <= buffer@.len(),
{
    let ghost b = buffer@;
    let mut events: Vec<SlcanEvent> = Vec::new();
    let mut line_start: usize = 0;
    let mut index: usize = 0;
    assert(b.skip(0) =~= b);
    while index < buffer.len()
        invariant
            line_start <= index <= b.len(),
            b == buffer@,
            stream_events(b) == events_view(events@) + stream_events(b.skip(line_start as int)),
            stream_consumed(b) == line_start + stream_consumed(b.skip(line_start as int)),
            forall|j: int| line_start <= j < index ==> !#[trigger] is_terminator(b[j]),
        decreases b.len() - index,
    {
        let byte = buffer[index];
        if byte == 7 || byte == 13 {
            proof {
                lemma_line_step(b, line_start as int, index as int);
            }
            let ghost old_events = events@;
            let line = &buffer[line_start..index];
            assert(line@ == b.subrange(line_start as int, index as int));
            if byte == 7 {
                if index > line_start {
                    events.push(parse_line(line));
                }
                events.push(SlcanEvent::Nack);
            } else {
                events.push(parse_line(line));
            }
            proof {
                assert(events_view(events@) =~= events_view(old_events) + line_events(
                    b.skip(line_start as int),
                    index - line_start,
                ));
            }
            line_start = index + 1;
        }
        index = index + 1;
    }
    proof {
        reveal(stream_events);
        reveal(stream_consumed);
        let rest = b.skip(line_start as int);
        assert(!has_terminator(rest)) by {
            assert forall|i: int| 0 <= i < rest.len() implies !#[trigger] is_terminator(rest[i]) by {
                assert(rest[i] == b[line_start + i]);
            }
        }
        assert(events_view(events@) + Seq::<EventView>::empty() =~= events_view(events@));
    }
    (events, line_start)
}

proof fn lemma_same_first_terminator(b: Seq<u8>, c: Seq<u8>, k: int)
    requires
        has_terminator(b),
        first_terminator(b) == k,
        0 <= k < c.len(),
        0 <= k < b.len(),
        b.take(k + 1) == c.take(k + 1),
    ensures
        has_terminator(c),
        first_terminator(c) == k,
        line_events(c, k) == line_events(b, k),
{
    lemma_first_terminator(b);
    assert(b[k] == b.take(k + 1)[k]);
    assert(c[k] == c.take(k + 1)[k]);
    assert(is_terminator(c[k]));
    lemma_first_terminator(c);
    let f = first_terminator(c);
    if f < k {
        assert(c[f] == c.take(k + 1)[f]);
        assert(b[f] == b.take(k + 1)[f]);
    }
    assert(b.take(k) =~= c.take(k)) by {
        assert forall|i: int| 0 <= i < k implies b.take(k)[i] == c.take(k)[i] by {
            assert(b[i] == b.take(k + 1)[i]);
            assert(c[i] == c.take(k + 1)[i]);
        }
    }
}

proof fn lemma_unfold(b: Seq<u8>)
    ensures
        has_terminator(b) ==> {
            let k = first_terminator(b);
            &&& 0 <= k < b.len()
            &&& is_terminator(b[k])
            &&& stream_events(b) == line_events(b, k) + stream_events(b.skip(k + 1))
            &&& stream_consumed(b) == k + 1 + stream_consumed(b.skip(k + 1))
        },
        !has_terminator(b) ==> stream_events(b) == Seq::<EventView>::empty() && stream_consumed(b)
            == 0,
{
    reveal(stream_events);
    reveal(stream_consumed);
    if has_terminator(b) {
        lemma_first_terminator(b);
    }
}

/// The bytes up to the last terminator carry all the events; what follows
/// it holds no terminator.
proof fn lemma_complete_prefix(b: Seq<u8>)
    ensures
        stream_consumed(b) <= b.len(),
        !has_terminator(b.skip(stream_consumed(b) as int)),
        stream_events(b.take(stream_consumed(b) as int)) == stream_events(b),
        stream_consumed(b.take(stream_consumed(b) as int)) == stream_consumed(b),
    decreases b.len(),
{
    lemma_unfold(b);
    if !has_terminator(b) {
        assert(b.skip(0) =~= b);
        assert(!has_terminator(b.take(0))) by {
            assert(b.take(0).len() == 0);
        }
        lemma_unfold(b.take(0));
    } else {
        lemma_first_terminator(b);
        let k = first_terminator(b);
        let rest = b.skip(k + 1);
        lemma_complete_prefix(rest);
        let cr = stream_consumed(rest);
        let c = stream_consumed(b);
        assert(c == k + 1 + cr);
        assert(b.skip(c as int) =~= rest.skip(cr as int));
        let t = b.take(c as int);
        assert(t.take(k + 1) =~= b.take(k + 1));
        lemma_same_first_terminator(b, t, k);
        assert(t.skip(k + 1) =~= rest.take(cr as int));
        lemma_unfold(t);
    }
}

/// Complete lines followed by more bytes: the events and the consumed
/// length add up.
proof fn lemma_append_complete(q: Seq<u8>, r: Seq<u8>)
    requires
        stream_consumed(q) == q.len(),
    ensures
        stream_events(q + r) == stream_events(q) + stream_events(r),
        stream_consumed(q + r) == q.len() + stream_consumed(r),
    decreases q.len(),
{
    lemma_unfold(q);
    if q.len() == 0 {
        assert(q + r =~= r);
        assert(stream_events(q) + stream_events(r) =~= stream_events(r));
    } else {
        assert(has_terminator(q));
        lemma_first_terminator(q);
        let k = first_terminator(q);
        let qr = q + r;
        assert(q.take(k + 1) =~= qr.take(k + 1));
        lemma_same_first_terminator(q, qr, k);
        assert(qr.skip(k + 1) =~= q.skip(k + 1) + r);
        lemma_append_complete(q.skip(k + 1), r);
        lemma_unfold(qr);
        assert(stream_events(qr) =~= stream_events(q) + stream_events(r));
    }
}

/// However the adapter's output is cut into reads, the events come out the
/// same: the events of a first read, then those of the unfinished line with
/// the next read appended, are the events of both reads taken at once, and
/// the same unfinished line remains.
pub proof fn law_reads_may_split_lines(a: Seq<u8>, b: Seq<u8>)
    ensures
        ({
            let left = a.skip(stream_consumed(a) as int);
            &&& stream_events(a) + stream_events(left + b) == stream_events(a + b)
            &&& (left + b).skip(stream_consumed(left + b) as int) == (a + b).skip(
                stream_consumed(a + b) as int,
            )
        }),
{
    lemma_complete_prefix(a);
    let c = stream_consumed(a);
    let q = a.take(c as int);
    let left = a.skip(c as int);
    assert(a + b =~= q + (left + b));
    lemma_append_complete(q, left + b);
    let n = stream_consumed(left + b);
    lemma_complete_prefix(left + b);
    assert(stream_consumed(a + b) == c + n);
    assert((left + b).skip(n as int) =~= (q + (left + b)).skip((c + n) as int));
}

/// After the complete lines are taken, no terminator is left in the
/// unfinished line.
pub proof fn law_leftover_has_no_terminator(b: Seq<u8>)
    ensures
        !has_terminator(b.skip(stream_consumed(b) as int)),
{
    lemma_complete_prefix(b);
}

} // verus!

