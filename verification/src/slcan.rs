//! The SLCAN wire format: bitrate codes, the lines an adapter sends, the frame
//! commands a host sends, and the receive filters.
use vstd::prelude::*;
use vstd::string::StringExecFns;
use vstd::utf8::{encode_utf8, is_ascii_chars, is_ascii_chars_concat, is_ascii_chars_encode_utf8};
use vstd::arithmetic::div_mod::lemma_mod_breakdown;
use crate::comm::{error, ComServerError, FilterType};
use crate::frame::{CanFrame, FrameView};
use crate::text::{all_digits, decimal_char, hex_char, digit_value, digits_value, hex_encode_upper, hex_fixed, hex_minimal, push_char, push_hex_fixed, push_hex_minimal, upper_hex, parse_hex, all_hex_digits, spec_parse_hex_field};

verus! {

/// The SLCAN `Sx` code of a nominal bitrate, if the profile has one.
pub open spec fn spec_bitrate_code(bitrate: u32) -> Option<char> {
    if bitrate == 10_000 {
        Some('0')
    } else if bitrate == 20_000 {
        Some('1')
    } else if bitrate == 50_000 {
        Some('2')
    } else if bitrate == 100_000 {
        Some('3')
    } else if bitrate == 125_000 {
        Some('4')
    } else if bitrate == 250_000 {
        Some('5')
    } else if bitrate == 500_000 {
        Some('6')
    } else if bitrate == 800_000 {
        Some('7')
    } else if bitrate == 1_000_000 {
        Some('8')
    } else {
        None
    }
}

/// Maps a bitrate in bit/s to the digit of its `Sx` command.
pub fn bitrate_code(bitrate: u32) -> (r: Option<char>)
    ensures
        r == spec_bitrate_code(bitrate),
{
    match bitrate {
        10_000 => Some('0'),
        20_000 => Some('1'),
        50_000 => Some('2'),
        100_000 => Some('3'),
        125_000 => Some('4'),
        250_000 => Some('5'),
        500_000 => Some('6'),
        800_000 => Some('7'),
        1_000_000 => Some('8'),
        _ => None,
    }
}

/// What one line (or BEL) from the adapter means.
#[derive(Clone, Copy, Debug)]
pub enum SlcanEvent {
    Ack,
    TxAccepted,
    Nack,
    Frame(CanFrame),
    Information,
}

/// The mathematical content of an event.
#[verifier::ext_equal]
pub enum EventView {
    Ack,
    TxAccepted,
    Nack,
    Frame(FrameView),
    Information,
}

impl SlcanEvent {
    pub open spec fn spec_view(self) -> EventView {
        match self {
            SlcanEvent::Ack => EventView::Ack,
            SlcanEvent::TxAccepted => EventView::TxAccepted,
            SlcanEvent::Nack => EventView::Nack,
            SlcanEvent::Frame(f) => EventView::Frame(f.spec_view()),
            SlcanEvent::Information => EventView::Information,
        }
    }
}

pub open spec fn frame_option_view(f: Option<CanFrame>) -> Option<FrameView> {
    match f {
        Some(f) => Some(f.spec_view()),
        None => None,
    }
}

/// Width of the identifier field: three digits after `t`, eight otherwise.
pub open spec fn id_width(line: Seq<u8>) -> int {
    if line[0] == 116 {
        3
    } else {
        8
    }
}

/// Largest identifier of the format.
pub open spec fn max_id(width: int) -> u32 {
    if width == 3 {
        0x7ff
    } else {
        0x1fff_ffff
    }
}

/// The `i`-th data byte field of a frame line whose identifier has `w` digits.
pub open spec fn data_byte(line: Seq<u8>, w: int, i: int) -> Option<u32> {
    spec_parse_hex_field(line.subrange(2 + w + 2 * i, 4 + w + 2 * i))
}

/// After the data digits: nothing, or a timestamp of exactly four hexadecimal digits.
pub open spec fn valid_tail(line: Seq<u8>, end: int) -> bool {
    line.len() == end || (line.len() == end + 4 && all_digits(line.subrange(end, end + 4), 16))
}

/// A `t`/`T` line: identifier digits, DLC digit, exactly `2 * DLC` data
/// digits, and optionally a four-digit timestamp, every field hexadecimal
/// digits of either case; the identifier within its range and the DLC at
/// most eight.
pub open spec fn spec_parse_data_frame(line: Seq<u8>) -> Option<FrameView> {
    let w = id_width(line);
    if line.len() < w + 2 {
        None
    } else {
        match (
            spec_parse_hex_field(line.subrange(1, 1 + w)),
            spec_parse_hex_field(line.subrange(1 + w, 2 + w)),
        ) {
            (Some(id), Some(dlc)) => {
                if id <= max_id(w) && dlc <= 8 && valid_tail(line, w + 2 + 2 * dlc) && forall|i: int|
                    0 <= i < dlc ==> (#[trigger] data_byte(line, w, i)) is Some {
                    Some(
                        FrameView {
                            id,
                            data: Seq::new(dlc as nat, |i: int| data_byte(line, w, i).unwrap() as u8),
                        },
                    )
                } else {
                    None
                }
            },
            _ => None,
        }
    }
}

/// Reads a received data frame line (first byte `t` or `T`).
pub fn parse_data_frame(line: &[u8]) -> (r: Option<CanFrame>)
    requires
        line@.len() >= 1,
    ensures
        frame_option_view(r) == spec_parse_data_frame(line@),
{
    let width: usize = if line[0] == 116 { 3 } else { 8 };
    if line.len() < 1 + width + 1 {
        return None;
    }
    let id_field = &line[1..1 + width];
    let id = match parse_hex(id_field) {
        Some(v) => v,
        None => {
            return None;
        },
    };
    let max_id: u32 = if width == 3 { 0x7ff } else { 0x1fff_ffff };
    if id > max_id {
        return None;
    }
    let dlc_field = &line[1 + width..2 + width];
    let dlc = match parse_hex(dlc_field) {
        Some(v) => v,
        None => {
            return None;
        },
    };
    if dlc > 8 {
        return None;
    }
    let data_end: usize = 2 + width + dlc as usize * 2;
    if line.len() != data_end && line.len() != data_end + 4 {
        return None;
    }
    if line.len() == data_end + 4 && !all_hex_digits(&line[data_end..data_end + 4]) {
        return None;
    }
    let ghost w: int = width as int;
    assert(valid_tail(line@, w + 2 + 2 * dlc)) by {
        if line@.len() == data_end + 4 {
            assert(line@.subrange(data_end as int, data_end + 4) == line@.subrange(w + 2 + 2 * dlc, w + 6 + 2 * dlc));
        }
    }
    assert(line@.subrange(1 + w, 2 + w) == dlc_field@);
    let mut data: [u8; 8] = [0u8; 8];
    let mut index: usize = 0;
    while index < dlc as usize
        invariant
            index <= dlc <= 8,
            w == width,
            w == id_width(line@),
            spec_parse_hex_field(line@.subrange(1 + w, 2 + w)) == Some(dlc),
            valid_tail(line@, w + 2 + 2 * dlc),
            width == 3 || width == 8,
            line@.len() >= w + 2 + 2 * dlc,
            data@.len() == 8,
            forall|i: int|
                0 <= i < index ==> (#[trigger] data_byte(line@, w, i)) is Some && data@[i]
                    == data_byte(line@, w, i).unwrap() as u8,
        decreases dlc - index,
    {
        let field = &line[2 + width + index * 2..4 + width + index * 2];
        match parse_hex(field) {
            Some(b) => {
                assert(field@ == line@.subrange(2 + w + 2 * index, 4 + w + 2 * index));
                proof {
                    assert(data_byte(line@, w, index as int) == Some(b));
                    lemma_two_digits_fit(field@, b);
                }
                data[index] = b as u8;
                index = index + 1;
            },
            None => {
                assert(field@ == line@.subrange(2 + w + 2 * index, 4 + w + 2 * index));
                assert(data_byte(line@, w, index as int) is None);
                return None;
            },
        }
    }
    let frame = CanFrame::new(id, &data[0..dlc as usize]);
    proof {
        let spec = spec_parse_data_frame(line@);
        assert(spec is Some);
        assert(frame.spec_view().data =~= spec->0.data);
    }
    Some(frame)
}

proof fn lemma_two_digits_fit(s: Seq<u8>, v: u32)
    requires
        s.len() == 2,
        spec_parse_hex_field(s) == Some(v),
    ensures
        v <= 0xff,
{
    reveal_with_fuel(digits_value, 3);
    let t = s.drop_last();
    assert(t.drop_last().len() == 0);
    assert(digit_value(s[0], 16) is Some);
    assert(digit_value(s[1], 16) is Some);
    assert(t.last() == s[0]);
    assert(s.last() == s[1]);
    assert(digits_value(t.drop_last(), 16) == 0);
    assert(digits_value(t, 16) == digit_value(t.last(), 16).unwrap());
    assert(digits_value(s, 16) == digits_value(t, 16) * 16 + digit_value(s.last(), 16).unwrap());
}

/// What a complete line from the adapter means: an empty line acknowledges,
/// `z` alone accepts a transmit, a well-formed `t`/`T` line is a received
/// frame, and anything else is information.
pub open spec fn spec_parse_line(line: Seq<u8>) -> EventView {
    if line.len() == 0 {
        EventView::Ack
    } else if line[0] == 116 || line[0] == 84 {
        match spec_parse_data_frame(line) {
            Some(f) => EventView::Frame(f),
            None => EventView::Information,
        }
    } else if line[0] == 122 && line.len() == 1 {
        EventView::TxAccepted
    } else {
        EventView::Information
    }
}

/// Classifies one line from the adapter (without its terminator).
pub fn parse_line(line: &[u8]) -> (r: SlcanEvent)
    ensures
        r.spec_view() == spec_parse_line(line@),
{
    if line.len() == 0 {
        return SlcanEvent::Ack;
    }
    if line[0] == 116 || line[0] == 84 {
        match parse_data_frame(line) {
            Some(f) => SlcanEvent::Frame(f),
            None => SlcanEvent::Information,
        }
    } else if line[0] == 122 && line.len() == 1 {
        SlcanEvent::TxAccepted
    } else {
        SlcanEvent::Information
    }
}

/// The host command that transmits a frame: `t` and three identifier digits
/// for a standard identifier, `T` and eight for an extended one, then the DLC
/// digit and the data bytes in uppercase hexadecimal.
pub open spec fn spec_encode_frame(f: FrameView) -> Seq<char> {
    (if f.id <= 0x7ff {
        seq!['t'] + hex_fixed(f.id as nat, 3)
    } else {
        seq!['T'] + hex_fixed(f.id as nat, 8)
    }) + hex_minimal(f.data.len()) + upper_hex(f.data)
}

/// The text of the error for an identifier beyond 29 bits.
pub open spec fn invalid_id_text(id: u32) -> Seq<char> {
    "CAN ID 0x"@ + hex_minimal(id as nat) + " is invalid"@
}

/// Writes the transmit command of a frame; identifiers beyond 29 bits are refused.
pub fn encode_frame(frame: &CanFrame) -> (r: Result<String, ComServerError>)
    ensures
        frame.spec_id() <= 0x1fff_ffff ==> (r matches Ok(s) && s@ == spec_encode_frame(
            frame.spec_view(),
        )),
        frame.spec_id() > 0x1fff_ffff ==> (r matches Err(e) && e.err_code == 4 && e.err_desc@
            == invalid_id_text(frame.spec_id())),
{
    let id = frame.id();
    let mut s = String::new();
    if id <= 0x7ff {
        push_char(&mut s, 't');
        push_hex_fixed(&mut s, id, 3);
    } else if id <= 0x1fff_ffff {
        push_char(&mut s, 'T');
        push_hex_fixed(&mut s, id, 8);
    } else {
        let mut desc = String::from_str("CAN ID 0x");
        push_hex_minimal(&mut desc, id);
        desc.append(" is invalid");
        return Err(ComServerError { err_code: 4, err_desc: desc });
    }
    let dlc = frame.dlc();
    push_hex_minimal(&mut s, dlc as u32);
    let digits = hex_encode_upper(frame.get_data());
    s.append(digits.as_str());
    Ok(s)
}

/// The identifier agrees with a filter on every bit of its mask.
pub open spec fn id_matches(frame_id: u32, id: u32, mask: u32) -> bool {
    frame_id & mask == id & mask
}

pub open spec fn blocks(f: Option<FilterType>, frame_id: u32) -> bool {
    f matches Some(FilterType::Block { id, mask }) && id_matches(frame_id, id, mask)
}

pub open spec fn passes(f: Option<FilterType>, frame_id: u32) -> bool {
    f matches Some(FilterType::Pass { id, mask }) && id_matches(frame_id, id, mask)
}

pub open spec fn is_pass(f: Option<FilterType>) -> bool {
    f matches Some(FilterType::Pass { .. })
}

/// A frame is delivered unless a block filter matches it, and, where pass
/// filters are installed, only if one of them matches it.
pub open spec fn spec_frame_is_allowed(frame_id: u32, filters: Seq<Option<FilterType>>) -> bool {
    &&& !(exists|i: int| 0 <= i < filters.len() && #[trigger] blocks(filters[i], frame_id))
    &&& (!(exists|i: int| 0 <= i < filters.len() && #[trigger] is_pass(filters[i])) || exists|i: int|
        0 <= i < filters.len() && #[trigger] passes(filters[i], frame_id))
}

/// The receive filters: a frame that a block filter matches is refused; a
/// frame that no block filter matches is delivered when some pass filter
/// matches it, whatever the other pass filters say, and also when no pass
/// filter is installed; one that only non-matching pass filters face is
/// refused. Installing another pass filter in a free slot never refuses a
/// frame that a pass filter already let through.
pub proof fn law_receive_filters(
    frame_id: u32,
    filters: Seq<Option<FilterType>>,
    slot: int,
    id: u32,
    mask: u32,
)
    requires
        0 <= slot < filters.len(),
        filters[slot] is None,
    ensures
        (exists|i: int| 0 <= i < filters.len() && #[trigger] blocks(filters[i], frame_id))
            ==> !spec_frame_is_allowed(frame_id, filters),
        !(exists|i: int| 0 <= i < filters.len() && #[trigger] blocks(filters[i], frame_id))
            && (exists|i: int| 0 <= i < filters.len() && #[trigger] passes(filters[i], frame_id))
            ==> spec_frame_is_allowed(frame_id, filters),
        !(exists|i: int| 0 <= i < filters.len() && #[trigger] blocks(filters[i], frame_id))
            && (forall|i: int| 0 <= i < filters.len() ==> !#[trigger] is_pass(filters[i]))
            ==> spec_frame_is_allowed(frame_id, filters),
        (exists|i: int| 0 <= i < filters.len() && #[trigger] is_pass(filters[i])) && (forall|i: int|
            0 <= i < filters.len() ==> !#[trigger] passes(filters[i], frame_id))
            ==> !spec_frame_is_allowed(frame_id, filters),
        spec_frame_is_allowed(frame_id, filters) && (exists|i: int|
            0 <= i < filters.len() && #[trigger] passes(filters[i], frame_id))
            ==> spec_frame_is_allowed(
            frame_id,
            filters.update(slot, Some(FilterType::Pass { id, mask })),
        ),
{
    let more = filters.update(slot, Some(FilterType::Pass { id, mask }));
    if spec_frame_is_allowed(frame_id, filters) && (exists|i: int|
        0 <= i < filters.len() && #[trigger] passes(filters[i], frame_id)) {
        let i = choose|i: int| 0 <= i < filters.len() && #[trigger] passes(filters[i], frame_id);
        assert(i != slot);
        assert(more[i] == filters[i]);
        assert(passes(more[i], frame_id));
        assert forall|k: int| 0 <= k < more.len() implies !#[trigger] blocks(more[k], frame_id) by {
            if k != slot {
                assert(more[k] == filters[k]);
            }
        }
    }
}

/// Whether the receive filters let a frame through to the CAN queue.
pub fn frame_is_allowed(frame: &CanFrame, filters: &[Option<FilterType>; 10]) -> (r: bool)
    ensures
        r == spec_frame_is_allowed(frame.spec_id(), filters@),
{
    let frame_id = frame.id();
    let mut blocked = false;
    let mut has_pass = false;
    let mut passed = false;
    let mut i: usize = 0;
    while i < 10
        invariant
            i <= 10,
            filters@.len() == 10,
            frame_id == frame.spec_id(),
            blocked == exists|k: int| 0 <= k < i && #[trigger] blocks(filters@[k], frame_id),
            has_pass == exists|k: int| 0 <= k < i && #[trigger] is_pass(filters@[k]),
            passed == exists|k: int| 0 <= k < i && #[trigger] passes(filters@[k], frame_id),
        decreases 10 - i,
    {
        let f = filters[i];
        let (b, p, q) = match f {
            Some(FilterType::Block { id, mask }) => (frame_id & mask == id & mask, false, false),
            Some(FilterType::Pass { id, mask }) => (false, true, frame_id & mask == id & mask),
            _ => (false, false, false),
        };
        assert(f == filters@[i as int]);
        assert(b == blocks(filters@[i as int], frame_id));
        assert(p == is_pass(filters@[i as int]));
        assert(q == passes(filters@[i as int], frame_id));
        blocked = blocked || b;
        has_pass = has_pass || p;
        passed = passed || q;
        i = i + 1;
    }
    !blocked && (!has_pass || passed)
}

/// The reply that completes a command.
#[derive(Clone, Copy, Debug, PartialEq, Eq, Structural)]
pub enum Expected {
    /// An empty line.
    Ack,
    /// A `z` line.
    TxAccepted,
    /// An empty line or a BEL.
    AckOrNack,
}

pub open spec fn expected_matches(e: EventView, x: Expected) -> bool {
    match x {
        Expected::Ack => e is Ack,
        Expected::TxAccepted => e is TxAccepted,
        Expected::AckOrNack => e is Ack || e is Nack,
    }
}

/// How far the events that arrived settle a pending command.
#[derive(Clone, Copy, Debug, PartialEq, Eq, Structural)]
pub enum CommandReply {
    Accepted,
    Rejected,
    Pending,
}

/// The first event that is the expected reply accepts the command; a BEL before
/// that rejects it; other events (received frames, information) are passed over.
pub open spec fn spec_command_reply(events: Seq<EventView>, x: Expected) -> CommandReply
    decreases events.len(),
{
    if events.len() == 0 {
        CommandReply::Pending
    } else if expected_matches(events[0], x) {
        CommandReply::Accepted
    } else if events[0] is Nack {
        CommandReply::Rejected
    } else {
        spec_command_reply(events.drop_first(), x)
    }
}

pub open spec fn events_view(events: Seq<SlcanEvent>) -> Seq<EventView> {
    events.map_values(|e: SlcanEvent| e.spec_view())
}

/// Received frames and information lines that arrive before a command's reply
/// do not change how the reply settles the command.
pub proof fn law_unrelated_events_are_passed_over(
    before: Seq<EventView>,
    after: Seq<EventView>,
    x: Expected,
)
    requires
        forall|i: int|
            0 <= i < before.len() ==> (#[trigger] before[i] is Frame) || before[i] is Information,
    ensures
        spec_command_reply(before + after, x) == spec_command_reply(after, x),
    decreases before.len(),
{
    if before.len() > 0 {
        assert((before + after).drop_first() =~= before.drop_first() + after);
        assert(before[0] is Frame || before[0] is Information);
        law_unrelated_events_are_passed_over(before.drop_first(), after, x);
    } else {
        assert(before + after =~= after);
    }
}

/// Decides what the events read since a command was written mean for it.
pub fn command_reply(events: &[SlcanEvent], expected: Expected) -> (r: CommandReply)
    ensures
        r == spec_command_reply(events_view(events@), expected),
{
    let ghost all = events_view(events@);
    assert(all.skip(0) =~= all);
    let mut i: usize = 0;
    while i < events.len()
        invariant
            i <= events@.len(),
            all == events_view(events@),
            spec_command_reply(all, expected) == spec_command_reply(all.skip(i as int), expected),
        decreases events@.len() - i,
    {
        let e = &events[i];
        let ghost rest = all.skip(i as int);
        assert(rest[0] == e.spec_view());
        let hit = match (expected, e) {
            (Expected::Ack, SlcanEvent::Ack) => true,
            (Expected::TxAccepted, SlcanEvent::TxAccepted) => true,
            (Expected::AckOrNack, SlcanEvent::Ack) => true,
            (Expected::AckOrNack, SlcanEvent::Nack) => true,
            _ => false,
        };
        if hit {
            return CommandReply::Accepted;
        }
        if let SlcanEvent::Nack = e {
            return CommandReply::Rejected;
        }
        assert(rest.drop_first() =~= all.skip(i + 1));
        i = i + 1;
    }
    assert(all.skip(i as int).len() == 0);
    CommandReply::Pending
}

/// `16^w`: one more than the largest number that `w` hexadecimal digits write.
pub open spec fn hex_span(w: nat) -> nat
    decreases w,
{
    if w == 0 {
        1
    } else {
        16 * hex_span((w - 1) as nat)
    }
}

/// The bytes of a text of ASCII characters.
pub open spec fn ascii_bytes(s: Seq<char>) -> Seq<u8> {
    Seq::new(s.len(), |i: int| s[i] as u8)
}

proof fn lemma_hex_char(v: nat)
    requires
        v < 16,
    ensures
        digit_value(hex_char(v) as u8, 16) == Some(v),
        '\0' <= hex_char(v) <= '\u{7f}',
{
}

proof fn lemma_ascii_bytes_push(s: Seq<char>, c: char)
    ensures
        ascii_bytes(s.push(c)) =~= ascii_bytes(s).push(c as u8),
{
}

proof fn lemma_hex_fixed(n: nat, w: nat)
    ensures
        hex_fixed(n, w).len() == w,
        is_ascii_chars(hex_fixed(n, w)),
        all_digits(ascii_bytes(hex_fixed(n, w)), 16),
        digits_value(ascii_bytes(hex_fixed(n, w)), 16) == n % hex_span(w),
        hex_span(w) > 0,
    decreases w,
{
    if w == 0 {
        assert(ascii_bytes(hex_fixed(n, w)).len() == 0);
    } else {
        let h = hex_fixed(n / 16, (w - 1) as nat);
        lemma_hex_fixed(n / 16, (w - 1) as nat);
        lemma_hex_char(n % 16);
        let c = hex_char(n % 16);
        assert(hex_fixed(n, w) == h.push(c));
        lemma_ascii_bytes_push(h, c);
        let b = ascii_bytes(hex_fixed(n, w));
        assert(b.drop_last() =~= ascii_bytes(h));
        assert(b.last() == c as u8);
        assert(all_digits(b, 16)) by {
            assert forall|i: int| 0 <= i < b.len() implies (#[trigger] digit_value(b[i], 16)) is Some by {
                if i < b.len() - 1 {
                    assert(b[i] == ascii_bytes(h)[i]);
                }
            }
        }
        assert(is_ascii_chars(hex_fixed(n, w))) by {
            assert forall|i: int| 0 <= i < hex_fixed(n, w).len() implies '\0' <= #[trigger] hex_fixed(n, w)[i] <= '\u{7f}' by {
                if i < w - 1 {
                    assert(hex_fixed(n, w)[i] == h[i]);
                }
            }
        }
        lemma_mod_breakdown(n as int, 16, hex_span((w - 1) as nat) as int);
    }
}

proof fn lemma_upper_hex(d: Seq<u8>)
    ensures
        upper_hex(d).len() == 2 * d.len(),
        is_ascii_chars(upper_hex(d)),
        forall|i: int|
            0 <= i < d.len() ==> #[trigger] upper_hex(d).subrange(2 * i, 2 * i + 2) == hex_fixed(
                d[i] as nat,
                2,
            ),
    decreases d.len(),
{
    if d.len() > 0 {
        let t = d.drop_last();
        lemma_upper_hex(t);
        lemma_hex_fixed(d.last() as nat, 2);
        let u = upper_hex(d);
        assert(u == upper_hex(t) + hex_fixed(d.last() as nat, 2));
        is_ascii_chars_concat(u, upper_hex(t), hex_fixed(d.last() as nat, 2));
        assert forall|i: int| 0 <= i < d.len() implies #[trigger] u.subrange(2 * i, 2 * i + 2)
            == hex_fixed(d[i] as nat, 2) by {
            if i < d.len() - 1 {
                assert(t[i] == d[i]);
                assert(upper_hex(t).subrange(2 * i, 2 * i + 2) =~= u.subrange(2 * i, 2 * i + 2));
            } else {
                assert(u.subrange(2 * i, 2 * i + 2) =~= hex_fixed(d.last() as nat, 2));
            }
        }
    }
}

proof fn lemma_parse_hex_fixed(n: nat, w: nat, field: Seq<u8>)
    requires
        w > 0,
        n < hex_span(w),
        n <= u32::MAX,
        field =~= ascii_bytes(hex_fixed(n, w)),
    ensures
        spec_parse_hex_field(field) == Some(n as u32),
{
    lemma_hex_fixed(n, w);
    vstd::arithmetic::div_mod::lemma_small_mod(n, hex_span(w));
}

/// Appending a four-digit timestamp to a frame line without one leaves the
/// frame it gives unchanged.
proof fn lemma_timestamp_suffix(line: Seq<u8>, ts: Seq<u8>)
    requires
        line.len() >= 1,
        spec_parse_data_frame(line) is Some,
        line.len() == id_width(line) + 2 + 2 * spec_parse_data_frame(line)->0.data.len(),
        ts.len() == 4,
        all_digits(ts, 16),
    ensures
        spec_parse_data_frame(line + ts) == spec_parse_data_frame(line),
{
    let l2 = line + ts;
    let w = id_width(line);
    assert(l2[0] == line[0]);
    assert(id_width(l2) == w);
    assert(l2.subrange(1, 1 + w) =~= line.subrange(1, 1 + w));
    assert(l2.subrange(1 + w, 2 + w) =~= line.subrange(1 + w, 2 + w));
    let dlc = spec_parse_hex_field(line.subrange(1 + w, 2 + w)).unwrap();
    let end = w + 2 + 2 * dlc;
    assert(l2.subrange(end, end + 4) =~= ts);
    assert forall|i: int| 0 <= i < dlc implies #[trigger] data_byte(l2, w, i) == data_byte(line, w, i) by {
        assert(l2.subrange(2 + w + 2 * i, 4 + w + 2 * i) =~= line.subrange(2 + w + 2 * i, 4 + w + 2 * i));
    }
    assert(spec_parse_data_frame(l2)->0.data =~= spec_parse_data_frame(line)->0.data);
}

/// A transmit command, read back as a received frame line, gives the frame it
/// was written from, with or without a four-digit timestamp after it:
/// `t`/`T` commands and received frame lines share one format.
pub proof fn law_encoded_frame_parses_back(f: FrameView)
    requires
        f.id <= 0x1fff_ffff,
        f.data.len() <= 8,
    ensures
        spec_parse_data_frame(encode_utf8(spec_encode_frame(f))) == Some(f),
        forall|ts: Seq<u8>|
            ts.len() == 4 && all_digits(ts, 16) ==> #[trigger] spec_parse_data_frame(
                encode_utf8(spec_encode_frame(f)) + ts,
            ) == Some(f),
{
    let w: nat = if f.id <= 0x7ff { 3 } else { 8 };
    let lead: char = if f.id <= 0x7ff { 't' } else { 'T' };
    let idh = hex_fixed(f.id as nat, w);
    let dl = hex_minimal(f.data.len());
    let u = upper_hex(f.data);
    let s = spec_encode_frame(f);
    assert(s == seq![lead] + idh + dl + u);
    lemma_hex_fixed(f.id as nat, w);
    lemma_hex_fixed(f.data.len(), 1);
    lemma_upper_hex(f.data);
    assert(dl =~= hex_fixed(f.data.len(), 1));
    assert(is_ascii_chars(seq![lead]));
    is_ascii_chars_concat(seq![lead] + idh, seq![lead], idh);
    is_ascii_chars_concat(seq![lead] + idh + dl, seq![lead] + idh, dl);
    is_ascii_chars_concat(s, seq![lead] + idh + dl, u);
    is_ascii_chars_encode_utf8(s);
    let b = encode_utf8(s);
    assert(b =~= ascii_bytes(s));
    assert(b.len() == w + 2 + 2 * f.data.len());
    assert(id_width(b) == w) by {
        assert(b[0] == lead as u8);
    }
    reveal_with_fuel(hex_span, 9);
    let wi: int = w as int;
    assert(b.subrange(1, 1 + wi) =~= ascii_bytes(idh));
    lemma_parse_hex_fixed(f.id as nat, w, b.subrange(1, 1 + wi));
    assert(b.subrange(1 + wi, 2 + wi) =~= ascii_bytes(hex_fixed(f.data.len(), 1)));
    lemma_parse_hex_fixed(f.data.len(), 1, b.subrange(1 + wi, 2 + wi));
    assert forall|i: int| 0 <= i < f.data.len() implies (#[trigger] data_byte(b, w as int, i))
        == Some(f.data[i] as u32) by {
        assert(u.subrange(2 * i, 2 * i + 2) == hex_fixed(f.data[i] as nat, 2));
        assert(b.subrange(2 + w + 2 * i, 4 + w + 2 * i) =~= ascii_bytes(
            u.subrange(2 * i, 2 * i + 2),
        ));
        lemma_parse_hex_fixed(f.data[i] as nat, 2, b.subrange(2 + w + 2 * i, 4 + w + 2 * i));
    }
    let parsed = spec_parse_data_frame(b);
    assert(parsed is Some);
    assert(parsed->0.data =~= f.data);
    assert forall|ts: Seq<u8>| ts.len() == 4 && all_digits(ts, 16) implies #[trigger] spec_parse_data_frame(
        b + ts,
    ) == Some(f) by {
        lemma_timestamp_suffix(b, ts);
    }
}

} // verus!


