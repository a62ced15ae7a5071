//! The wire form of a message on an event stream: one frame per message,
//! and a keep-alive frame for idle connections.

use vstd::prelude::*;
use crate::error::SseError;

verus! {

/// The byte that ends a line of a frame.
pub const LINE_FEED: u8 = 10;

/// The other byte that a reader of the stream takes for the end of a line.
pub const CARRIAGE_RETURN: u8 = 13;

/// What a body is to be read as.
#[derive(Clone, Copy, Debug, PartialEq, Eq, Structural)]
pub enum ContentKind {
    /// `application/json`
    Json,
    /// `text/plain`
    Text,
    /// `text/html`
    Html,
    /// `text/event-stream`
    EventStream,
}

/// One published item.
#[derive(Debug)]
pub struct Message {
    /// The sequence number, sent as the event id.
    pub id: u64,
    /// The event name; without one a reader takes the event for a `message`.
    pub event: Option<Vec<u8>>,
    /// The payload, UTF-8 text.
    pub payload: Vec<u8>,
    /// What the payload is.
    pub content_type: ContentKind,
}

/// A message as plain values.
pub struct MessageView {
    pub id: u64,
    pub event: Option<Seq<u8>>,
    pub payload: Seq<u8>,
    pub content_type: ContentKind,
}

impl View for Message {
    type V = MessageView;

    open spec fn view(&self) -> MessageView {
        MessageView {
            id: self.id,
            event: match self.event {
                Some(name) => Some(name@),
                None => None,
            },
            payload: self.payload@,
            content_type: self.content_type,
        }
    }
}

pub open spec fn is_line_break(byte: u8) -> bool {
    byte == LINE_FEED || byte == CARRIAGE_RETURN
}

pub open spec fn has_no_line_break(bytes: Seq<u8>) -> bool {
    forall|i: int| 0 <= i < bytes.len() ==> !is_line_break(#[trigger] bytes[i])
}

/// Whether an event name fits on the `event:` line of a frame.
pub open spec fn event_is_one_line(event: Option<Seq<u8>>) -> bool {
    match event {
        Some(name) => has_no_line_break(name),
        None => true,
    }
}

/// A number in decimal digits.
pub open spec fn decimal(n: nat) -> Seq<u8>
    decreases n,
{
    if n < 10 {
        seq![(48 + n) as u8]
    } else {
        decimal(n / 10).push((48 + n % 10) as u8)
    }
}

/// The bytes of `id: `.
pub open spec fn id_field() -> Seq<u8> {
    seq![105u8, 100u8, 58u8, 32u8]
}

/// The bytes of `event: `.
pub open spec fn event_field() -> Seq<u8> {
    seq![101u8, 118u8, 101u8, 110u8, 116u8, 58u8, 32u8]
}

/// The bytes of `data: `.
pub open spec fn data_field() -> Seq<u8> {
    seq![100u8, 97u8, 116u8, 97u8, 58u8, 32u8]
}

/// The keep-alive frame: the comment line `: keep-alive` and a blank line.
pub open spec fn keep_alive_frame() -> Seq<u8> {
    seq![
        58u8, 32u8, 107u8, 101u8, 101u8, 112u8, 45u8, 97u8, 108u8, 105u8, 118u8, 101u8, 10u8,
        10u8,
    ]
}

/// What follows the first `data: ` of a frame: the payload, where each line
/// break (a line feed, a carriage return, or the two in that order) ends the
/// line and opens the next `data: ` line, and a line feed to end the last line.
pub open spec fn data_lines(payload: Seq<u8>) -> Seq<u8>
    decreases payload.len(),
{
    if payload.len() == 0 {
        seq![LINE_FEED]
    } else if payload[0] == CARRIAGE_RETURN && payload.len() >= 2 && payload[1] == LINE_FEED {
        seq![LINE_FEED] + data_field() + data_lines(payload.skip(2))
    } else if is_line_break(payload[0]) {
        seq![LINE_FEED] + data_field() + data_lines(payload.skip(1))
    } else {
        seq![payload[0]] + data_lines(payload.skip(1))
    }
}

/// The `event:` line of a frame, if the message names its event.
pub open spec fn event_line(event: Option<Seq<u8>>) -> Seq<u8> {
    match event {
        Some(name) => event_field() + name + seq![LINE_FEED],
        None => Seq::empty(),
    }
}

/// The frame of a message: the `id:` line, the `event:` line if there is
/// one, the `data:` lines, and a blank line.
pub open spec fn frame_spec(message: MessageView) -> Seq<u8> {
    id_field() + decimal(message.id as nat) + seq![LINE_FEED] + event_line(message.event)
        + data_field() + data_lines(message.payload) + seq![LINE_FEED]
}

/// Appends a number in decimal digits to `out`.
pub fn push_decimal(out: &mut Vec<u8>, n: u64)
    ensures
        final(out)@ == old(out)@ + decimal(n as nat),
    decreases n,
{
    if n >= 10 {
        push_decimal(out, n / 10);
    }
    let digit: u8 = 48 + (n % 10) as u8;
    out.push(digit);
    proof {
        assert(out@ =~= old(out)@ + decimal(n as nat));
    }
}

fn push_id_field(out: &mut Vec<u8>)
    ensures
        final(out)@ == old(out)@ + id_field(),
{
    out.push(105);
    out.push(100);
    out.push(58);
    out.push(32);
    proof {
        assert(out@ =~= old(out)@ + id_field());
    }
}

fn push_event_field(out: &mut Vec<u8>)
    ensures
        final(out)@ == old(out)@ + event_field(),
{
    out.push(101);
    out.push(118);
    out.push(101);
    out.push(110);
    out.push(116);
    out.push(58);
    out.push(32);
    proof {
        assert(out@ =~= old(out)@ + event_field());
    }
}

fn push_data_field(out: &mut Vec<u8>)
    ensures
        final(out)@ == old(out)@ + data_field(),
{
    out.push(100);
    out.push(97);
    out.push(116);
    out.push(97);
    out.push(58);
    out.push(32);
    proof {
        assert(out@ =~= old(out)@ + data_field());
    }
}

/// Appends `bytes` to `out`.
pub fn push_bytes(out: &mut Vec<u8>, bytes: &[u8])
    ensures
        final(out)@ == old(out)@ + bytes@,
{
    let n = bytes.len();
    let mut i: usize = 0;
    while i < n
        invariant
            i <= n,
            n == bytes@.len(),
            out@ == old(out)@ + bytes@.take(i as int),
        decreases n - i,
    {
        out.push(bytes[i]);
        i += 1;
        proof {
            assert(out@ =~= old(out)@ + bytes@.take(i as int));
        }
    }
    proof {
        assert(bytes@.take(n as int) =~= bytes@);
    }
}

fn push_data_lines(out: &mut Vec<u8>, payload: &[u8])
    ensures
        final(out)@ == old(out)@ + data_lines(payload@),
{
    let n = payload.len();
    let mut i: usize = 0;
    proof {
        assert(payload@.skip(0) =~= payload@);
    }
    while i < n
        invariant
            i <= n,
            n == payload@.len(),
            out@ + data_lines(payload@.skip(i as int)) == old(out)@ + data_lines(payload@),
        decreases n - i,
    {
        let ghost before = out@;
        let ghost rest = payload@.skip(i as int);
        let byte: u8 = payload[i];
        if byte == CARRIAGE_RETURN && i + 1 < n && payload[i + 1] == LINE_FEED {
            out.push(LINE_FEED);
            push_data_field(out);
            i += 2;
            proof {
                assert(rest.skip(2) =~= payload@.skip(i as int));
                assert(out@ + data_lines(payload@.skip(i as int)) =~= before + data_lines(rest));
            }
        } else if byte == CARRIAGE_RETURN || byte == LINE_FEED {
            out.push(LINE_FEED);
            push_data_field(out);
            i += 1;
            proof {
                assert(rest.skip(1) =~= payload@.skip(i as int));
                assert(out@ + data_lines(payload@.skip(i as int)) =~= before + data_lines(rest));
            }
        } else {
            out.push(byte);
            i += 1;
            proof {
                assert(rest.skip(1) =~= payload@.skip(i as int));
                assert(out@ + data_lines(payload@.skip(i as int)) =~= before + data_lines(rest));
            }
        }
    }
    out.push(LINE_FEED);
    proof {
        assert(out@ =~= old(out)@ + data_lines(payload@));
    }
}

/// Whether `bytes` holds a line feed or a carriage return.
pub fn has_line_break(bytes: &[u8]) -> (found: bool)
    ensures
        found == !has_no_line_break(bytes@),
{
    let n = bytes.len();
    let mut i: usize = 0;
    while i < n
        invariant
            i <= n,
            n == bytes@.len(),
            forall|j: int| 0 <= j < i ==> !is_line_break(#[trigger] bytes@[j]),
        decreases n - i,
    {
        if bytes[i] == LINE_FEED || bytes[i] == CARRIAGE_RETURN {
            return true;
        }
        i += 1;
    }
    false
}

/// Encodes a message as one frame.
///
/// Fails with `InternalError` exactly when the event name holds a line break,
/// which no frame can carry.
pub fn encode(message: &Message) -> (r: Result<Vec<u8>, SseError>)
    ensures
        match r {
            Ok(frame) => event_is_one_line(message@.event) && frame@ == frame_spec(message@),
            Err(error) => !event_is_one_line(message@.event) && error is InternalError,
        },
{
    let mut out: Vec<u8> = Vec::new();
    push_id_field(&mut out);
    push_decimal(&mut out, message.id);
    out.push(LINE_FEED);
    match &message.event {
        Some(name) => {
            if has_line_break(name.as_slice()) {
                return Err(SseError::InternalError);
            }
            push_event_field(&mut out);
            push_bytes(&mut out, name.as_slice());
            out.push(LINE_FEED);
        },
        None => {},
    }
    push_data_field(&mut out);
    push_data_lines(&mut out, message.payload.as_slice());
    out.push(LINE_FEED);
    proof {
        assert(out@ =~= frame_spec(message@));
    }
    Ok(out)
}

/// The frame that keeps an idle connection open.
pub fn keep_alive() -> (frame: Vec<u8>)
    ensures
        frame@ == keep_alive_frame(),
{
    let mut out: Vec<u8> = Vec::new();
    out.push(58);
    out.push(32);
    out.push(107);
    out.push(101);
    out.push(101);
    out.push(112);
    out.push(45);
    out.push(97);
    out.push(108);
    out.push(105);
    out.push(118);
    out.push(101);
    out.push(LINE_FEED);
    out.push(LINE_FEED);
    proof {
        assert(out@ =~= keep_alive_frame());
    }
    out
}

/// A run of lines of which none is empty: it starts with another byte than
/// a line feed, ends with a line feed, holds no carriage return, and no line
/// feed in it follows another.
pub open spec fn is_line_block(bytes: Seq<u8>) -> bool {
    &&& bytes.len() > 0
    &&& bytes[0] != LINE_FEED
    &&& bytes.last() == LINE_FEED
    &&& forall|i: int| 0 <= i < bytes.len() ==> #[trigger] bytes[i] != CARRIAGE_RETURN
    &&& forall|i: int|
        0 <= i < bytes.len() - 1 ==> !(#[trigger] bytes[i] == LINE_FEED && bytes[i + 1]
            == LINE_FEED)
}

/// What a reader of the stream takes for exactly one event or comment:
/// lines of which none is empty, then one empty line.
pub open spec fn is_one_frame(bytes: Seq<u8>) -> bool {
    &&& bytes.len() >= 2
    &&& bytes.last() == LINE_FEED
    &&& is_line_block(bytes.drop_last())
}

/// Every byte of a number in decimal is a digit.
pub proof fn decimal_is_digits(n: nat)
    ensures
        decimal(n).len() >= 1,
        forall|i: int| 0 <= i < decimal(n).len() ==> 48 <= #[trigger] decimal(n)[i] <= 57,
    decreases n,
{
    if n >= 10 {
        decimal_is_digits(n / 10);
    }
}

proof fn line_blocks_join(first: Seq<u8>, second: Seq<u8>)
    requires
        is_line_block(first),
        is_line_block(second),
    ensures
        is_line_block(first + second),
{
    let joined = first + second;
    assert forall|i: int| 0 <= i < joined.len() implies #[trigger] joined[i]
        != CARRIAGE_RETURN by {
        if i < first.len() {
            assert(joined[i] == first[i]);
        } else {
            assert(joined[i] == second[i - first.len()]);
        }
    }
    assert forall|i: int| 0 <= i < joined.len() - 1 implies !(#[trigger] joined[i] == LINE_FEED
        && joined[i + 1] == LINE_FEED) by {
        if i + 1 < first.len() {
            assert(joined[i] == first[i]);
            assert(joined[i + 1] == first[i + 1]);
        } else if i < first.len() {
            assert(joined[i + 1] == second[0]);
        } else {
            assert(joined[i] == second[i - first.len()]);
            assert(joined[i + 1] == second[i - first.len() + 1]);
        }
    }
}

proof fn data_lines_shape(payload: Seq<u8>)
    ensures
        data_lines(payload).len() > 0,
        data_lines(payload).last() == LINE_FEED,
        forall|i: int|
            0 <= i < data_lines(payload).len() ==> #[trigger] data_lines(payload)[i]
                != CARRIAGE_RETURN,
        forall|i: int|
            0 <= i < data_lines(payload).len() - 1 && #[trigger] data_lines(payload)[i]
                == LINE_FEED ==> data_lines(payload)[i + 1] == 100,
    decreases payload.len(),
{
    let lines = data_lines(payload);
    if payload.len() == 0 {
    } else {
        let broken = is_line_break(payload[0]);
        let rest = if payload[0] == CARRIAGE_RETURN && payload.len() >= 2 && payload[1]
            == LINE_FEED {
            payload.skip(2)
        } else {
            payload.skip(1)
        };
        data_lines_shape(rest);
        let tail = data_lines(rest);
        let head = if broken {
            seq![LINE_FEED] + data_field()
        } else {
            seq![payload[0]]
        };
        assert(lines =~= head + tail);
        assert forall|i: int| 0 <= i < lines.len() implies #[trigger] lines[i]
            != CARRIAGE_RETURN by {
            if i >= head.len() {
                assert(lines[i] == tail[i - head.len()]);
            }
        }
        assert forall|i: int| 0 <= i < lines.len() - 1 && #[trigger] lines[i]
            == LINE_FEED implies lines[i + 1] == 100 by {
            if i >= head.len() {
                assert(lines[i] == tail[i - head.len()]);
                assert(lines[i + 1] == tail[i - head.len() + 1]);
            } else if i + 1 < head.len() {
                assert(lines[i + 1] == head[i + 1]);
            } else {
                assert(lines[i] == head[i]);
            }
        }
        assert(lines.last() == tail.last());
    }
}

/// The frame of a message whose event name holds no line break is exactly
/// one frame to a reader: no line of it is empty but the last, and it holds
/// no carriage return.
pub proof fn frame_is_one_frame(message: MessageView)
    requires
        event_is_one_line(message.event),
    ensures
        is_one_frame(frame_spec(message)),
        frame_spec(message)[0] == 105,
{
    let digits = decimal(message.id as nat);
    decimal_is_digits(message.id as nat);
    let id_line = id_field() + digits + seq![LINE_FEED];
    assert(is_line_block(id_line)) by {
        assert forall|i: int| 0 <= i < id_line.len() - 1 implies id_line[i] != LINE_FEED by {
            if i >= 4 {
                assert(id_line[i] == digits[i - 4]);
            }
        }
        assert forall|i: int| 0 <= i < id_line.len() implies #[trigger] id_line[i]
            != CARRIAGE_RETURN by {
            if 4 <= i < id_line.len() - 1 {
                assert(id_line[i] == digits[i - 4]);
            }
        }
    }
    let data = data_field() + data_lines(message.payload);
    data_lines_shape(message.payload);
    assert(is_line_block(data)) by {
        let lines = data_lines(message.payload);
        assert forall|i: int| 0 <= i < data.len() implies #[trigger] data[i]
            != CARRIAGE_RETURN by {
            if i >= 6 {
                assert(data[i] == lines[i - 6]);
            }
        }
        assert forall|i: int| 0 <= i < data.len() - 1 implies !(#[trigger] data[i] == LINE_FEED
            && data[i + 1] == LINE_FEED) by {
            if i >= 6 {
                assert(data[i] == lines[i - 6]);
                assert(data[i + 1] == lines[i - 6 + 1]);
            }
        }
        assert(data.last() == lines.last());
    }
    let head = match message.event {
        Some(name) => {
            let line = event_field() + name + seq![LINE_FEED];
            assert(is_line_block(line)) by {
                assert forall|i: int| 0 <= i < line.len() - 1 implies !is_line_break(
                    line[i],
                ) by {
                    if i >= 7 {
                        assert(line[i] == name[i - 7]);
                    }
                }
            }
            line_blocks_join(id_line, line);
            id_line + line
        },
        None => id_line,
    };
    line_blocks_join(head, data);
    let frame = frame_spec(message);
    assert(frame.drop_last() =~= head + data);
    assert(frame[0] == id_line[0]);
}

/// A payload without a line break travels on one `data:` line, unchanged.
pub proof fn single_line_payload(payload: Seq<u8>)
    requires
        has_no_line_break(payload),
    ensures
        data_lines(payload) == payload.push(LINE_FEED),
    decreases payload.len(),
{
    if payload.len() > 0 {
        let rest = payload.skip(1);
        assert forall|i: int| 0 <= i < rest.len() implies !is_line_break(#[trigger] rest[i]) by {
            assert(rest[i] == payload[i + 1]);
        }
        single_line_payload(rest);
        assert(!is_line_break(payload[0]));
        assert(data_lines(payload) =~= payload.push(LINE_FEED));
    } else {
        assert(data_lines(payload) =~= payload.push(LINE_FEED));
    }
}

/// The keep-alive frame is one frame to a reader, and no frame of a message:
/// it starts with a colon, a message's frame with `id`.
pub proof fn keep_alive_is_no_message(message: MessageView)
    ensures
        is_one_frame(keep_alive_frame()),
        keep_alive_frame()[0] == 58,
        frame_spec(message)[0] == 105,
        keep_alive_frame() != frame_spec(message),
{
    let block = keep_alive_frame().drop_last();
    assert(block.len() == 13);
    assert(is_line_block(block));
    assert(frame_spec(message)[0] == id_field()[0]);
}

/// The frame of a message without an event name whose payload is one line:
/// the `id:` line, the payload on one `data:` line, and a blank line.
pub proof fn frame_of_single_line(id: u64, payload: Seq<u8>, content_type: ContentKind)
    requires
        has_no_line_break(payload),
    ensures
        frame_spec(MessageView { id, event: None, payload, content_type }) == id_field() + decimal(
            id as nat,
        ) + seq![LINE_FEED] + data_field() + payload + seq![LINE_FEED, LINE_FEED],
{
    single_line_payload(payload);
    let message = MessageView { id, event: None, payload, content_type };
    assert(frame_spec(message) =~= id_field() + decimal(id as nat) + seq![LINE_FEED]
        + data_field() + payload + seq![LINE_FEED, LINE_FEED]);
}

} // verus!
