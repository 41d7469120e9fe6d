//! An OpenAI chat-completions stream rewritten as an Anthropic messages
//! stream.
//!
//! The adapter is a fold over the upstream bytes.  Bytes are gathered into a
//! line; each newline hands the line to the state machine, which answers with
//! the Anthropic events to send on.  Nothing is produced for a line that is
//! not yet complete, so the way the upstream splits its chunks never shows.

use crate::json::{json_text, parsed_json, ArrayBuilder, Json, JsonValue, ObjectBuilder};
use crate::protocol::fields::{low_i32, low_i32_of};
use crate::sse::{format_sse, split_field, sse_field, sse_format};
use crate::text::{
    append_text, chars_of, is_text, lossy_text, string_of, trim, trim_chars, utf8_lossy,
};
use vstd::prelude::*;
use vstd::utf8::encode_utf8;

verus! {

/// An event of the Anthropic stream.
#[derive(Debug)]
pub enum AnthropicEvent {
    MessageStart { id: String, model: String },
    ContentBlockStart,
    ContentBlockDelta { text: String },
    ContentBlockStop,
    MessageDelta { output_tokens: Option<i32> },
    MessageStop,
}

/// The mathematical value of an `AnthropicEvent`.
pub enum AnthropicEventView {
    MessageStart { id: Seq<char>, model: Seq<char> },
    ContentBlockStart,
    ContentBlockDelta { text: Seq<char> },
    ContentBlockStop,
    MessageDelta { output_tokens: Option<i32> },
    MessageStop,
}

impl View for AnthropicEvent {
    type V = AnthropicEventView;

    open spec fn view(&self) -> AnthropicEventView {
        match self {
            AnthropicEvent::MessageStart { id, model } => AnthropicEventView::MessageStart {
                id: id@,
                model: model@,
            },
            AnthropicEvent::ContentBlockStart => AnthropicEventView::ContentBlockStart,
            AnthropicEvent::ContentBlockDelta { text } => AnthropicEventView::ContentBlockDelta {
                text: text@,
            },
            AnthropicEvent::ContentBlockStop => AnthropicEventView::ContentBlockStop,
            AnthropicEvent::MessageDelta { output_tokens } => AnthropicEventView::MessageDelta {
                output_tokens: *output_tokens,
            },
            AnthropicEvent::MessageStop => AnthropicEventView::MessageStop,
        }
    }
}

impl AnthropicEventView {
    /// The event's name on the wire.
    pub open spec fn name(self) -> Seq<char> {
        match self {
            AnthropicEventView::MessageStart { .. } => "message_start"@,
            AnthropicEventView::ContentBlockStart => "content_block_start"@,
            AnthropicEventView::ContentBlockDelta { .. } => "content_block_delta"@,
            AnthropicEventView::ContentBlockStop => "content_block_stop"@,
            AnthropicEventView::MessageDelta { .. } => "message_delta"@,
            AnthropicEventView::MessageStop => "message_stop"@,
        }
    }

    /// The JSON document sent as the event's data.
    pub open spec fn payload(self) -> JsonValue {
        match self {
            AnthropicEventView::MessageStart { id, model } => JsonValue::Obj(
                Seq::empty().push(("type"@, JsonValue::Str("message_start"@))).push(
                    (
                        "message"@,
                        JsonValue::Obj(
                            Seq::empty().push(("id"@, JsonValue::Str(id))).push(
                                ("type"@, JsonValue::Str("message"@)),
                            ).push(("role"@, JsonValue::Str("assistant"@))).push(
                                ("content"@, JsonValue::Arr(Seq::empty())),
                            ).push(("model"@, JsonValue::Str(model))).push(
                                ("stop_reason"@, JsonValue::Null),
                            ).push(("stop_sequence"@, JsonValue::Null)),
                        ),
                    ),
                ),
            ),
            AnthropicEventView::ContentBlockStart => JsonValue::Obj(
                Seq::empty().push(("type"@, JsonValue::Str("content_block_start"@))).push(
                    ("index"@, JsonValue::Int(0)),
                ).push(
                    (
                        "content_block"@,
                        JsonValue::Obj(
                            Seq::empty().push(("type"@, JsonValue::Str("text"@))).push(
                                ("text"@, JsonValue::Str(""@)),
                            ),
                        ),
                    ),
                ),
            ),
            AnthropicEventView::ContentBlockDelta { text } => JsonValue::Obj(
                Seq::empty().push(("type"@, JsonValue::Str("content_block_delta"@))).push(
                    ("index"@, JsonValue::Int(0)),
                ).push(
                    (
                        "delta"@,
                        JsonValue::Obj(
                            Seq::empty().push(("type"@, JsonValue::Str("text_delta"@))).push(
                                ("text"@, JsonValue::Str(text)),
                            ),
                        ),
                    ),
                ),
            ),
            AnthropicEventView::ContentBlockStop => JsonValue::Obj(
                Seq::empty().push(("type"@, JsonValue::Str("content_block_stop"@))).push(
                    ("index"@, JsonValue::Int(0)),
                ),
            ),
            AnthropicEventView::MessageDelta { output_tokens } => {
                let head = Seq::empty().push(("type"@, JsonValue::Str("message_delta"@))).push(
                    (
                        "delta"@,
                        JsonValue::Obj(
                            Seq::empty().push(("stop_reason"@, JsonValue::Str("end_turn"@))),
                        ),
                    ),
                );
                match output_tokens {
                    Some(n) => JsonValue::Obj(
                        head.push(
                            (
                                "usage"@,
                                JsonValue::Obj(
                                    Seq::empty().push(
                                        ("output_tokens"@, JsonValue::Int(n as i64)),
                                    ),
                                ),
                            ),
                        ),
                    ),
                    None => JsonValue::Obj(head),
                }
            },
            AnthropicEventView::MessageStop => JsonValue::Obj(
                Seq::empty().push(("type"@, JsonValue::Str("message_stop"@))),
            ),
        }
    }

    /// The event as SSE text.
    pub open spec fn sse(self) -> Seq<char> {
        sse_format(Some(self.name()), json_text(self.payload()))
    }

    /// The token text that the event carries.
    pub open spec fn text(self) -> Seq<char> {
        match self {
            AnthropicEventView::ContentBlockDelta { text } => text,
            _ => Seq::empty(),
        }
    }
}

/// The values of a list of events.
pub open spec fn events_view(v: Seq<AnthropicEvent>) -> Seq<AnthropicEventView> {
    Seq::new(v.len(), |i: int| v[i]@)
}

/// The bytes sent for a list of events.
pub open spec fn wire(events: Seq<AnthropicEventView>) -> Seq<u8>
    decreases events.len(),
{
    if events.len() == 0 {
        Seq::empty()
    } else {
        wire(events.drop_last()) + encode_utf8(events.last().sse())
    }
}

/// The token text carried by a list of events.
pub open spec fn events_text(events: Seq<AnthropicEventView>) -> Seq<char>
    decreases events.len(),
{
    if events.len() == 0 {
        Seq::empty()
    } else {
        events_text(events.drop_last()) + events.last().text()
    }
}

impl AnthropicEvent {
    pub fn name(&self) -> (r: &'static str)
        ensures
            r@ == self@.name(),
    {
        match self {
            AnthropicEvent::MessageStart { .. } => "message_start",
            AnthropicEvent::ContentBlockStart => "content_block_start",
            AnthropicEvent::ContentBlockDelta { .. } => "content_block_delta",
            AnthropicEvent::ContentBlockStop => "content_block_stop",
            AnthropicEvent::MessageDelta { .. } => "message_delta",
            AnthropicEvent::MessageStop => "message_stop",
        }
    }

    /// The JSON document sent as the event's data.
    pub fn payload(&self) -> (r: Json)
        ensures
            r@ == self@.payload(),
    {
        match self {
            AnthropicEvent::MessageStart { id, model } => {
                let mut message = ObjectBuilder::new();
                message.put("id", Json::Str(id.clone()));
                message.put("type", Json::text("message"));
                message.put("role", Json::text("assistant"));
                message.put("content", ArrayBuilder::new().build());
                message.put("model", Json::Str(model.clone()));
                message.put("stop_reason", Json::Null);
                message.put("stop_sequence", Json::Null);
                let mut event = ObjectBuilder::new();
                event.put("type", Json::text("message_start"));
                event.put("message", message.build());
                event.build()
            },
            AnthropicEvent::ContentBlockStart => {
                let mut block = ObjectBuilder::new();
                block.put("type", Json::text("text"));
                block.put("text", Json::text(""));
                let mut event = ObjectBuilder::new();
                event.put("type", Json::text("content_block_start"));
                event.put("index", Json::Int(0));
                event.put("content_block", block.build());
                event.build()
            },
            AnthropicEvent::ContentBlockDelta { text } => {
                let mut delta = ObjectBuilder::new();
                delta.put("type", Json::text("text_delta"));
                delta.put("text", Json::Str(text.clone()));
                let mut event = ObjectBuilder::new();
                event.put("type", Json::text("content_block_delta"));
                event.put("index", Json::Int(0));
                event.put("delta", delta.build());
                event.build()
            },
            AnthropicEvent::ContentBlockStop => {
                let mut event = ObjectBuilder::new();
                event.put("type", Json::text("content_block_stop"));
                event.put("index", Json::Int(0));
                event.build()
            },
            AnthropicEvent::MessageDelta { output_tokens } => {
                let mut delta = ObjectBuilder::new();
                delta.put("stop_reason", Json::text("end_turn"));
                let mut event = ObjectBuilder::new();
                event.put("type", Json::text("message_delta"));
                event.put("delta", delta.build());
                match output_tokens {
                    Some(n) => {
                        let mut usage = ObjectBuilder::new();
                        usage.put("output_tokens", Json::Int(*n as i64));
                        event.put("usage", usage.build());
                    },
                    None => {},
                }
                event.build()
            },
            AnthropicEvent::MessageStop => {
                let mut event = ObjectBuilder::new();
                event.put("type", Json::text("message_stop"));
                event.build()
            },
        }
    }

    /// The event as SSE text.
    pub fn to_sse(&self) -> (r: String)
        ensures
            r@ == self@.sse(),
    {
        let data = self.payload().to_text();
        format_sse(Some(self.name()), data.as_str())
    }
}

/// What the adapter remembers between chunks.
pub struct ToAnthropicState {
    /// Bytes of the line that is not yet complete.
    pub line: Seq<u8>,
    pub message_started: bool,
    pub content_block_started: bool,
    pub message_id: Seq<char>,
    pub model: Seq<char>,
    pub pending_output_tokens: Option<i32>,
    /// Set by `[DONE]`; nothing is read after it.
    pub finished: bool,
}

/// The state before the first byte.
pub open spec fn initial_state() -> ToAnthropicState {
    ToAnthropicState {
        line: Seq::empty(),
        message_started: false,
        content_block_started: false,
        message_id: Seq::empty(),
        model: Seq::empty(),
        pending_output_tokens: None,
        finished: false,
    }
}

/// The output-token count to remember after a chunk: a chunk with a
/// non-null `usage` replaces it by that usage's `completion_tokens`.
pub open spec fn pending_after(prev: Option<i32>, d: JsonValue) -> Option<i32> {
    match d.get("usage"@) {
        Some(u) => if u.is_null() {
            prev
        } else {
            match u.member("completion_tokens"@).as_i64() {
                Some(t) => Some(low_i32(t)),
                None => None,
            }
        },
        None => prev,
    }
}

/// `choices[0].delta` of a chunk.
pub open spec fn delta_of(d: JsonValue) -> Option<JsonValue> {
    match d.member("choices"@).at(0) {
        Some(choice) => choice.get("delta"@),
        None => None,
    }
}

/// The token text of a chunk: `choices[0].delta.content` where that is a
/// string, else nothing.
pub open spec fn chunk_text(d: JsonValue) -> Seq<char> {
    match delta_of(d) {
        Some(delta) => match delta.member("content"@).as_str() {
            Some(s) => s,
            None => Seq::empty(),
        },
        None => Seq::empty(),
    }
}

/// Whether `choices[0].delta` names a role.
pub open spec fn chunk_has_role(d: JsonValue) -> bool {
    match delta_of(d) {
        Some(delta) => delta.get("role"@) is Some,
        None => false,
    }
}

/// One parsed chunk: the first chunk opens the message, a role or the first
/// text opens the content block, and non-empty text is passed on.
pub open spec fn on_data(st: ToAnthropicState, d: JsonValue) -> (
    ToAnthropicState,
    Seq<AnthropicEventView>,
) {
    let id = if st.message_started {
        st.message_id
    } else {
        d.str_or("id"@, "msg_unknown"@)
    };
    let model = if st.message_started {
        st.model
    } else {
        d.str_or("model"@, "unknown"@)
    };
    let start = if st.message_started {
        Seq::empty()
    } else {
        seq![AnthropicEventView::MessageStart { id, model }]
    };
    let text = chunk_text(d);
    let opens = !st.content_block_started && (chunk_has_role(d) || text.len() > 0);
    let open = if opens {
        seq![AnthropicEventView::ContentBlockStart]
    } else {
        Seq::empty()
    };
    let delta = if text.len() > 0 {
        seq![AnthropicEventView::ContentBlockDelta { text }]
    } else {
        Seq::empty()
    };
    (
        ToAnthropicState {
            line: st.line,
            message_started: true,
            content_block_started: st.content_block_started || opens,
            message_id: id,
            model,
            pending_output_tokens: pending_after(st.pending_output_tokens, d),
            finished: st.finished,
        },
        start + open + delta,
    )
}

/// The `[DONE]` marker: close the content block if one is open, report the
/// stop reason with the output tokens if known, and end the message.
pub open spec fn on_done(st: ToAnthropicState) -> (ToAnthropicState, Seq<AnthropicEventView>) {
    let close = if st.content_block_started {
        seq![AnthropicEventView::ContentBlockStop]
    } else {
        Seq::empty()
    };
    (
        ToAnthropicState {
            line: st.line,
            message_started: st.message_started,
            content_block_started: st.content_block_started,
            message_id: st.message_id,
            model: st.model,
            pending_output_tokens: st.pending_output_tokens,
            finished: true,
        },
        close + seq![
            AnthropicEventView::MessageDelta { output_tokens: st.pending_output_tokens },
            AnthropicEventView::MessageStop,
        ],
    )
}

/// What a complete line holds for the state machine.
pub enum LineKind {
    /// A `data:` line with the `[DONE]` marker.
    Done,
    /// A `data:` line with a JSON document.
    Data(JsonValue),
    /// Anything else: a blank line, a comment, another field, bad JSON.
    Other,
}

/// Reads one line: decode leniently, trim, split at the colon, and parse
/// the value of a `data` field.
pub open spec fn classify(raw: Seq<u8>) -> LineKind {
    match sse_field(trim(utf8_lossy(raw))) {
        Some((field, value)) => if field == "data"@ {
            if value == "[DONE]"@ {
                LineKind::Done
            } else {
                match parsed_json(encode_utf8(value)) {
                    Ok(d) => LineKind::Data(d),
                    Err(_) => LineKind::Other,
                }
            }
        } else {
            LineKind::Other
        },
        None => LineKind::Other,
    }
}

/// One complete line.
pub open spec fn on_line(st: ToAnthropicState, raw: Seq<u8>) -> (
    ToAnthropicState,
    Seq<AnthropicEventView>,
) {
    match classify(raw) {
        LineKind::Done => on_done(st),
        LineKind::Data(d) => on_data(st, d),
        LineKind::Other => (st, Seq::empty()),
    }
}

/// The state with an empty line buffer.
pub open spec fn with_line(st: ToAnthropicState, line: Seq<u8>) -> ToAnthropicState {
    ToAnthropicState {
        line,
        message_started: st.message_started,
        content_block_started: st.content_block_started,
        message_id: st.message_id,
        model: st.model,
        pending_output_tokens: st.pending_output_tokens,
        finished: st.finished,
    }
}

/// One upstream byte: a newline completes the line, any other byte joins
/// it; after `[DONE]` every byte is dropped.
pub open spec fn step(st: ToAnthropicState, b: u8) -> (ToAnthropicState, Seq<AnthropicEventView>) {
    if st.finished {
        (st, Seq::empty())
    } else if b == 10 {
        on_line(with_line(st, Seq::empty()), st.line)
    } else {
        (with_line(st, st.line.push(b)), Seq::empty())
    }
}

/// A run of upstream bytes, one `step` after the other.
pub open spec fn feed(st: ToAnthropicState, bytes: Seq<u8>) -> (
    ToAnthropicState,
    Seq<AnthropicEventView>,
)
    decreases bytes.len(),
{
    if bytes.len() == 0 {
        (st, Seq::empty())
    } else {
        let (s1, e1) = feed(st, bytes.drop_last());
        let (s2, e2) = step(s1, bytes.last());
        (s2, e1 + e2)
    }
}

pub proof fn lemma_wire_push(events: Seq<AnthropicEventView>, e: AnthropicEventView)
    ensures
        wire(events.push(e)) == wire(events) + encode_utf8(e.sse()),
{
    assert(events.push(e).drop_last() =~= events);
}

pub proof fn lemma_wire_concat(a: Seq<AnthropicEventView>, b: Seq<AnthropicEventView>)
    ensures
        wire(a + b) == wire(a) + wire(b),
    decreases b.len(),
{
    if b.len() == 0 {
        assert(a + b =~= a);
        assert(wire(a) + wire(b) =~= wire(a));
    } else {
        lemma_wire_concat(a, b.drop_last());
        assert((a + b).drop_last() =~= a + b.drop_last());
        assert((a + b).last() == b.last());
        assert(wire(a) + (wire(b.drop_last()) + encode_utf8(b.last().sse())) =~= (wire(a) + wire(
            b.drop_last(),
        )) + encode_utf8(b.last().sse()));
    }
}

pub proof fn lemma_events_text_push(events: Seq<AnthropicEventView>, e: AnthropicEventView)
    ensures
        events_text(events.push(e)) == events_text(events) + e.text(),
        events_text(Seq::<AnthropicEventView>::empty()) == Seq::<char>::empty(),
{
    assert(events.push(e).drop_last() =~= events);
}

pub proof fn lemma_events_text_concat(a: Seq<AnthropicEventView>, b: Seq<AnthropicEventView>)
    ensures
        events_text(a + b) == events_text(a) + events_text(b),
    decreases b.len(),
{
    if b.len() == 0 {
        assert(a + b =~= a);
        assert(events_text(a) + events_text(b) =~= events_text(a));
    } else {
        lemma_events_text_concat(a, b.drop_last());
        assert((a + b).drop_last() =~= a + b.drop_last());
        assert((a + b).last() == b.last());
        assert(events_text(a) + (events_text(b.drop_last()) + b.last().text()) =~= (events_text(a)
            + events_text(b.drop_last())) + b.last().text());
    }
}

/// The token text of the upstream: the text of every `data` chunk on a line
/// that is completed before `[DONE]`.
pub open spec fn source_text(st: ToAnthropicState, bytes: Seq<u8>) -> Seq<char>
    decreases bytes.len(),
{
    if bytes.len() == 0 {
        Seq::empty()
    } else {
        let before = feed(st, bytes.drop_last()).0;
        let last = if !before.finished && bytes.last() == 10 {
            match classify(before.line) {
                LineKind::Data(d) => chunk_text(d),
                _ => Seq::empty(),
            }
        } else {
            Seq::empty()
        };
        source_text(st, bytes.drop_last()) + last
    }
}

/// The events for one chunk carry exactly the chunk's token text.
pub proof fn lemma_on_data_keeps_text(st: ToAnthropicState, d: JsonValue)
    ensures
        events_text(on_data(st, d).1) == chunk_text(d),
{
    let events = on_data(st, d).1;
    let text = chunk_text(d);
    let start: Seq<AnthropicEventView> = if st.message_started {
        Seq::empty()
    } else {
        seq![
            AnthropicEventView::MessageStart {
                id: d.str_or("id"@, "msg_unknown"@),
                model: d.str_or("model"@, "unknown"@),
            },
        ]
    };
    let opens = !st.content_block_started && (chunk_has_role(d) || text.len() > 0);
    let open: Seq<AnthropicEventView> = if opens {
        seq![AnthropicEventView::ContentBlockStart]
    } else {
        Seq::empty()
    };
    let delta: Seq<AnthropicEventView> = if text.len() > 0 {
        seq![AnthropicEventView::ContentBlockDelta { text }]
    } else {
        Seq::empty()
    };
    assert(events == start + open + delta);
    lemma_events_text_concat(start + open, delta);
    lemma_events_text_concat(start, open);
    assert(events_text(start) =~= Seq::empty()) by {
        lemma_events_text_push(Seq::empty(), start[0]);
    }
    assert(events_text(open) =~= Seq::empty()) by {
        lemma_events_text_push(Seq::empty(), open[0]);
    }
    assert(events_text(delta) =~= text) by {
        lemma_events_text_push(Seq::empty(), delta[0]);
    }
    assert(events_text(events) =~= text);
}

/// The closing events carry no token text.
pub proof fn lemma_on_done_has_no_text(st: ToAnthropicState)
    ensures
        events_text(on_done(st).1) == Seq::<char>::empty(),
{
    let close: Seq<AnthropicEventView> = if st.content_block_started {
        seq![AnthropicEventView::ContentBlockStop]
    } else {
        Seq::empty()
    };
    let m = AnthropicEventView::MessageDelta { output_tokens: st.pending_output_tokens };
    let tail = Seq::empty().push(m).push(AnthropicEventView::MessageStop);
    assert(on_done(st).1 =~= close + tail);
    lemma_events_text_concat(close, tail);
    assert(events_text(close) =~= Seq::empty()) by {
        lemma_events_text_push(Seq::empty(), close[0]);
    }
    lemma_events_text_push(Seq::empty(), m);
    lemma_events_text_push(Seq::empty().push(m), AnthropicEventView::MessageStop);
    assert(events_text(tail) =~= Seq::empty());
}

/// The token text of the events sent equals the token text of the upstream:
/// concatenating `delta.text` over what goes out gives what concatenating
/// `choices[0].delta.content` over what came in gives.
pub proof fn lemma_stream_keeps_text(st: ToAnthropicState, bytes: Seq<u8>)
    ensures
        events_text(feed(st, bytes).1) == source_text(st, bytes),
    decreases bytes.len(),
{
    if bytes.len() > 0 {
        let prev = bytes.drop_last();
        lemma_stream_keeps_text(st, prev);
        let (s1, e1) = feed(st, prev);
        let (s2, e2) = step(s1, bytes.last());
        lemma_events_text_concat(e1, e2);
        if !s1.finished && bytes.last() == 10 {
            let s0 = with_line(s1, Seq::empty());
            match classify(s1.line) {
                LineKind::Done => {
                    lemma_on_done_has_no_text(s0);
                },
                LineKind::Data(d) => {
                    lemma_on_data_keeps_text(s0, d);
                },
                LineKind::Other => {},
            }
        }
    }
}

/// The data of a text event holds the text under `delta.text`.
pub proof fn lemma_delta_payload(text: Seq<char>)
    ensures
        (AnthropicEventView::ContentBlockDelta { text }).payload().member("type"@).as_str() == Some(
            "content_block_delta"@,
        ),
        (AnthropicEventView::ContentBlockDelta { text }).payload().member("delta"@).member(
            "text"@,
        ).as_str() == Some(text),
{
    reveal_strlit("type");
    reveal_strlit("index");
    reveal_strlit("delta");
    reveal_strlit("text");
    let p = (AnthropicEventView::ContentBlockDelta { text }).payload();
    let inner = Seq::empty().push(("type"@, JsonValue::Str("text_delta"@))).push(
        ("text"@, JsonValue::Str(text)),
    );
    let outer = Seq::empty().push(("type"@, JsonValue::Str("content_block_delta"@))).push(
        ("index"@, JsonValue::Int(0)),
    ).push(("delta"@, JsonValue::Obj(inner)));
    assert(p == JsonValue::Obj(outer));
    assert("type"@ != "delta"@) by {
        assert("type"@.len() == 4 && "delta"@.len() == 5);
    }
    assert("index"@ != "delta"@) by {
        assert("index"@[0] == 'i' && "delta"@[0] == 'd');
    }
    assert("type"@ != "text"@) by {
        assert("type"@[1] == 'y' && "text"@[1] == 'e');
    }
    crate::json::lemma_position_unique(outer, "type"@, 0);
    crate::json::lemma_position(outer, "type"@);
    crate::json::lemma_position_unique(outer, "delta"@, 2);
    crate::json::lemma_position(outer, "delta"@);
    crate::json::lemma_position_unique(inner, "text"@, 1);
    crate::json::lemma_position(inner, "text"@);
}

/// Feeding two chunks one after the other gives the state and the events of
/// feeding their concatenation: where the upstream cuts its chunks, even in
/// the middle of a line, does not show.
pub proof fn lemma_feed_concat(st: ToAnthropicState, a: Seq<u8>, b: Seq<u8>)
    ensures
        feed(st, a + b).0 == feed(feed(st, a).0, b).0,
        feed(st, a + b).1 == feed(st, a).1 + feed(feed(st, a).0, b).1,
        wire(feed(st, a + b).1) == wire(feed(st, a).1) + wire(feed(feed(st, a).0, b).1),
    decreases b.len(),
{
    let mid = feed(st, a).0;
    if b.len() == 0 {
        assert(a + b =~= a);
        assert(feed(st, a).1 + feed(mid, b).1 =~= feed(st, a).1);
    } else {
        lemma_feed_concat(st, a, b.drop_last());
        assert((a + b).drop_last() =~= a + b.drop_last());
        assert((a + b).last() == b.last());
        let e1 = feed(st, a).1;
        let e2 = feed(mid, b.drop_last()).1;
        let e3 = step(feed(mid, b.drop_last()).0, b.last()).1;
        assert((e1 + e2) + e3 =~= e1 + (e2 + e3));
    }
    lemma_wire_concat(feed(st, a).1, feed(mid, b).1);
}

/// Bytes without a newline complete no line: they join the line buffer and
/// nothing is sent.
pub proof fn lemma_partial_line_is_silent(st: ToAnthropicState, bytes: Seq<u8>)
    requires
        forall|i: int| 0 <= i < bytes.len() ==> bytes[i] != 10,
    ensures
        feed(st, bytes).1 == Seq::<AnthropicEventView>::empty(),
        wire(feed(st, bytes).1) == Seq::<u8>::empty(),
        st.finished ==> feed(st, bytes).0 == st,
        !st.finished ==> feed(st, bytes).0 == with_line(st, st.line + bytes),
    decreases bytes.len(),
{
    if bytes.len() == 0 {
        assert(st.line + bytes =~= st.line);
    } else {
        let prev = bytes.drop_last();
        lemma_partial_line_is_silent(st, prev);
        assert(bytes.last() == bytes[bytes.len() - 1]);
        assert((st.line + prev).push(bytes.last()) =~= st.line + bytes);
        assert(feed(st, prev).1 + Seq::<AnthropicEventView>::empty() =~= feed(st, prev).1);
    }
}

/// The per-stream adapter from an OpenAI upstream to an Anthropic client.
pub struct OpenAiToAnthropicStream {
    line: Vec<u8>,
    message_started: bool,
    content_block_started: bool,
    message_id: String,
    model: String,
    pending_output_tokens: Option<i32>,
    finished: bool,
}

impl View for OpenAiToAnthropicStream {
    type V = ToAnthropicState;

    closed spec fn view(&self) -> ToAnthropicState {
        ToAnthropicState {
            line: self.line@,
            message_started: self.message_started,
            content_block_started: self.content_block_started,
            message_id: self.message_id@,
            model: self.model@,
            pending_output_tokens: self.pending_output_tokens,
            finished: self.finished,
        }
    }
}

/// Renders events and appends their bytes to `out`.
pub fn render_events(events: &Vec<AnthropicEvent>, out: &mut Vec<u8>)
    ensures
        final(out)@ == old(out)@ + wire(events_view(events@)),
{
    let mut i: usize = 0;
    assert(events_view(events@).take(0) =~= Seq::empty());
    while i < events.len()
        invariant
            i <= events.len(),
            out@ == old(out)@ + wire(events_view(events@).take(i as int)),
        decreases events.len() - i,
    {
        let text = events[i].to_sse();
        append_text(out, text.as_str());
        proof {
            let all = events_view(events@);
            assert(all.take(i + 1) =~= all.take(i as int).push(all[i as int]));
            lemma_wire_push(all.take(i as int), all[i as int]);
        }
        i += 1;
    }
    assert(events_view(events@).take(events.len() as int) =~= events_view(events@));
}

impl OpenAiToAnthropicStream {
    pub fn new() -> (r: Self)
        ensures
            r@ == initial_state(),
    {
        OpenAiToAnthropicStream {
            line: Vec::new(),
            message_started: false,
            content_block_started: false,
            message_id: String::new(),
            model: String::new(),
            pending_output_tokens: None,
            finished: false,
        }
    }

    /// Whether `[DONE]` has been read.
    pub fn is_finished(&self) -> (r: bool)
        ensures
            r == self@.finished,
    {
        self.finished
    }

    /// Takes one parsed chunk and answers with the events to send.
    pub fn on_data(&mut self, d: &Json) -> (r: Vec<AnthropicEvent>)
        ensures
            final(self)@ == on_data(old(self)@, d@).0,
            events_view(r@) == on_data(old(self)@, d@).1,
    {
        let mut events: Vec<AnthropicEvent> = Vec::new();
        assert(events_view(events@) =~= Seq::empty());
        match d.get("usage") {
            Some(u) => {
                if !u.is_null() {
                    self.pending_output_tokens = match u.get_i64("completion_tokens") {
                        Some(t) => Some(low_i32_of(t)),
                        None => None,
                    };
                }
            },
            None => {},
        }
        if !self.message_started {
            self.message_id = d.str_or("id", "msg_unknown");
            self.model = d.str_or("model", "unknown");
            let ghost before = events_view(events@);
            events.push(
                AnthropicEvent::MessageStart {
                    id: self.message_id.clone(),
                    model: self.model.clone(),
                },
            );
            assert(events_view(events@) =~= before.push(
                AnthropicEventView::MessageStart { id: self.message_id@, model: self.model@ },
            ));
            self.message_started = true;
        }
        let delta: Option<&Json> = match d.get("choices") {
            Some(choices) => match choices.at(0) {
                Some(choice) => choice.get("delta"),
                None => None,
            },
            None => None,
        };
        match delta {
            Some(delta) => {
                let has_role: bool = delta.get("role").is_some();
                let content: Option<&String> = delta.get_str("content");
                let has_text: bool = match content {
                    Some(s) => s.as_str().unicode_len() > 0,
                    None => false,
                };
                if !self.content_block_started && (has_role || has_text) {
                    let ghost before = events_view(events@);
                    events.push(AnthropicEvent::ContentBlockStart);
                    assert(events_view(events@) =~= before.push(
                        AnthropicEventView::ContentBlockStart,
                    ));
                    self.content_block_started = true;
                }
                match content {
                    Some(s) => {
                        if has_text {
                            let ghost before = events_view(events@);
                            events.push(AnthropicEvent::ContentBlockDelta { text: s.clone() });
                            assert(events_view(events@) =~= before.push(
                                AnthropicEventView::ContentBlockDelta { text: s@ },
                            ));
                        }
                    },
                    None => {},
                }
            },
            None => {},
        }
        assert(events_view(events@) =~= on_data(old(self)@, d@).1);
        events
    }

    /// Takes the `[DONE]` marker and answers with the closing events.
    pub fn on_done(&mut self) -> (r: Vec<AnthropicEvent>)
        ensures
            final(self)@ == on_done(old(self)@).0,
            events_view(r@) == on_done(old(self)@).1,
    {
        let mut events: Vec<AnthropicEvent> = Vec::new();
        if self.content_block_started {
            events.push(AnthropicEvent::ContentBlockStop);
        }
        events.push(AnthropicEvent::MessageDelta { output_tokens: self.pending_output_tokens });
        events.push(AnthropicEvent::MessageStop);
        self.finished = true;
        assert(events_view(events@) =~= on_done(old(self)@).1);
        events
    }

    /// Takes one complete line, without its newline.
    pub fn on_line(&mut self, raw: &[u8]) -> (r: Vec<AnthropicEvent>)
        ensures
            final(self)@ == on_line(old(self)@, raw@).0,
            events_view(r@) == on_line(old(self)@, raw@).1,
    {
        let decoded = lossy_text(raw);
        let chars = chars_of(decoded.as_str());
        let line = trim_chars(&chars);
        match split_field(&line) {
            Some((field, value)) => {
                if is_text(&field, "data") {
                    if is_text(&value, "[DONE]") {
                        return self.on_done();
                    }
                    let text = string_of(&value);
                    match Json::parse(text.as_str().as_bytes()) {
                        Ok(d) => {
                            return self.on_data(&d);
                        },
                        Err(_) => {},
                    }
                }
            },
            None => {},
        }
        let events: Vec<AnthropicEvent> = Vec::new();
        assert(events_view(events@) =~= Seq::empty());
        events
    }

    /// Takes the next upstream chunk and answers with the bytes to send to
    /// the client: the events of every line that the chunk completes.
    pub fn push(&mut self, chunk: &[u8]) -> (out: Vec<u8>)
        ensures
            final(self)@ == feed(old(self)@, chunk@).0,
            out@ == wire(feed(old(self)@, chunk@).1),
    {
        let mut out: Vec<u8> = Vec::new();
        let mut i: usize = 0;
        assert(chunk@.take(0) =~= Seq::empty());
        while i < chunk.len()
            invariant
                i <= chunk.len(),
                self@ == feed(old(self)@, chunk@.take(i as int)).0,
                out@ == wire(feed(old(self)@, chunk@.take(i as int)).1),
            decreases chunk.len() - i,
        {
            let b: u8 = chunk[i];
            let ghost before = self@;
            let ghost sent = feed(old(self)@, chunk@.take(i as int)).1;
            proof {
                assert(chunk@.take(i + 1).drop_last() =~= chunk@.take(i as int));
                assert(chunk@.take(i + 1).last() == b);
            }
            if self.finished {
                assert(sent + Seq::<AnthropicEventView>::empty() =~= sent);
            } else if b == 10 {
                let mut raw: Vec<u8> = Vec::new();
                std::mem::swap(&mut raw, &mut self.line);
                assert(self@ == with_line(before, Seq::empty()));
                let events = self.on_line(raw.as_slice());
                render_events(&events, &mut out);
                proof {
                    lemma_wire_concat(sent, events_view(events@));
                }
            } else {
                self.line.push(b);
                assert(self@ == with_line(before, before.line.push(b)));
                assert(sent + Seq::<AnthropicEventView>::empty() =~= sent);
            }
            i += 1;
        }
        assert(chunk@.take(chunk.len() as int) =~= chunk@);
        out
    }
}

} // verus!
