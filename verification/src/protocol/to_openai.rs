//! An Anthropic messages stream rewritten as an OpenAI chat-completions
//! stream.
//!
//! Like its counterpart this adapter is a fold over the upstream bytes: a
//! newline completes a line, an `event:` line names the event, and the `data:`
//! line that follows is answered with OpenAI chunks.  Each chunk carries the
//! time at which it was made, so the fold takes that time as an argument.

use crate::clock::unix_now;
use crate::json::{json_text, parsed_json, ArrayBuilder, Json, JsonValue, ObjectBuilder};
use crate::sse::{format_sse, split_field, sse_field, sse_format};
use crate::text::{
    append_text, chars_of, is_text, lossy_text, string_of, trim, trim_chars, utf8_lossy,
};
use vstd::prelude::*;
use vstd::utf8::encode_utf8;

verus! {

/// A chunk of the OpenAI stream.
#[derive(Debug)]
pub enum OpenAiChunk {
    /// Opens the answer: role `assistant`, empty content.
    Role { id: String, model: String, created: i64 },
    /// A piece of the answer's text.
    Content { id: String, model: String, created: i64, text: String },
    /// Ends the answer with a finish reason.
    Finish { id: String, model: String, created: i64, finish_reason: String },
    /// Token counts, with no choice.
    Usage { id: String, model: String, created: i64, completion_tokens: i64 },
    /// The `[DONE]` marker.
    Done,
}

/// The mathematical value of an `OpenAiChunk`.
pub enum OpenAiChunkView {
    Role { id: Seq<char>, model: Seq<char>, created: i64 },
    Content { id: Seq<char>, model: Seq<char>, created: i64, text: Seq<char> },
    Finish { id: Seq<char>, model: Seq<char>, created: i64, finish_reason: Seq<char> },
    Usage { id: Seq<char>, model: Seq<char>, created: i64, completion_tokens: i64 },
    Done,
}

impl View for OpenAiChunk {
    type V = OpenAiChunkView;

    open spec fn view(&self) -> OpenAiChunkView {
        match self {
            OpenAiChunk::Role { id, model, created } => OpenAiChunkView::Role {
                id: id@,
                model: model@,
                created: *created,
            },
            OpenAiChunk::Content { id, model, created, text } => OpenAiChunkView::Content {
                id: id@,
                model: model@,
                created: *created,
                text: text@,
            },
            OpenAiChunk::Finish { id, model, created, finish_reason } => OpenAiChunkView::Finish {
                id: id@,
                model: model@,
                created: *created,
                finish_reason: finish_reason@,
            },
            OpenAiChunk::Usage { id, model, created, completion_tokens } => OpenAiChunkView::Usage {
                id: id@,
                model: model@,
                created: *created,
                completion_tokens: *completion_tokens,
            },
            OpenAiChunk::Done => OpenAiChunkView::Done,
        }
    }
}

/// The members that every chunk document starts with.
pub open spec fn chunk_head(id: Seq<char>, model: Seq<char>, created: i64) -> Seq<
    (Seq<char>, JsonValue),
> {
    Seq::empty().push(("id"@, JsonValue::Str(id))).push(
        ("object"@, JsonValue::Str("chat.completion.chunk"@)),
    ).push(("created"@, JsonValue::Int(created))).push(("model"@, JsonValue::Str(model)))
}

/// The single choice of a chunk document.
pub open spec fn choice(delta: JsonValue, finish_reason: JsonValue) -> JsonValue {
    JsonValue::Obj(
        Seq::empty().push(("index"@, JsonValue::Int(0))).push(("delta"@, delta)).push(
            ("finish_reason"@, finish_reason),
        ),
    )
}

/// A chunk document with one choice and no usage.
pub open spec fn choice_chunk(
    id: Seq<char>,
    model: Seq<char>,
    created: i64,
    delta: JsonValue,
    finish_reason: JsonValue,
) -> JsonValue {
    JsonValue::Obj(
        chunk_head(id, model, created).push(
            ("choices"@, JsonValue::Arr(Seq::empty().push(choice(delta, finish_reason)))),
        ).push(("usage"@, JsonValue::Null)),
    )
}

/// The usage object of the last chunk: the upstream tells no prompt tokens.
pub open spec fn usage_object(completion_tokens: i64) -> JsonValue {
    JsonValue::Obj(
        Seq::empty().push(("prompt_tokens"@, JsonValue::Int(0))).push(
            ("completion_tokens"@, JsonValue::Int(completion_tokens)),
        ).push(("total_tokens"@, JsonValue::Int(completion_tokens))),
    )
}

impl OpenAiChunkView {
    /// The JSON document of a chunk; the `[DONE]` marker has none.
    pub open spec fn payload(self) -> Option<JsonValue> {
        match self {
            OpenAiChunkView::Role { id, model, created } => Some(
                choice_chunk(
                    id,
                    model,
                    created,
                    JsonValue::Obj(
                        Seq::empty().push(("role"@, JsonValue::Str("assistant"@))).push(
                            ("content"@, JsonValue::Str(""@)),
                        ),
                    ),
                    JsonValue::Null,
                ),
            ),
            OpenAiChunkView::Content { id, model, created, text } => Some(
                choice_chunk(
                    id,
                    model,
                    created,
                    JsonValue::Obj(Seq::empty().push(("content"@, JsonValue::Str(text)))),
                    JsonValue::Null,
                ),
            ),
            OpenAiChunkView::Finish { id, model, created, finish_reason } => Some(
                choice_chunk(
                    id,
                    model,
                    created,
                    JsonValue::Obj(Seq::empty().push(("content"@, JsonValue::Str(""@)))),
                    JsonValue::Str(finish_reason),
                ),
            ),
            OpenAiChunkView::Usage { id, model, created, completion_tokens } => Some(
                JsonValue::Obj(
                    chunk_head(id, model, created).push(
                        ("choices"@, JsonValue::Arr(Seq::empty())),
                    ).push(("usage"@, usage_object(completion_tokens))),
                ),
            ),
            OpenAiChunkView::Done => None,
        }
    }

    /// The chunk as SSE text.
    pub open spec fn sse(self) -> Seq<char> {
        match self.payload() {
            Some(p) => sse_format(None, json_text(p)),
            None => sse_format(None, "[DONE]"@),
        }
    }

    /// The token text that the chunk carries.
    pub open spec fn text(self) -> Seq<char> {
        match self {
            OpenAiChunkView::Content { text, .. } => text,
            _ => Seq::empty(),
        }
    }
}

/// The values of a list of chunks.
pub open spec fn chunks_view(v: Seq<OpenAiChunk>) -> Seq<OpenAiChunkView> {
    Seq::new(v.len(), |i: int| v[i]@)
}

/// The bytes sent for a list of chunks.
pub open spec fn wire(chunks: Seq<OpenAiChunkView>) -> Seq<u8>
    decreases chunks.len(),
{
    if chunks.len() == 0 {
        Seq::empty()
    } else {
        wire(chunks.drop_last()) + encode_utf8(chunks.last().sse())
    }
}

/// The token text carried by a list of chunks.
pub open spec fn chunks_text(chunks: Seq<OpenAiChunkView>) -> Seq<char>
    decreases chunks.len(),
{
    if chunks.len() == 0 {
        Seq::empty()
    } else {
        chunks_text(chunks.drop_last()) + chunks.last().text()
    }
}

fn head_builder(id: &String, model: &String, created: i64) -> (r: ObjectBuilder)
    ensures
        r.view() == chunk_head(id@, model@, created),
{
    let mut doc = ObjectBuilder::new();
    doc.put("id", Json::Str(id.clone()));
    doc.put("object", Json::text("chat.completion.chunk"));
    doc.put("created", Json::Int(created));
    doc.put("model", Json::Str(model.clone()));
    doc
}

fn choice_document(
    id: &String,
    model: &String,
    created: i64,
    delta: Json,
    finish_reason: Json,
) -> (r: Json)
    ensures
        r@ == choice_chunk(id@, model@, created, delta@, finish_reason@),
{
    let mut one = ObjectBuilder::new();
    one.put("index", Json::Int(0));
    one.put("delta", delta);
    one.put("finish_reason", finish_reason);
    let mut choices = ArrayBuilder::new();
    choices.put(one.build());
    let mut doc = head_builder(id, model, created);
    doc.put("choices", choices.build());
    doc.put("usage", Json::Null);
    doc.build()
}

impl OpenAiChunk {
    /// The JSON document of a chunk; the `[DONE]` marker has none.
    pub fn payload(&self) -> (r: Option<Json>)
        ensures
            match r {
                Some(j) => self@.payload() == Some(j@),
                None => self@.payload() is None,
            },
    {
        match self {
            OpenAiChunk::Role { id, model, created } => {
                let mut delta = ObjectBuilder::new();
                delta.put("role", Json::text("assistant"));
                delta.put("content", Json::text(""));
                Some(choice_document(id, model, *created, delta.build(), Json::Null))
            },
            OpenAiChunk::Content { id, model, created, text } => {
                let mut delta = ObjectBuilder::new();
                delta.put("content", Json::Str(text.clone()));
                Some(choice_document(id, model, *created, delta.build(), Json::Null))
            },
            OpenAiChunk::Finish { id, model, created, finish_reason } => {
                let mut delta = ObjectBuilder::new();
                delta.put("content", Json::text(""));
                Some(
                    choice_document(
                        id,
                        model,
                        *created,
                        delta.build(),
                        Json::Str(finish_reason.clone()),
                    ),
                )
            },
            OpenAiChunk::Usage { id, model, created, completion_tokens } => {
                let mut usage = ObjectBuilder::new();
                usage.put("prompt_tokens", Json::Int(0));
                usage.put("completion_tokens", Json::Int(*completion_tokens));
                usage.put("total_tokens", Json::Int(*completion_tokens));
                let mut doc = head_builder(id, model, *created);
                doc.put("choices", ArrayBuilder::new().build());
                doc.put("usage", usage.build());
                Some(doc.build())
            },
            OpenAiChunk::Done => None,
        }
    }

    /// The chunk as SSE text.
    pub fn to_sse(&self) -> (r: String)
        ensures
            r@ == self@.sse(),
    {
        match self.payload() {
            Some(doc) => {
                let data = doc.to_text();
                format_sse(None, data.as_str())
            },
            None => format_sse(None, "[DONE]"),
        }
    }
}

/// What the adapter remembers between chunks.
pub struct ToOpenAiState {
    /// Bytes of the line that is not yet complete.
    pub line: Seq<u8>,
    /// Name given by the last `event:` line of the current event.
    pub current_event: Option<Seq<char>>,
    pub message_id: Seq<char>,
    pub model: Seq<char>,
    /// Output tokens told by the last `message_delta` that had a usage.
    pub completion_tokens: Option<i64>,
    /// Set by `message_stop`; nothing is read after it.
    pub finished: bool,
}

/// The state before the first byte.
pub open spec fn initial_state() -> ToOpenAiState {
    ToOpenAiState {
        line: Seq::empty(),
        current_event: None,
        message_id: "chatcmpl-unknown"@,
        model: "unknown"@,
        completion_tokens: None,
        finished: false,
    }
}

/// The token text of an upstream document under event `event`:
/// `delta.text` of a `content_block_delta`, where that is a string.
pub open spec fn delta_text(event: Option<Seq<char>>, d: JsonValue) -> Option<Seq<char>> {
    if event == Some("content_block_delta"@) {
        match d.get("delta"@) {
            Some(delta) => delta.member("text"@).as_str(),
            None => None,
        }
    } else {
        None
    }
}

/// The output tokens to remember after a `message_delta` document.
pub open spec fn tokens_after(prev: Option<i64>, d: JsonValue) -> Option<i64> {
    match d.get("usage"@) {
        Some(u) => match u.member("output_tokens"@).as_i64() {
            Some(n) => Some(n),
            None => Some(0i64),
        },
        None => prev,
    }
}

/// One parsed `data:` document, read under the current event name.
pub open spec fn on_data(st: ToOpenAiState, d: JsonValue, now: i64) -> (
    ToOpenAiState,
    Seq<OpenAiChunkView>,
) {
    if st.current_event == Some("message_start"@) {
        let id = match d.get("message"@) {
            Some(m) => m.str_or("id"@, "chatcmpl-unknown"@),
            None => st.message_id,
        };
        let model = match d.get("message"@) {
            Some(m) => m.str_or("model"@, "unknown"@),
            None => st.model,
        };
        (
            ToOpenAiState {
                line: st.line,
                current_event: st.current_event,
                message_id: id,
                model,
                completion_tokens: st.completion_tokens,
                finished: st.finished,
            },
            Seq::empty().push(OpenAiChunkView::Role { id, model, created: now }),
        )
    } else if st.current_event == Some("content_block_delta"@) {
        match delta_text(st.current_event, d) {
            Some(text) => (
                st,
                Seq::empty().push(
                    OpenAiChunkView::Content {
                        id: st.message_id,
                        model: st.model,
                        created: now,
                        text,
                    },
                ),
            ),
            None => (st, Seq::empty()),
        }
    } else if st.current_event == Some("message_delta"@) {
        (
            ToOpenAiState {
                line: st.line,
                current_event: st.current_event,
                message_id: st.message_id,
                model: st.model,
                completion_tokens: tokens_after(st.completion_tokens, d),
                finished: st.finished,
            },
            Seq::empty().push(
                OpenAiChunkView::Finish {
                    id: st.message_id,
                    model: st.model,
                    created: now,
                    finish_reason: d.member("delta"@).str_or("stop_reason"@, "stop"@),
                },
            ),
        )
    } else if st.current_event == Some("message_stop"@) {
        let usage = match st.completion_tokens {
            Some(n) => Seq::empty().push(
                OpenAiChunkView::Usage {
                    id: st.message_id,
                    model: st.model,
                    created: now,
                    completion_tokens: n,
                },
            ),
            None => Seq::empty(),
        };
        (
            ToOpenAiState {
                line: st.line,
                current_event: st.current_event,
                message_id: st.message_id,
                model: st.model,
                completion_tokens: st.completion_tokens,
                finished: true,
            },
            usage.push(OpenAiChunkView::Done),
        )
    } else {
        (st, Seq::empty())
    }
}

/// The state with another event name.
pub open spec fn with_event(st: ToOpenAiState, event: Option<Seq<char>>) -> ToOpenAiState {
    ToOpenAiState {
        line: st.line,
        current_event: event,
        message_id: st.message_id,
        model: st.model,
        completion_tokens: st.completion_tokens,
        finished: st.finished,
    }
}

/// The state with another line buffer.
pub open spec fn with_line(st: ToOpenAiState, line: Seq<u8>) -> ToOpenAiState {
    ToOpenAiState {
        line,
        current_event: st.current_event,
        message_id: st.message_id,
        model: st.model,
        completion_tokens: st.completion_tokens,
        finished: st.finished,
    }
}

/// What a complete line holds for the state machine.
pub enum LineKind {
    /// A blank line: the event is over.
    Blank,
    /// An `event:` line with the event's name.
    Event(Seq<char>),
    /// A `data:` line with a JSON document.
    Data(JsonValue),
    /// Anything else: a comment, another field, bad JSON.
    Other,
}

/// Reads one line: decode leniently, trim, split at the colon, and parse
/// the value of a `data` field.
pub open spec fn classify(raw: Seq<u8>) -> LineKind {
    let text = trim(utf8_lossy(raw));
    if text.len() == 0 {
        LineKind::Blank
    } else {
        match sse_field(text) {
            Some((field, value)) => if field == "event"@ {
                LineKind::Event(value)
            } else if field == "data"@ {
                match parsed_json(encode_utf8(value)) {
                    Ok(d) => LineKind::Data(d),
                    Err(_) => LineKind::Other,
                }
            } else {
                LineKind::Other
            },
            None => LineKind::Other,
        }
    }
}

/// One complete line.
pub open spec fn on_line(st: ToOpenAiState, raw: Seq<u8>, now: i64) -> (
    ToOpenAiState,
    Seq<OpenAiChunkView>,
) {
    match classify(raw) {
        LineKind::Blank => (with_event(st, None), Seq::empty()),
        LineKind::Event(name) => (with_event(st, Some(name)), Seq::empty()),
        LineKind::Data(d) => on_data(st, d, now),
        LineKind::Other => (st, Seq::empty()),
    }
}

/// One upstream byte: a newline completes the line, any other byte joins
/// it; after `message_stop` every byte is dropped.
pub open spec fn step(st: ToOpenAiState, b: u8, now: i64) -> (ToOpenAiState, Seq<OpenAiChunkView>) {
    if st.finished {
        (st, Seq::empty())
    } else if b == 10 {
        on_line(with_line(st, Seq::empty()), st.line, now)
    } else {
        (with_line(st, st.line.push(b)), Seq::empty())
    }
}

/// A run of upstream bytes, one `step` after the other.
pub open spec fn feed(st: ToOpenAiState, bytes: Seq<u8>, now: i64) -> (
    ToOpenAiState,
    Seq<OpenAiChunkView>,
)
    decreases bytes.len(),
{
    if bytes.len() == 0 {
        (st, Seq::empty())
    } else {
        let (s1, e1) = feed(st, bytes.drop_last(), now);
        let (s2, e2) = step(s1, bytes.last(), now);
        (s2, e1 + e2)
    }
}

pub proof fn lemma_wire_push(chunks: Seq<OpenAiChunkView>, c: OpenAiChunkView)
    ensures
        wire(chunks.push(c)) == wire(chunks) + encode_utf8(c.sse()),
{
    assert(chunks.push(c).drop_last() =~= chunks);
}

pub proof fn lemma_wire_concat(a: Seq<OpenAiChunkView>, b: Seq<OpenAiChunkView>)
    ensures
        wire(a + b) == wire(a) + wire(b),
    decreases b.len(),
{
    if b.len() == 0 {
        assert(a + b =~= a);
        assert(wire(a) + wire(b) =~= wire(a));
    } else {
        lemma_wire_concat(a, b.drop_last());
        assert((a + b).drop_last() =~= a + b.drop_last());
        assert((a + b).last() == b.last());
        assert(wire(a) + (wire(b.drop_last()) + encode_utf8(b.last().sse())) =~= (wire(a) + wire(
            b.drop_last(),
        )) + encode_utf8(b.last().sse()));
    }
}

pub proof fn lemma_chunks_text_push(chunks: Seq<OpenAiChunkView>, c: OpenAiChunkView)
    ensures
        chunks_text(chunks.push(c)) == chunks_text(chunks) + c.text(),
        chunks_text(Seq::<OpenAiChunkView>::empty()) == Seq::<char>::empty(),
{
    assert(chunks.push(c).drop_last() =~= chunks);
}

pub proof fn lemma_chunks_text_concat(a: Seq<OpenAiChunkView>, b: Seq<OpenAiChunkView>)
    ensures
        chunks_text(a + b) == chunks_text(a) + chunks_text(b),
    decreases b.len(),
{
    if b.len() == 0 {
        assert(a + b =~= a);
        assert(chunks_text(a) + chunks_text(b) =~= chunks_text(a));
    } else {
        lemma_chunks_text_concat(a, b.drop_last());
        assert((a + b).drop_last() =~= a + b.drop_last());
        assert((a + b).last() == b.last());
        assert(chunks_text(a) + (chunks_text(b.drop_last()) + b.last().text()) =~= (chunks_text(a)
            + chunks_text(b.drop_last())) + b.last().text());
    }
}

/// The token text of one upstream document, read under the state's event.
pub open spec fn data_text(st: ToOpenAiState, d: JsonValue) -> Seq<char> {
    match delta_text(st.current_event, d) {
        Some(text) => text,
        None => Seq::empty(),
    }
}

/// The token text of the upstream: the text of every `content_block_delta`
/// document on a line that is completed before `message_stop`.
pub open spec fn source_text(st: ToOpenAiState, bytes: Seq<u8>, now: i64) -> Seq<char>
    decreases bytes.len(),
{
    if bytes.len() == 0 {
        Seq::empty()
    } else {
        let before = feed(st, bytes.drop_last(), now).0;
        let last = if !before.finished && bytes.last() == 10 {
            match classify(before.line) {
                LineKind::Data(d) => data_text(before, d),
                _ => Seq::empty(),
            }
        } else {
            Seq::empty()
        };
        source_text(st, bytes.drop_last(), now) + last
    }
}

/// The chunks for one document carry exactly the document's token text.
pub proof fn lemma_on_data_keeps_text(st: ToOpenAiState, d: JsonValue, now: i64)
    ensures
        chunks_text(on_data(st, d, now).1) == data_text(st, d),
{
    reveal_strlit("message_start");
    reveal_strlit("content_block_delta");
    reveal_strlit("message_delta");
    reveal_strlit("message_stop");
    assert("message_start"@ != "content_block_delta"@) by {
        assert("message_start"@.len() == 13 && "content_block_delta"@.len() == 19);
    }
    assert("message_delta"@ != "content_block_delta"@) by {
        assert("message_delta"@.len() == 13);
    }
    assert("message_stop"@ != "content_block_delta"@) by {
        assert("message_stop"@.len() == 12);
    }
    let out = on_data(st, d, now).1;
    if st.current_event == Some("message_start"@) {
        lemma_chunks_text_push(Seq::empty(), out[0]);
        assert(out =~= Seq::empty().push(out[0]));
    } else if st.current_event == Some("content_block_delta"@) {
        if delta_text(st.current_event, d) is Some {
            lemma_chunks_text_push(Seq::empty(), out[0]);
            assert(out =~= Seq::empty().push(out[0]));
        }
    } else if st.current_event == Some("message_delta"@) {
        lemma_chunks_text_push(Seq::empty(), out[0]);
        assert(out =~= Seq::empty().push(out[0]));
    } else if st.current_event == Some("message_stop"@) {
        match st.completion_tokens {
            Some(n) => {
                lemma_chunks_text_push(Seq::empty(), out[0]);
                lemma_chunks_text_push(Seq::empty().push(out[0]), OpenAiChunkView::Done);
                assert(out =~= Seq::empty().push(out[0]).push(OpenAiChunkView::Done));
            },
            None => {
                lemma_chunks_text_push(Seq::empty(), OpenAiChunkView::Done);
                assert(out =~= Seq::empty().push(OpenAiChunkView::Done));
            },
        }
        assert(chunks_text(out) =~= Seq::empty());
    } else {
    }
}

/// The token text of the chunks sent equals the token text of the upstream:
/// concatenating `choices[0].delta.content` over what goes out gives what
/// concatenating `delta.text` over what came in gives.
pub proof fn lemma_stream_keeps_text(st: ToOpenAiState, bytes: Seq<u8>, now: i64)
    ensures
        chunks_text(feed(st, bytes, now).1) == source_text(st, bytes, now),
    decreases bytes.len(),
{
    if bytes.len() > 0 {
        let prev = bytes.drop_last();
        lemma_stream_keeps_text(st, prev, now);
        let (s1, e1) = feed(st, prev, now);
        let (s2, e2) = step(s1, bytes.last(), now);
        lemma_chunks_text_concat(e1, e2);
        lemma_chunks_text_push(Seq::empty(), OpenAiChunkView::Done);
        if !s1.finished && bytes.last() == 10 {
            let s0 = with_line(s1, Seq::empty());
            match classify(s1.line) {
                LineKind::Data(d) => {
                    lemma_on_data_keeps_text(s0, d, now);
                    assert(data_text(s0, d) == data_text(s1, d));
                },
                _ => {},
            }
        }
    }
}

/// The document of a text chunk holds the text under
/// `choices[0].delta.content`.
pub proof fn lemma_content_payload(id: Seq<char>, model: Seq<char>, created: i64, text: Seq<char>)
    ensures
        (OpenAiChunkView::Content { id, model, created, text }).payload() is Some,
        (OpenAiChunkView::Content { id, model, created, text }).payload()->0.member("choices"@).at(
            0,
        ) is Some,
        (OpenAiChunkView::Content { id, model, created, text }).payload()->0.member("choices"@).at(
            0,
        )->0.member("delta"@).member("content"@).as_str() == Some(text),
{
    reveal_strlit("id");
    reveal_strlit("object");
    reveal_strlit("created");
    reveal_strlit("model");
    reveal_strlit("choices");
    reveal_strlit("usage");
    reveal_strlit("index");
    reveal_strlit("delta");
    reveal_strlit("finish_reason");
    reveal_strlit("content");
    let delta = Seq::empty().push(("content"@, JsonValue::Str(text)));
    let one = Seq::empty().push(("index"@, JsonValue::Int(0))).push(
        ("delta"@, JsonValue::Obj(delta)),
    ).push(("finish_reason"@, JsonValue::Null));
    let doc = chunk_head(id, model, created).push(
        ("choices"@, JsonValue::Arr(Seq::empty().push(JsonValue::Obj(one)))),
    ).push(("usage"@, JsonValue::Null));
    assert("id"@.len() == 2 && "object"@.len() == 6 && "created"@.len() == 7 && "model"@.len() == 5
        && "choices"@.len() == 7 && "index"@.len() == 5 && "delta"@.len() == 5);
    assert("created"@[1] == 'r' && "choices"@[1] == 'h');
    assert("index"@[0] == 'i' && "delta"@[0] == 'd');
    crate::json::lemma_position_unique(doc, "choices"@, 4);
    crate::json::lemma_position(doc, "choices"@);
    crate::json::lemma_position_unique(one, "delta"@, 1);
    crate::json::lemma_position(one, "delta"@);
    crate::json::lemma_position_unique(delta, "content"@, 0);
    crate::json::lemma_position(delta, "content"@);
}

/// Feeding two chunks one after the other gives the state and the chunks of
/// feeding their concatenation: where the upstream cuts its chunks, even in
/// the middle of a line, does not show.
pub proof fn lemma_feed_concat(st: ToOpenAiState, a: Seq<u8>, b: Seq<u8>, now: i64)
    ensures
        feed(st, a + b, now).0 == feed(feed(st, a, now).0, b, now).0,
        feed(st, a + b, now).1 == feed(st, a, now).1 + feed(feed(st, a, now).0, b, now).1,
        wire(feed(st, a + b, now).1) == wire(feed(st, a, now).1) + wire(
            feed(feed(st, a, now).0, b, now).1,
        ),
    decreases b.len(),
{
    let mid = feed(st, a, now).0;
    if b.len() == 0 {
        assert(a + b =~= a);
        assert(feed(st, a, now).1 + feed(mid, b, now).1 =~= feed(st, a, now).1);
    } else {
        lemma_feed_concat(st, a, b.drop_last(), now);
        assert((a + b).drop_last() =~= a + b.drop_last());
        assert((a + b).last() == b.last());
        let e1 = feed(st, a, now).1;
        let e2 = feed(mid, b.drop_last(), now).1;
        let e3 = step(feed(mid, b.drop_last(), now).0, b.last(), now).1;
        assert((e1 + e2) + e3 =~= e1 + (e2 + e3));
    }
    lemma_wire_concat(feed(st, a, now).1, feed(mid, b, now).1);
}

/// Bytes without a newline complete no line: they join the line buffer and
/// nothing is sent.
pub proof fn lemma_partial_line_is_silent(st: ToOpenAiState, bytes: Seq<u8>, now: i64)
    requires
        forall|i: int| 0 <= i < bytes.len() ==> bytes[i] != 10,
    ensures
        feed(st, bytes, now).1 == Seq::<OpenAiChunkView>::empty(),
        wire(feed(st, bytes, now).1) == Seq::<u8>::empty(),
        st.finished ==> feed(st, bytes, now).0 == st,
        !st.finished ==> feed(st, bytes, now).0 == with_line(st, st.line + bytes),
    decreases bytes.len(),
{
    if bytes.len() == 0 {
        assert(st.line + bytes =~= st.line);
    } else {
        let prev = bytes.drop_last();
        lemma_partial_line_is_silent(st, prev, now);
        assert(bytes.last() == bytes[bytes.len() - 1]);
        assert((st.line + prev).push(bytes.last()) =~= st.line + bytes);
        assert(feed(st, prev, now).1 + Seq::<OpenAiChunkView>::empty() =~= feed(st, prev, now).1);
    }
}

/// The per-stream adapter from an Anthropic upstream to an OpenAI client.
pub struct AnthropicToOpenAiStream {
    line: Vec<u8>,
    current_event: Option<String>,
    message_id: String,
    model: String,
    completion_tokens: Option<i64>,
    finished: bool,
}

impl View for AnthropicToOpenAiStream {
    type V = ToOpenAiState;

    closed spec fn view(&self) -> ToOpenAiState {
        ToOpenAiState {
            line: self.line@,
            current_event: match self.current_event {
                Some(name) => Some(name@),
                None => None,
            },
            message_id: self.message_id@,
            model: self.model@,
            completion_tokens: self.completion_tokens,
            finished: self.finished,
        }
    }
}

/// Renders chunks and appends their bytes to `out`.
pub fn render_chunks(chunks: &Vec<OpenAiChunk>, out: &mut Vec<u8>)
    ensures
        final(out)@ == old(out)@ + wire(chunks_view(chunks@)),
{
    let mut i: usize = 0;
    assert(chunks_view(chunks@).take(0) =~= Seq::empty());
    while i < chunks.len()
        invariant
            i <= chunks.len(),
            out@ == old(out)@ + wire(chunks_view(chunks@).take(i as int)),
        decreases chunks.len() - i,
    {
        let text = chunks[i].to_sse();
        append_text(out, text.as_str());
        proof {
            let all = chunks_view(chunks@);
            assert(all.take(i + 1) =~= all.take(i as int).push(all[i as int]));
            lemma_wire_push(all.take(i as int), all[i as int]);
        }
        i += 1;
    }
    assert(chunks_view(chunks@).take(chunks.len() as int) =~= chunks_view(chunks@));
}

/// Which of the four events that matter a name stands for.
enum EventName {
    MessageStart,
    ContentBlockDelta,
    MessageDelta,
    MessageStop,
    Other,
}

impl AnthropicToOpenAiStream {
    pub fn new() -> (r: Self)
        ensures
            r@ == initial_state(),
    {
        AnthropicToOpenAiStream {
            line: Vec::new(),
            current_event: None,
            message_id: "chatcmpl-unknown".to_owned(),
            model: "unknown".to_owned(),
            completion_tokens: None,
            finished: false,
        }
    }

    /// Whether `message_stop` has been read.
    pub fn is_finished(&self) -> (r: bool)
        ensures
            r == self@.finished,
    {
        self.finished
    }

    fn event_name(&self) -> (r: EventName)
        ensures
            (r is MessageStart) == (self@.current_event == Some("message_start"@)),
            (r is ContentBlockDelta) == (self@.current_event == Some("content_block_delta"@)),
            (r is MessageDelta) == (self@.current_event == Some("message_delta"@)),
            (r is MessageStop) == (self@.current_event == Some("message_stop"@)),
    {
        proof {
            reveal_strlit("message_start");
            reveal_strlit("content_block_delta");
            reveal_strlit("message_delta");
            reveal_strlit("message_stop");
            assert("message_start"@.len() == 13 && "content_block_delta"@.len() == 19
                && "message_delta"@.len() == 13 && "message_stop"@.len() == 12);
            assert("message_start"@[8] == 's' && "message_delta"@[8] == 'd');
        }
        match &self.current_event {
            Some(name) => {
                let chars = chars_of(name.as_str());
                if is_text(&chars, "message_start") {
                    EventName::MessageStart
                } else if is_text(&chars, "content_block_delta") {
                    EventName::ContentBlockDelta
                } else if is_text(&chars, "message_delta") {
                    EventName::MessageDelta
                } else if is_text(&chars, "message_stop") {
                    EventName::MessageStop
                } else {
                    EventName::Other
                }
            },
            None => EventName::Other,
        }
    }

    /// Takes one parsed `data:` document, made at time `now`, and answers
    /// with the chunks to send.
    pub fn on_data(&mut self, d: &Json, now: i64) -> (r: Vec<OpenAiChunk>)
        ensures
            final(self)@ == on_data(old(self)@, d@, now).0,
            chunks_view(r@) == on_data(old(self)@, d@, now).1,
    {
        let mut chunks: Vec<OpenAiChunk> = Vec::new();
        assert(chunks_view(chunks@) =~= Seq::empty());
        match self.event_name() {
            EventName::MessageStart => {
                match d.get("message") {
                    Some(m) => {
                        self.message_id = m.str_or("id", "chatcmpl-unknown");
                        self.model = m.str_or("model", "unknown");
                    },
                    None => {},
                }
                chunks.push(
                    OpenAiChunk::Role {
                        id: self.message_id.clone(),
                        model: self.model.clone(),
                        created: now,
                    },
                );
            },
            EventName::ContentBlockDelta => {
                let text: Option<&String> = match d.get("delta") {
                    Some(delta) => delta.get_str("text"),
                    None => None,
                };
                match text {
                    Some(t) => {
                        chunks.push(
                            OpenAiChunk::Content {
                                id: self.message_id.clone(),
                                model: self.model.clone(),
                                created: now,
                                text: t.clone(),
                            },
                        );
                    },
                    None => {},
                }
            },
            EventName::MessageDelta => {
                let finish_reason: String = match d.get("delta") {
                    Some(delta) => delta.str_or("stop_reason", "stop"),
                    None => "stop".to_owned(),
                };
                match d.get("usage") {
                    Some(u) => {
                        self.completion_tokens = match u.get_i64("output_tokens") {
                            Some(n) => Some(n),
                            None => Some(0),
                        };
                    },
                    None => {},
                }
                chunks.push(
                    OpenAiChunk::Finish {
                        id: self.message_id.clone(),
                        model: self.model.clone(),
                        created: now,
                        finish_reason,
                    },
                );
            },
            EventName::MessageStop => {
                match self.completion_tokens {
                    Some(n) => {
                        chunks.push(
                            OpenAiChunk::Usage {
                                id: self.message_id.clone(),
                                model: self.model.clone(),
                                created: now,
                                completion_tokens: n,
                            },
                        );
                    },
                    None => {},
                }
                chunks.push(OpenAiChunk::Done);
                self.finished = true;
            },
            EventName::Other => {},
        }
        assert(chunks_view(chunks@) =~= on_data(old(self)@, d@, now).1);
        chunks
    }

    /// Takes one complete line, without its newline, read at time `now`.
    pub fn on_line(&mut self, raw: &[u8], now: i64) -> (r: Vec<OpenAiChunk>)
        ensures
            final(self)@ == on_line(old(self)@, raw@, now).0,
            chunks_view(r@) == on_line(old(self)@, raw@, now).1,
    {
        let decoded = lossy_text(raw);
        let chars = chars_of(decoded.as_str());
        let line = trim_chars(&chars);
        if line.len() == 0 {
            self.current_event = None;
        } else {
            match split_field(&line) {
                Some((field, value)) => {
                    if is_text(&field, "event") {
                        self.current_event = Some(string_of(&value));
                    } else if is_text(&field, "data") {
                        let text = string_of(&value);
                        match Json::parse(text.as_str().as_bytes()) {
                            Ok(d) => {
                                return self.on_data(&d, now);
                            },
                            Err(_) => {},
                        }
                    }
                },
                None => {},
            }
        }
        let chunks: Vec<OpenAiChunk> = Vec::new();
        assert(chunks_view(chunks@) =~= Seq::empty());
        chunks
    }

    /// Takes the next upstream chunk, read at time `now`, and answers with
    /// the bytes to send to the client: the chunks of every line that the
    /// upstream chunk completes.
    pub fn push_at(&mut self, chunk: &[u8], now: i64) -> (out: Vec<u8>)
        ensures
            final(self)@ == feed(old(self)@, chunk@, now).0,
            out@ == wire(feed(old(self)@, chunk@, now).1),
    {
        let mut out: Vec<u8> = Vec::new();
        let mut i: usize = 0;
        assert(chunk@.take(0) =~= Seq::empty());
        while i < chunk.len()
            invariant
                i <= chunk.len(),
                self@ == feed(old(self)@, chunk@.take(i as int), now).0,
                out@ == wire(feed(old(self)@, chunk@.take(i as int), now).1),
            decreases chunk.len() - i,
        {
            let b: u8 = chunk[i];
            let ghost before = self@;
            let ghost sent = feed(old(self)@, chunk@.take(i as int), now).1;
            proof {
                assert(chunk@.take(i + 1).drop_last() =~= chunk@.take(i as int));
                assert(chunk@.take(i + 1).last() == b);
            }
            if self.finished {
                assert(sent + Seq::<OpenAiChunkView>::empty() =~= sent);
            } else if b == 10 {
                let mut raw: Vec<u8> = Vec::new();
                std::mem::swap(&mut raw, &mut self.line);
                assert(self@ == with_line(before, Seq::empty()));
                let chunks = self.on_line(raw.as_slice(), now);
                render_chunks(&chunks, &mut out);
                proof {
                    lemma_wire_concat(sent, chunks_view(chunks@));
                }
            } else {
                self.line.push(b);
                assert(self@ == with_line(before, before.line.push(b)));
                assert(sent + Seq::<OpenAiChunkView>::empty() =~= sent);
            }
            i += 1;
        }
        assert(chunk@.take(chunk.len() as int) =~= chunk@);
        out
    }

    /// Takes the next upstream chunk and stamps what it sends with the
    /// current time.
    pub fn push(&mut self, chunk: &[u8]) -> (out: Vec<u8>)
        ensures
            exists|now: i64|
                final(self)@ == feed(old(self)@, chunk@, now).0 && out@ == wire(
                    #[trigger] feed(old(self)@, chunk@, now).1,
                ),
    {
        let now: i64 = unix_now();
        self.push_at(chunk, now)
    }
}

} // verus!
