//! The adapter between the protocols: how a request body is rewritten for an
//! upstream, how the upstream's answer is rewritten for the client, and which
//! stream adapter a pair of protocols gets.

use crate::clock::unix_now;
use crate::error::{Error, ErrorKind, ErrorView};
use crate::json::{json_text, parsed_json, Json, JsonValue, ObjectBuilder};
use crate::models::{ClientProtocol, ProtocolView, TargetProtocol};
use crate::protocol::anthropic;
use crate::protocol::anthropic::{
    AnthropicRequest, AnthropicRequestView, AnthropicResponse, AnthropicResponseView,
    ContentBlock, ContentBlockView,
};
use crate::protocol::fields::opt_text_view;
use crate::protocol::openai;
use crate::protocol::openai::{
    Choice, ChoiceView, OpenAIRequest, OpenAIRequestView, OpenAIResponse, OpenAIResponseView,
};
use crate::protocol::to_anthropic;
use crate::protocol::to_anthropic::OpenAiToAnthropicStream;
use crate::protocol::to_openai;
use crate::protocol::to_openai::AnthropicToOpenAiStream;
use crate::sse::{sse_field, sse_format};
use crate::text::same_text;
use vstd::prelude::*;
use vstd::string::StringExecFns;
use vstd::utf8::encode_utf8;

verus! {

/// The `max_tokens` sent to an Anthropic upstream when the client names
/// none: the upstream insists on one.
pub const DEFAULT_MAX_TOKENS: i32 = 1024;

/// The text of an OpenAI message: its content where that is plain text,
/// else nothing.
pub open spec fn openai_text(c: openai::MessageContentView) -> Seq<char> {
    match c {
        openai::MessageContentView::Text(s) => s,
        _ => Seq::empty(),
    }
}

/// The text of an Anthropic message: its content where that is plain text,
/// else nothing.
pub open spec fn anthropic_text(c: anthropic::MessageContentView) -> Seq<char> {
    match c {
        anthropic::MessageContentView::Text(s) => s,
        _ => Seq::empty(),
    }
}

/// The system prompt of an OpenAI conversation: the text of its last
/// `system` message with plain text.
pub open spec fn system_prompt(messages: Seq<openai::MessageView>) -> Option<Seq<char>>
    decreases messages.len(),
{
    if messages.len() == 0 {
        None
    } else {
        let m = messages.last();
        if m.role == "system"@ && m.content is Text {
            Some(openai_text(m.content))
        } else {
            system_prompt(messages.drop_last())
        }
    }
}

/// Whether an OpenAI message is a turn of the conversation proper.
pub open spec fn is_turn(m: openai::MessageView) -> bool {
    m.role == "user"@ || m.role == "assistant"@
}

/// The `user` and `assistant` turns of an OpenAI conversation as
/// Anthropic messages; messages of any other role are dropped.
pub open spec fn chat_turns(messages: Seq<openai::MessageView>) -> Seq<anthropic::MessageView>
    decreases messages.len(),
{
    if messages.len() == 0 {
        Seq::empty()
    } else {
        let rest = chat_turns(messages.drop_last());
        let m = messages.last();
        if is_turn(m) {
            rest.push(
                anthropic::MessageView {
                    role: m.role,
                    content: anthropic::MessageContentView::Text(openai_text(m.content)),
                },
            )
        } else {
            rest
        }
    }
}

/// An OpenAI request as an Anthropic request for `model`.
pub open spec fn to_anthropic_request(
    r: OpenAIRequestView,
    model: Seq<char>,
) -> AnthropicRequestView {
    AnthropicRequestView {
        model,
        messages: chat_turns(r.messages),
        max_tokens: match r.max_tokens {
            Some(n) => n,
            None => DEFAULT_MAX_TOKENS,
        },
        temperature: r.temperature,
        top_p: r.top_p,
        top_k: None,
        stream: r.stream,
        system: system_prompt(r.messages),
        extra: JsonValue::Obj(Seq::empty()),
    }
}

/// An Anthropic message as an OpenAI message.
pub open spec fn to_openai_message(m: anthropic::MessageView) -> openai::MessageView {
    openai::MessageView {
        role: m.role,
        content: openai::MessageContentView::Text(anthropic_text(m.content)),
    }
}

/// The messages of an Anthropic request as an OpenAI conversation: the
/// system prompt first, where there is one.
pub open spec fn to_openai_messages(
    system: Option<Seq<char>>,
    messages: Seq<anthropic::MessageView>,
) -> Seq<openai::MessageView> {
    let head = match system {
        Some(s) => Seq::empty().push(
            openai::MessageView {
                role: "system"@,
                content: openai::MessageContentView::Text(s),
            },
        ),
        None => Seq::empty(),
    };
    head + Seq::new(messages.len(), |i: int| to_openai_message(messages[i]))
}

/// An Anthropic request as an OpenAI request for `model`.
pub open spec fn to_openai_request(r: AnthropicRequestView, model: Seq<char>) -> OpenAIRequestView {
    OpenAIRequestView {
        model,
        messages: to_openai_messages(r.system, r.messages),
        max_tokens: Some(r.max_tokens),
        temperature: r.temperature,
        top_p: r.top_p,
        stream: r.stream,
        frequency_penalty: None,
        presence_penalty: None,
        extra: JsonValue::Obj(Seq::empty()),
    }
}

/// An OpenAI response as an Anthropic response: the first choice becomes
/// the one text block; a response without choices has no counterpart.
pub open spec fn to_anthropic_response(r: OpenAIResponseView) -> Option<AnthropicResponseView> {
    if r.choices.len() == 0 {
        None
    } else {
        Some(
            AnthropicResponseView {
                id: r.id,
                response_type: "message"@,
                role: "assistant"@,
                content: Seq::empty().push(
                    ContentBlockView::Text { text: openai_text(r.choices[0].message.content) },
                ),
                model: r.model,
                stop_reason: r.choices[0].finish_reason,
                stop_sequence: None,
                usage: anthropic::Usage {
                    input_tokens: r.usage.prompt_tokens,
                    output_tokens: r.usage.completion_tokens,
                },
            },
        )
    }
}

/// The text of the text blocks, one after the other; images are left out.
pub open spec fn joined_text(blocks: Seq<ContentBlockView>) -> Seq<char>
    decreases blocks.len(),
{
    if blocks.len() == 0 {
        Seq::empty()
    } else {
        joined_text(blocks.drop_last()) + (match blocks.last() {
            ContentBlockView::Text { text } => text,
            _ => Seq::empty(),
        })
    }
}

/// Whether the two counts of a response add up within `i32`.
pub open spec fn total_fits(u: anthropic::Usage) -> bool {
    -2147483648 <= u.input_tokens + u.output_tokens <= 2147483647
}

/// An Anthropic response as an OpenAI response made at time `now`: one
/// choice with the joined text; counts that do not add up within `i32` have
/// no counterpart.
pub open spec fn to_openai_response(r: AnthropicResponseView, now: i64) -> Option<
    OpenAIResponseView,
> {
    if total_fits(r.usage) {
        Some(
            OpenAIResponseView {
                id: r.id,
                object: "chat.completion"@,
                created: now,
                model: r.model,
                choices: Seq::empty().push(
                    ChoiceView {
                        index: 0,
                        message: openai::MessageView {
                            role: "assistant"@,
                            content: openai::MessageContentView::Text(joined_text(r.content)),
                        },
                        finish_reason: r.stop_reason,
                    },
                ),
                usage: openai::Usage {
                    prompt_tokens: r.usage.input_tokens,
                    completion_tokens: r.usage.output_tokens,
                    total_tokens: (r.usage.input_tokens + r.usage.output_tokens) as i32,
                },
            },
        )
    } else {
        None
    }
}

/// Whether a conversation survives the way to Anthropic and back: every
/// message holds plain text, the first is a `system`, `user` or `assistant`
/// message and every other a `user` or `assistant` message.
pub open spec fn plain_conversation(messages: Seq<openai::MessageView>) -> bool {
    forall|i: int|
        0 <= i < messages.len() ==> (#[trigger] messages[i]).content is Text && (is_turn(
            messages[i],
        ) || (i == 0 && messages[i].role == "system"@))
}

/// An OpenAI message as the Anthropic turn it becomes.
pub open spec fn as_turn(m: openai::MessageView) -> anthropic::MessageView {
    anthropic::MessageView {
        role: m.role,
        content: anthropic::MessageContentView::Text(openai_text(m.content)),
    }
}

proof fn lemma_plain_conversation(messages: Seq<openai::MessageView>)
    requires
        plain_conversation(messages),
    ensures
        messages.len() > 0 && messages[0].role == "system"@ ==> system_prompt(messages) == Some(
            openai_text(messages[0].content),
        ) && chat_turns(messages) == Seq::new(
            (messages.len() - 1) as nat,
            |i: int| as_turn(messages[i + 1]),
        ),
        !(messages.len() > 0 && messages[0].role == "system"@) ==> system_prompt(messages) is None
            && chat_turns(messages) == Seq::new(messages.len(), |i: int| as_turn(messages[i])),
    decreases messages.len(),
{
    reveal_strlit("system");
    reveal_strlit("user");
    reveal_strlit("assistant");
    assert("system"@ != "user"@) by {
        assert("system"@.len() == 6 && "user"@.len() == 4);
    }
    assert("system"@ != "assistant"@) by {
        assert("assistant"@.len() == 9);
    }
    if messages.len() > 0 {
        let prev = messages.drop_last();
        let last = messages.last();
        assert(last == messages[messages.len() - 1]);
        assert forall|i: int| 0 <= i < prev.len() implies (#[trigger] prev[i]).content is Text && (
        is_turn(prev[i]) || (i == 0 && prev[i].role == "system"@)) by {
            assert(prev[i] == messages[i]);
        }
        lemma_plain_conversation(prev);
        if prev.len() > 0 {
            assert(prev[0] == messages[0]);
            assert(is_turn(last));
            if messages[0].role == "system"@ {
                assert(chat_turns(messages) =~= Seq::new(
                    (messages.len() - 1) as nat,
                    |i: int| as_turn(messages[i + 1]),
                ));
            } else {
                assert(chat_turns(messages) =~= Seq::new(
                    messages.len(),
                    |i: int| as_turn(messages[i]),
                ));
            }
        } else {
            assert(chat_turns(prev) =~= Seq::empty());
            if messages[0].role == "system"@ {
                assert(!is_turn(last));
                assert(chat_turns(messages) =~= Seq::new(
                    (messages.len() - 1) as nat,
                    |i: int| as_turn(messages[i + 1]),
                ));
            } else {
                assert(chat_turns(messages) =~= Seq::new(
                    messages.len(),
                    |i: int| as_turn(messages[i]),
                ));
            }
        }
    } else {
        assert(chat_turns(messages) =~= Seq::new(messages.len(), |i: int| as_turn(messages[i])));
    }
}

/// A plain conversation with a `max_tokens` comes back from Anthropic as
/// it went: rewriting an OpenAI request for Anthropic and the outcome for
/// OpenAI again gives the model asked for and the same messages,
/// `max_tokens`, `temperature`, `top_p` and `stream`.
pub proof fn lemma_request_round_trip(r: OpenAIRequestView, model: Seq<char>)
    requires
        plain_conversation(r.messages),
        r.max_tokens is Some,
    ensures
        ({
            let back = to_openai_request(to_anthropic_request(r, model), model);
            &&& back.model == model
            &&& back.messages == r.messages
            &&& back.max_tokens == r.max_tokens
            &&& back.temperature == r.temperature
            &&& back.top_p == r.top_p
            &&& back.stream == r.stream
        }),
{
    lemma_plain_conversation(r.messages);
    let there = to_anthropic_request(r, model);
    let back = to_openai_request(there, model);
    assert forall|i: int| 0 <= i < r.messages.len() implies to_openai_message(
        as_turn(#[trigger] r.messages[i]),
    ) == r.messages[i] by {
        assert(r.messages[i].content is Text);
    }
    assert(back.messages =~= r.messages);
}

/// What is done to a body that goes from one protocol to another.
#[derive(Debug, Clone, Copy, PartialEq, Eq, Structural)]
pub enum Rewrite {
    /// Same protocol on both sides: the document is kept.
    Keep,
    OpenAiToAnthropic,
    AnthropicToOpenAi,
    /// A custom protocol on either side.
    Unsupported,
}

/// The rewrite between a protocol and another.
pub open spec fn rewrite_between(from: ProtocolView, to: ProtocolView) -> Rewrite {
    match (from, to) {
        (ProtocolView::OpenAI, ProtocolView::OpenAI) => Rewrite::Keep,
        (ProtocolView::Anthropic, ProtocolView::Anthropic) => Rewrite::Keep,
        (ProtocolView::OpenAI, ProtocolView::Anthropic) => Rewrite::OpenAiToAnthropic,
        (ProtocolView::Anthropic, ProtocolView::OpenAI) => Rewrite::AnthropicToOpenAi,
        _ => Rewrite::Unsupported,
    }
}

/// What the `Debug` format of `str` writes for a text: the text in double
/// quotes, with escapes.
pub uninterp spec fn debug_quoted(s: Seq<char>) -> Seq<char>;

/// Formats a text with the `Debug` format of `str`.  The contract names
/// the outcome `debug_quoted` of the text.
#[verifier::external_body]
fn quoted(s: &str) -> (r: String)
    ensures
        r@ == debug_quoted(s@),
{
    format!("{:?}", s)
}

/// A protocol as error texts show it.
pub open spec fn protocol_label(p: ProtocolView) -> Seq<char> {
    match p {
        ProtocolView::OpenAI => "OpenAI"@,
        ProtocolView::Anthropic => "Anthropic"@,
        ProtocolView::Custom(name) => "Custom("@ + debug_quoted(name) + ")"@,
    }
}

/// The error for a pair of protocols without a rewrite.
pub open spec fn unsupported(from: ProtocolView, to: ProtocolView) -> ErrorView {
    ErrorView {
        kind: ErrorKind::Protocol,
        detail: "Unsupported protocol conversion: "@ + protocol_label(from) + " -> "@
            + protocol_label(to),
    }
}

/// The error for a body that is JSON but not of the protocol's shape.
pub open spec fn bad_shape(what: Seq<char>) -> ErrorView {
    ErrorView { kind: ErrorKind::Serialization, detail: "not a valid "@ + what }
}

/// The error for a body that is no JSON.
pub open spec fn bad_json(parser_text: Seq<char>) -> ErrorView {
    ErrorView { kind: ErrorKind::Serialization, detail: parser_text }
}

/// A request document rewritten for the upstream.  Between equal protocols
/// only `model` changes.
pub open spec fn rewritten_request(
    source: ProtocolView,
    target: ProtocolView,
    model: Seq<char>,
    j: JsonValue,
) -> Result<JsonValue, ErrorView> {
    match rewrite_between(source, target) {
        Rewrite::Keep => Ok(j.with("model"@, JsonValue::Str(model))),
        Rewrite::OpenAiToAnthropic => match openai::decode_request(j) {
            Some(r) => Ok(anthropic::encode_request(to_anthropic_request(r, model))),
            None => Err(bad_shape("OpenAI chat request"@)),
        },
        Rewrite::AnthropicToOpenAi => match anthropic::decode_request(j) {
            Some(r) => Ok(openai::encode_request(to_openai_request(r, model))),
            None => Err(bad_shape("Anthropic messages request"@)),
        },
        Rewrite::Unsupported => Err(unsupported(source, target)),
    }
}

/// A response document of the upstream rewritten for the client at time
/// `now`.  Between equal protocols nothing changes.
pub open spec fn rewritten_response(
    source: ProtocolView,
    target: ProtocolView,
    j: JsonValue,
    now: i64,
) -> Result<JsonValue, ErrorView> {
    match rewrite_between(source, target) {
        Rewrite::Keep => Ok(j),
        Rewrite::OpenAiToAnthropic => match openai::decode_response(j) {
            Some(r) => match to_anthropic_response(r) {
                Some(out) => Ok(anthropic::encode_response(out)),
                None => Err(
                    ErrorView {
                        kind: ErrorKind::Protocol,
                        detail: "No choices in OpenAI response"@,
                    },
                ),
            },
            None => Err(bad_shape("OpenAI chat response"@)),
        },
        Rewrite::AnthropicToOpenAi => match anthropic::decode_response(j) {
            Some(r) => match to_openai_response(r, now) {
                Some(out) => Ok(openai::encode_response(out)),
                None => Err(
                    ErrorView {
                        kind: ErrorKind::Protocol,
                        detail: "Token counts out of range"@,
                    },
                ),
            },
            None => Err(bad_shape("Anthropic messages response"@)),
        },
        Rewrite::Unsupported => Err(unsupported(source, target)),
    }
}

/// `r` is the success `x`.
pub open spec fn gives<T, E>(r: Result<T, E>, x: T) -> bool {
    r is Ok && r->Ok_0 == x
}

/// `r` is the failure `e`.
pub open spec fn fails<T, E>(r: Result<T, E>, e: E) -> bool {
    r is Err && r->Err_0 == e
}

/// The bytes of a JSON document.
pub open spec fn json_bytes(j: JsonValue) -> Seq<u8> {
    encode_utf8(json_text(j))
}

/// What `transform_request` makes of a body.
pub open spec fn transformed_request(
    source: ProtocolView,
    target: ProtocolView,
    model: Seq<char>,
    body: Seq<u8>,
) -> Result<Seq<u8>, ErrorView> {
    match parsed_json(body) {
        Ok(j) => match rewritten_request(source, target, model, j) {
            Ok(out) => Ok(json_bytes(out)),
            Err(e) => Err(e),
        },
        Err(text) => Err(bad_json(text)),
    }
}

/// What `transform_response` makes of a body at time `now`.
pub open spec fn transformed_response(
    source: ProtocolView,
    target: ProtocolView,
    body: Seq<u8>,
    now: i64,
) -> Result<Seq<u8>, ErrorView> {
    match parsed_json(body) {
        Ok(j) => match rewritten_response(source, target, j, now) {
            Ok(out) => Ok(json_bytes(out)),
            Err(e) => Err(e),
        },
        Err(text) => Err(bad_json(text)),
    }
}

/// The state of a stream adapter.
pub enum StreamAdapterView {
    /// Bytes go through as they come.
    Passthrough,
    ToAnthropic(to_anthropic::ToAnthropicState),
    ToOpenAi(to_openai::ToOpenAiState),
}

impl StreamAdapterView {
    /// The adapter for a stream from an upstream of protocol `source` to a
    /// client of protocol `target`.  Equal protocols, and pairs without a
    /// rewrite, pass the bytes through.
    pub open spec fn between(source: ProtocolView, target: ProtocolView) -> StreamAdapterView {
        match rewrite_between(source, target) {
            Rewrite::OpenAiToAnthropic => StreamAdapterView::ToAnthropic(
                to_anthropic::initial_state(),
            ),
            Rewrite::AnthropicToOpenAi => StreamAdapterView::ToOpenAi(to_openai::initial_state()),
            _ => StreamAdapterView::Passthrough,
        }
    }

    /// The adapter after a chunk read at time `now`, and the bytes sent for
    /// it.
    pub open spec fn feed(self, chunk: Seq<u8>, now: i64) -> (StreamAdapterView, Seq<u8>) {
        match self {
            StreamAdapterView::Passthrough => (self, chunk),
            StreamAdapterView::ToAnthropic(st) => (
                StreamAdapterView::ToAnthropic(to_anthropic::feed(st, chunk).0),
                to_anthropic::wire(to_anthropic::feed(st, chunk).1),
            ),
            StreamAdapterView::ToOpenAi(st) => (
                StreamAdapterView::ToOpenAi(to_openai::feed(st, chunk, now).0),
                to_openai::wire(to_openai::feed(st, chunk, now).1),
            ),
        }
    }
}

/// A stream between equal protocols reaches the client byte for byte.
pub proof fn lemma_same_protocol_passes_through(p: ProtocolView, chunk: Seq<u8>, now: i64)
    requires
        p is OpenAI || p is Anthropic,
    ensures
        StreamAdapterView::between(p, p) == StreamAdapterView::Passthrough,
        StreamAdapterView::between(p, p).feed(chunk, now) == (
            StreamAdapterView::Passthrough,
            chunk,
        ),
{
}

/// Where the upstream cuts its chunks does not show: feeding two chunks
/// one after the other sends what feeding their concatenation sends, and
/// leaves the adapter in the same state.
pub proof fn lemma_split_chunks(v: StreamAdapterView, a: Seq<u8>, b: Seq<u8>, now: i64)
    ensures
        v.feed(a + b, now).0 == v.feed(a, now).0.feed(b, now).0,
        v.feed(a + b, now).1 == v.feed(a, now).1 + v.feed(a, now).0.feed(b, now).1,
{
    match v {
        StreamAdapterView::Passthrough => {},
        StreamAdapterView::ToAnthropic(st) => {
            to_anthropic::lemma_feed_concat(st, a, b);
        },
        StreamAdapterView::ToOpenAi(st) => {
            to_openai::lemma_feed_concat(st, a, b, now);
        },
    }
}

/// The adapter of one stream.
pub enum StreamAdapter {
    Passthrough,
    ToAnthropic(OpenAiToAnthropicStream),
    ToOpenAi(AnthropicToOpenAiStream),
}

impl View for StreamAdapter {
    type V = StreamAdapterView;

    open spec fn view(&self) -> StreamAdapterView {
        match self {
            StreamAdapter::Passthrough => StreamAdapterView::Passthrough,
            StreamAdapter::ToAnthropic(s) => StreamAdapterView::ToAnthropic(s@),
            StreamAdapter::ToOpenAi(s) => StreamAdapterView::ToOpenAi(s@),
        }
    }
}

/// A copy of a byte slice.
pub fn copy_bytes(bytes: &[u8]) -> (r: Vec<u8>)
    ensures
        r@ == bytes@,
{
    let mut out: Vec<u8> = Vec::new();
    let mut i: usize = 0;
    while i < bytes.len()
        invariant
            i <= bytes.len(),
            out@ == bytes@.take(i as int),
        decreases bytes.len() - i,
    {
        out.push(bytes[i]);
        assert(bytes@.take(i + 1) =~= bytes@.take(i as int).push(bytes@[i as int]));
        i += 1;
    }
    assert(bytes@.take(bytes.len() as int) =~= bytes@);
    out
}

impl StreamAdapter {
    /// Takes the next upstream chunk, read at time `now`, and answers with
    /// the bytes for the client.
    pub fn push_at(&mut self, chunk: &[u8], now: i64) -> (out: Vec<u8>)
        ensures
            final(self)@ == old(self)@.feed(chunk@, now).0,
            out@ == old(self)@.feed(chunk@, now).1,
    {
        match self {
            StreamAdapter::Passthrough => copy_bytes(chunk),
            StreamAdapter::ToAnthropic(s) => s.push(chunk),
            StreamAdapter::ToOpenAi(s) => s.push_at(chunk, now),
        }
    }

    /// Takes the next upstream chunk and stamps what it sends with the
    /// current time.
    pub fn push(&mut self, chunk: &[u8]) -> (out: Vec<u8>)
        ensures
            exists|now: i64|
                final(self)@ == (#[trigger] old(self)@.feed(chunk@, now)).0 && out@ == old(
                    self,
                )@.feed(chunk@, now).1,
    {
        let now: i64 = unix_now();
        self.push_at(chunk, now)
    }
}

fn label_of(p: ProtocolKind<'_>) -> (r: String)
    ensures
        r@ == protocol_label(p.view()),
{
    match p {
        ProtocolKind::OpenAI => "OpenAI".to_owned(),
        ProtocolKind::Anthropic => "Anthropic".to_owned(),
        ProtocolKind::Custom(name) => "Custom(".to_owned().concat(quoted(name).as_str()).concat(
            ")",
        ),
    }
}

/// A protocol of either side, borrowed.
enum ProtocolKind<'a> {
    OpenAI,
    Anthropic,
    Custom(&'a str),
}

impl<'a> ProtocolKind<'a> {
    spec fn view(self) -> ProtocolView {
        match self {
            ProtocolKind::OpenAI => ProtocolView::OpenAI,
            ProtocolKind::Anthropic => ProtocolView::Anthropic,
            ProtocolKind::Custom(name) => ProtocolView::Custom(name@),
        }
    }
}

fn kind_of_client<'a>(p: &'a ClientProtocol) -> (r: ProtocolKind<'a>)
    ensures
        r.view() == p@,
{
    match p {
        ClientProtocol::OpenAI => ProtocolKind::OpenAI,
        ClientProtocol::Anthropic => ProtocolKind::Anthropic,
        ClientProtocol::Custom(name) => ProtocolKind::Custom(name.as_str()),
    }
}

fn kind_of_target<'a>(p: &'a TargetProtocol) -> (r: ProtocolKind<'a>)
    ensures
        r.view() == p@,
{
    match p {
        TargetProtocol::OpenAI => ProtocolKind::OpenAI,
        TargetProtocol::Anthropic => ProtocolKind::Anthropic,
        TargetProtocol::Custom(name) => ProtocolKind::Custom(name.as_str()),
    }
}

fn rewrite_of(from: &ProtocolKind<'_>, to: &ProtocolKind<'_>) -> (r: Rewrite)
    ensures
        r == rewrite_between(from.view(), to.view()),
{
    match (from, to) {
        (ProtocolKind::OpenAI, ProtocolKind::OpenAI) => Rewrite::Keep,
        (ProtocolKind::Anthropic, ProtocolKind::Anthropic) => Rewrite::Keep,
        (ProtocolKind::OpenAI, ProtocolKind::Anthropic) => Rewrite::OpenAiToAnthropic,
        (ProtocolKind::Anthropic, ProtocolKind::OpenAI) => Rewrite::AnthropicToOpenAi,
        _ => Rewrite::Unsupported,
    }
}

fn unsupported_error(from: ProtocolKind<'_>, to: ProtocolKind<'_>) -> (r: Error)
    ensures
        r@ == unsupported(from.view(), to.view()),
{
    Error::Protocol(
        "Unsupported protocol conversion: ".to_owned().concat(label_of(from).as_str()).concat(
            " -> ",
        ).concat(label_of(to).as_str()),
    )
}

fn shape_error(what: &str) -> (r: Error)
    ensures
        r@ == bad_shape(what@),
{
    Error::Serialization("not a valid ".to_owned().concat(what))
}

/// The adapter between the protocols.  It keeps no state of its own: what
/// a stream needs to remember lives in the stream's adapter.
#[derive(Debug, Clone, Copy)]
pub struct UniversalAdapter;

impl UniversalAdapter {
    pub fn new() -> (r: UniversalAdapter)
        ensures
            r == UniversalAdapter,
    {
        UniversalAdapter
    }

    /// Splits one SSE line into field name and value.
    pub fn parse_sse_line(line: &str) -> (r: Option<(String, String)>)
        ensures
            match r {
                Some((f, v)) => sse_field(line@) == Some((f@, v@)),
                None => sse_field(line@) is None,
            },
    {
        crate::sse::parse_sse_line(line)
    }

    /// Formats one SSE event.
    pub fn format_sse(event: Option<&str>, data: &str) -> (r: String)
        ensures
            r@ == sse_format(
                match event {
                    Some(e) => Some(e@),
                    None => None,
                },
                data@,
            ),
    {
        crate::sse::format_sse(event, data)
    }

    /// The adapter for a stream from an OpenAI upstream to an Anthropic
    /// client.
    pub fn convert_openai_to_anthropic_stream(&self) -> (r: OpenAiToAnthropicStream)
        ensures
            r@ == to_anthropic::initial_state(),
    {
        OpenAiToAnthropicStream::new()
    }

    /// The adapter for a stream from an Anthropic upstream to an OpenAI
    /// client.
    pub fn convert_anthropic_to_openai_stream(&self) -> (r: AnthropicToOpenAiStream)
        ensures
            r@ == to_openai::initial_state(),
    {
        AnthropicToOpenAiStream::new()
    }

    /// An OpenAI request as an Anthropic request for `target_model`.
    pub fn openai_to_anthropic(openai_req: &OpenAIRequest, target_model: &str) -> (r: Result<
        AnthropicRequest,
        Error,
    >)
        ensures
            r is Ok,
            r->Ok_0@ == to_anthropic_request(openai_req@, target_model@),
    {
        let mut messages: Vec<anthropic::Message> = Vec::new();
        let mut system: Option<String> = None;
        let ghost all = openai::messages_view(openai_req.messages@);
        let mut i: usize = 0;
        assert(all.take(0) =~= Seq::empty());
        assert(anthropic::messages_view(messages@) =~= Seq::empty());
        while i < openai_req.messages.len()
            invariant
                i <= openai_req.messages.len(),
                all == openai::messages_view(openai_req.messages@),
                anthropic::messages_view(messages@) == chat_turns(all.take(i as int)),
                opt_text_view(system) == system_prompt(all.take(i as int)),
            decreases openai_req.messages.len() - i,
        {
            let msg = &openai_req.messages[i];
            let ghost before = anthropic::messages_view(messages@);
            proof {
                assert(all.take(i + 1).drop_last() =~= all.take(i as int));
                assert(all.take(i + 1).last() == msg@);
            }
            if same_text(msg.role.as_str(), "system") {
                match &msg.content {
                    openai::MessageContent::Text(text) => {
                        system = Some(text.clone());
                    },
                    _ => {},
                }
            }
            if same_text(msg.role.as_str(), "user") || same_text(msg.role.as_str(), "assistant") {
                let text: String = match &msg.content {
                    openai::MessageContent::Text(text) => text.clone(),
                    _ => String::new(),
                };
                messages.push(
                    anthropic::Message {
                        role: msg.role.clone(),
                        content: anthropic::MessageContent::Text(text),
                    },
                );
                assert(anthropic::messages_view(messages@) =~= before.push(
                    anthropic::MessageView {
                        role: msg@.role,
                        content: anthropic::MessageContentView::Text(openai_text(msg@.content)),
                    },
                ));
            }
            i += 1;
        }
        assert(all.take(openai_req.messages.len() as int) =~= all);
        Ok(
            AnthropicRequest {
                model: target_model.to_owned(),
                messages,
                max_tokens: match openai_req.max_tokens {
                    Some(n) => n,
                    None => DEFAULT_MAX_TOKENS,
                },
                temperature: anthropic::clone_some(&openai_req.temperature),
                top_p: anthropic::clone_some(&openai_req.top_p),
                top_k: None,
                stream: openai_req.stream,
                system,
                extra: ObjectBuilder::new().build(),
            },
        )
    }

    /// An Anthropic request as an OpenAI request for `target_model`.
    pub fn anthropic_to_openai(anthropic_req: &AnthropicRequest, target_model: &str) -> (r: Result<
        OpenAIRequest,
        Error,
    >)
        ensures
            r is Ok,
            r->Ok_0@ == to_openai_request(anthropic_req@, target_model@),
    {
        let mut messages: Vec<openai::Message> = Vec::new();
        assert(openai::messages_view(messages@) =~= Seq::empty());
        match &anthropic_req.system {
            Some(s) => {
                messages.push(
                    openai::Message {
                        role: "system".to_owned(),
                        content: openai::MessageContent::Text(s.clone()),
                    },
                );
                assert(openai::messages_view(messages@) =~= Seq::empty().push(
                    openai::MessageView {
                        role: "system"@,
                        content: openai::MessageContentView::Text(s@),
                    },
                ));
            },
            None => {},
        }
        let ghost head = openai::messages_view(messages@);
        let ghost all = anthropic::messages_view(anthropic_req.messages@);
        let ghost tail = Seq::new(all.len(), |i: int| to_openai_message(all[i]));
        let mut i: usize = 0;
        assert(head + tail.take(0) =~= head);
        while i < anthropic_req.messages.len()
            invariant
                i <= anthropic_req.messages.len(),
                all == anthropic::messages_view(anthropic_req.messages@),
                tail == Seq::new(all.len(), |i: int| to_openai_message(all[i])),
                openai::messages_view(messages@) == head + tail.take(i as int),
            decreases anthropic_req.messages.len() - i,
        {
            let msg = &anthropic_req.messages[i];
            let text: String = match &msg.content {
                anthropic::MessageContent::Text(text) => text.clone(),
                _ => String::new(),
            };
            messages.push(
                openai::Message {
                    role: msg.role.clone(),
                    content: openai::MessageContent::Text(text),
                },
            );
            assert(openai::messages_view(messages@) =~= (head + tail.take(i as int)).push(
                tail[i as int],
            ));
            assert(head + tail.take(i + 1) =~= (head + tail.take(i as int)).push(tail[i as int]));
            i += 1;
        }
        assert(tail.take(anthropic_req.messages.len() as int) =~= tail);
        Ok(
            OpenAIRequest {
                model: target_model.to_owned(),
                messages,
                max_tokens: Some(anthropic_req.max_tokens),
                temperature: anthropic::clone_some(&anthropic_req.temperature),
                top_p: anthropic::clone_some(&anthropic_req.top_p),
                stream: anthropic_req.stream,
                frequency_penalty: None,
                presence_penalty: None,
                extra: ObjectBuilder::new().build(),
            },
        )
    }

    /// An OpenAI response as an Anthropic response; a protocol error for
    /// a response without choices.
    pub fn openai_response_to_anthropic(openai_resp: &OpenAIResponse) -> (r: Result<
        AnthropicResponse,
        Error,
    >)
        ensures
            match r {
                Ok(out) => to_anthropic_response(openai_resp@) == Some(out@),
                Err(e) => to_anthropic_response(openai_resp@) is None && e@.kind
                    == ErrorKind::Protocol && e@.detail == "No choices in OpenAI response"@,
            },
    {
        if openai_resp.choices.len() == 0 {
            return Err(Error::Protocol("No choices in OpenAI response".to_owned()));
        }
        let first = &openai_resp.choices[0];
        let text: String = match &first.message.content {
            openai::MessageContent::Text(text) => text.clone(),
            _ => String::new(),
        };
        let mut content: Vec<ContentBlock> = Vec::new();
        content.push(ContentBlock::Text { text });
        assert(anthropic::blocks_view(content@) =~= Seq::empty().push(
            ContentBlockView::Text { text: openai_text(first@.message.content) },
        ));
        Ok(
            AnthropicResponse {
                id: openai_resp.id.clone(),
                response_type: "message".to_owned(),
                role: "assistant".to_owned(),
                content,
                model: openai_resp.model.clone(),
                stop_reason: match &first.finish_reason {
                    Some(s) => Some(s.clone()),
                    None => None,
                },
                stop_sequence: None,
                usage: anthropic::Usage {
                    input_tokens: openai_resp.usage.prompt_tokens,
                    output_tokens: openai_resp.usage.completion_tokens,
                },
            },
        )
    }

    /// An Anthropic response as an OpenAI response made at time `now`; a
    /// protocol error for token counts that do not add up within `i32`.
    pub fn anthropic_response_to_openai(anthropic_resp: &AnthropicResponse, now: i64) -> (r: Result<
        OpenAIResponse,
        Error,
    >)
        ensures
            match r {
                Ok(out) => to_openai_response(anthropic_resp@, now) == Some(out@),
                Err(e) => to_openai_response(anthropic_resp@, now) is None && e@.kind
                    == ErrorKind::Protocol && e@.detail == "Token counts out of range"@,
            },
    {
        let total: i32 = match anthropic_resp.usage.input_tokens.checked_add(
            anthropic_resp.usage.output_tokens,
        ) {
            Some(t) => t,
            None => {
                return Err(Error::Protocol("Token counts out of range".to_owned()));
            },
        };
        let mut text: String = String::new();
        let ghost blocks = anthropic::blocks_view(anthropic_resp.content@);
        let mut i: usize = 0;
        assert(blocks.take(0) =~= Seq::empty());
        while i < anthropic_resp.content.len()
            invariant
                i <= anthropic_resp.content.len(),
                blocks == anthropic::blocks_view(anthropic_resp.content@),
                text@ == joined_text(blocks.take(i as int)),
            decreases anthropic_resp.content.len() - i,
        {
            proof {
                assert(blocks.take(i + 1).drop_last() =~= blocks.take(i as int));
                assert(blocks.take(i + 1).last() == anthropic_resp.content@[i as int]@);
            }
            match &anthropic_resp.content[i] {
                ContentBlock::Text { text: piece } => {
                    text = text.concat(piece.as_str());
                },
                _ => {
                    assert(text@ + Seq::<char>::empty() =~= text@);
                },
            }
            i += 1;
        }
        assert(blocks.take(anthropic_resp.content.len() as int) =~= blocks);
        let mut choices: Vec<Choice> = Vec::new();
        choices.push(
            Choice {
                index: 0,
                message: openai::Message {
                    role: "assistant".to_owned(),
                    content: openai::MessageContent::Text(text),
                },
                finish_reason: match &anthropic_resp.stop_reason {
                    Some(s) => Some(s.clone()),
                    None => None,
                },
            },
        );
        assert(openai::choices_view(choices@) =~= Seq::empty().push(choices@[0]@));
        Ok(
            OpenAIResponse {
                id: anthropic_resp.id.clone(),
                object: "chat.completion".to_owned(),
                created: now,
                model: anthropic_resp.model.clone(),
                choices,
                usage: openai::Usage {
                    prompt_tokens: anthropic_resp.usage.input_tokens,
                    completion_tokens: anthropic_resp.usage.output_tokens,
                    total_tokens: total,
                },
            },
        )
    }

    /// Rewrites a request document for an upstream of `target_protocol`
    /// and model `target_model`.
    pub fn rewrite_request(
        &self,
        source_protocol: &ClientProtocol,
        target_protocol: &TargetProtocol,
        target_model: &str,
        request: Json,
    ) -> (r: Result<Json, Error>)
        ensures
            match r {
                Ok(j) => gives(rewritten_request(
                    source_protocol@,
                    target_protocol@,
                    target_model@,
                    request@,
                ), j@),
                Err(e) => fails(rewritten_request(
                    source_protocol@,
                    target_protocol@,
                    target_model@,
                    request@,
                ), e@),
            },
    {
        let from = kind_of_client(source_protocol);
        let to = kind_of_target(target_protocol);
        match rewrite_of(&from, &to) {
            Rewrite::Keep => {
                let mut j = request;
                j.set("model", Json::text(target_model));
                Ok(j)
            },
            Rewrite::OpenAiToAnthropic => match OpenAIRequest::from_json(&request) {
                Some(req) => match UniversalAdapter::openai_to_anthropic(&req, target_model) {
                    Ok(out) => Ok(out.to_json()),
                    Err(e) => Err(e),
                },
                None => Err(shape_error("OpenAI chat request")),
            },
            Rewrite::AnthropicToOpenAi => match AnthropicRequest::from_json(&request) {
                Some(req) => match UniversalAdapter::anthropic_to_openai(&req, target_model) {
                    Ok(out) => Ok(out.to_json()),
                    Err(e) => Err(e),
                },
                None => Err(shape_error("Anthropic messages request")),
            },
            Rewrite::Unsupported => Err(unsupported_error(from, to)),
        }
    }

    /// Rewrites a response document of an upstream of `source_protocol`
    /// for the client, at time `now`.
    pub fn rewrite_response(
        &self,
        source_protocol: &TargetProtocol,
        target_protocol: &ClientProtocol,
        response: Json,
        now: i64,
    ) -> (r: Result<Json, Error>)
        ensures
            match r {
                Ok(j) => gives(
                    rewritten_response(source_protocol@, target_protocol@, response@, now),
                    j@,
                ),
                Err(e) => fails(
                    rewritten_response(source_protocol@, target_protocol@, response@, now),
                    e@,
                ),
            },
    {
        let from = kind_of_target(source_protocol);
        let to = kind_of_client(target_protocol);
        match rewrite_of(&from, &to) {
            Rewrite::Keep => Ok(response),
            Rewrite::OpenAiToAnthropic => match OpenAIResponse::from_json(&response) {
                Some(resp) => match UniversalAdapter::openai_response_to_anthropic(&resp) {
                    Ok(out) => Ok(out.to_json()),
                    Err(e) => Err(e),
                },
                None => Err(shape_error("OpenAI chat response")),
            },
            Rewrite::AnthropicToOpenAi => match AnthropicResponse::from_json(&response) {
                Some(resp) => match UniversalAdapter::anthropic_response_to_openai(&resp, now) {
                    Ok(out) => Ok(out.to_json()),
                    Err(e) => Err(e),
                },
                None => Err(shape_error("Anthropic messages response")),
            },
            Rewrite::Unsupported => Err(unsupported_error(from, to)),
        }
    }

    /// Rewrites a request body for an upstream.
    pub fn transform_request(
        &self,
        source_protocol: &ClientProtocol,
        target_protocol: &TargetProtocol,
        target_model: &str,
        request_body: &[u8],
    ) -> (r: Result<Vec<u8>, Error>)
        ensures
            match r {
                Ok(b) => gives(transformed_request(
                    source_protocol@,
                    target_protocol@,
                    target_model@,
                    request_body@,
                ), b@),
                Err(e) => fails(transformed_request(
                    source_protocol@,
                    target_protocol@,
                    target_model@,
                    request_body@,
                ), e@),
            },
    {
        match Json::parse(request_body) {
            Ok(j) => match self.rewrite_request(source_protocol, target_protocol, target_model, j) {
                Ok(out) => Ok(out.to_text().as_str().as_bytes_vec()),
                Err(e) => Err(e),
            },
            Err(text) => Err(Error::Serialization(text)),
        }
    }

    /// Rewrites a response body for the client, at time `now`.
    pub fn transform_response_at(
        &self,
        source_protocol: &TargetProtocol,
        target_protocol: &ClientProtocol,
        response_body: &[u8],
        now: i64,
    ) -> (r: Result<Vec<u8>, Error>)
        ensures
            match r {
                Ok(b) => gives(transformed_response(
                    source_protocol@,
                    target_protocol@,
                    response_body@,
                    now,
                ), b@),
                Err(e) => fails(transformed_response(
                    source_protocol@,
                    target_protocol@,
                    response_body@,
                    now,
                ), e@),
            },
    {
        match Json::parse(response_body) {
            Ok(j) => match self.rewrite_response(source_protocol, target_protocol, j, now) {
                Ok(out) => Ok(out.to_text().as_str().as_bytes_vec()),
                Err(e) => Err(e),
            },
            Err(text) => Err(Error::Serialization(text)),
        }
    }

    /// Rewrites a response body for the client, stamped with the current
    /// time.
    pub fn transform_response(
        &self,
        source_protocol: &TargetProtocol,
        target_protocol: &ClientProtocol,
        response_body: &[u8],
    ) -> (r: Result<Vec<u8>, Error>)
        ensures
            exists|now: i64|
                match r {
                    Ok(b) => gives((#[trigger] transformed_response(
                        source_protocol@,
                        target_protocol@,
                        response_body@,
                        now,
                    )), b@),
                    Err(e) => fails(transformed_response(
                        source_protocol@,
                        target_protocol@,
                        response_body@,
                        now,
                    ), e@),
                },
    {
        let now: i64 = unix_now();
        self.transform_response_at(source_protocol, target_protocol, response_body, now)
    }

    /// The adapter for a stream from an upstream of `source_protocol` to a
    /// client of `target_protocol`.
    pub fn transform_stream_chunk(
        &self,
        source_protocol: &TargetProtocol,
        target_protocol: &ClientProtocol,
    ) -> (r: StreamAdapter)
        ensures
            r@ == StreamAdapterView::between(source_protocol@, target_protocol@),
    {
        let from = kind_of_target(source_protocol);
        let to = kind_of_client(target_protocol);
        match rewrite_of(&from, &to) {
            Rewrite::OpenAiToAnthropic => StreamAdapter::ToAnthropic(
                self.convert_openai_to_anthropic_stream(),
            ),
            Rewrite::AnthropicToOpenAi => StreamAdapter::ToOpenAi(
                self.convert_anthropic_to_openai_stream(),
            ),
            _ => StreamAdapter::Passthrough,
        }
    }
}

impl crate::protocol::ProtocolAdapter for UniversalAdapter {
    fn transform_request(
        &self,
        source_protocol: &ClientProtocol,
        target_protocol: &TargetProtocol,
        target_model: &str,
        request_body: &[u8],
    ) -> (r: Result<Vec<u8>, Error>)
        ensures
            match r {
                Ok(b) => gives(
                    transformed_request(
                        source_protocol@,
                        target_protocol@,
                        target_model@,
                        request_body@,
                    ),
                    b@,
                ),
                Err(e) => fails(
                    transformed_request(
                        source_protocol@,
                        target_protocol@,
                        target_model@,
                        request_body@,
                    ),
                    e@,
                ),
            },
    {
        UniversalAdapter::transform_request(
            self,
            source_protocol,
            target_protocol,
            target_model,
            request_body,
        )
    }

    fn transform_response(
        &self,
        source_protocol: &TargetProtocol,
        target_protocol: &ClientProtocol,
        response_body: &[u8],
    ) -> (r: Result<Vec<u8>, Error>)
        ensures
            exists|now: i64|
                match r {
                    Ok(b) => gives(
                        #[trigger] transformed_response(
                            source_protocol@,
                            target_protocol@,
                            response_body@,
                            now,
                        ),
                        b@,
                    ),
                    Err(e) => fails(
                        transformed_response(
                            source_protocol@,
                            target_protocol@,
                            response_body@,
                            now,
                        ),
                        e@,
                    ),
                },
    {
        let now: i64 = unix_now();
        self.transform_response_at(source_protocol, target_protocol, response_body, now)
    }

    fn transform_stream_chunk(
        &self,
        source_protocol: &TargetProtocol,
        target_protocol: &ClientProtocol,
    ) -> (r: StreamAdapter)
        ensures
            r@ == StreamAdapterView::between(source_protocol@, target_protocol@),
    {
        UniversalAdapter::transform_stream_chunk(self, source_protocol, target_protocol)
    }
}

} // verus!
