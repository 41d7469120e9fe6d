//! The Anthropic messages protocol: its request and response shapes, and how
//! they are read from and written to JSON.

use crate::json::{ArrayBuilder, Json, JsonValue, ObjectBuilder};
use crate::protocol::fields::{
    opt_json_view, opt_text_view, optional_bool, optional_i32, optional_number, optional_text,
    read_optional_bool, read_optional_i32, read_optional_number, read_optional_text,
    read_required_i32, read_text_or, required_i32, text_or,
};
use crate::text::same_text;
use vstd::prelude::*;

verus! {

/// Where the bytes of an image come from.
#[derive(Debug)]
pub struct ImageSource {
    pub source_type: String,
    pub media_type: String,
    pub data: String,
}

pub struct ImageSourceView {
    pub source_type: Seq<char>,
    pub media_type: Seq<char>,
    pub data: Seq<char>,
}

impl View for ImageSource {
    type V = ImageSourceView;

    open spec fn view(&self) -> ImageSourceView {
        ImageSourceView {
            source_type: self.source_type@,
            media_type: self.media_type@,
            data: self.data@,
        }
    }
}

/// One block of a message's content.
#[derive(Debug)]
pub enum ContentBlock {
    Text { text: String },
    Image { source: ImageSource },
}

pub enum ContentBlockView {
    Text { text: Seq<char> },
    Image { source: ImageSourceView },
}

impl View for ContentBlock {
    type V = ContentBlockView;

    open spec fn view(&self) -> ContentBlockView {
        match self {
            ContentBlock::Text { text } => ContentBlockView::Text { text: text@ },
            ContentBlock::Image { source } => ContentBlockView::Image { source: source@ },
        }
    }
}

/// The values of a list of blocks.
pub open spec fn blocks_view(v: Seq<ContentBlock>) -> Seq<ContentBlockView> {
    Seq::new(v.len(), |i: int| v[i]@)
}

/// The content of a message: plain text, or a list of blocks.
#[derive(Debug)]
pub enum MessageContent {
    Text(String),
    Array(Vec<ContentBlock>),
}

pub enum MessageContentView {
    Text(Seq<char>),
    Array(Seq<ContentBlockView>),
}

impl View for MessageContent {
    type V = MessageContentView;

    open spec fn view(&self) -> MessageContentView {
        match self {
            MessageContent::Text(s) => MessageContentView::Text(s@),
            MessageContent::Array(v) => MessageContentView::Array(blocks_view(v@)),
        }
    }
}

/// One turn of the conversation.
#[derive(Debug)]
pub struct Message {
    pub role: String,
    pub content: MessageContent,
}

pub struct MessageView {
    pub role: Seq<char>,
    pub content: MessageContentView,
}

impl View for Message {
    type V = MessageView;

    open spec fn view(&self) -> MessageView {
        MessageView { role: self.role@, content: self.content@ }
    }
}

/// The values of a list of messages.
pub open spec fn messages_view(v: Seq<Message>) -> Seq<MessageView> {
    Seq::new(v.len(), |i: int| v[i]@)
}

/// Token counts of a response.
#[derive(Debug, Clone, Copy, PartialEq, Eq, Structural)]
pub struct Usage {
    pub input_tokens: i32,
    pub output_tokens: i32,
}

/// A messages request.  `temperature` and `top_p` are JSON numbers, kept as
/// they were written.  `extra` holds further members to write out with the
/// request.
#[derive(Debug)]
pub struct AnthropicRequest {
    pub model: String,
    pub messages: Vec<Message>,
    pub max_tokens: i32,
    pub temperature: Option<Json>,
    pub top_p: Option<Json>,
    pub top_k: Option<i32>,
    pub stream: Option<bool>,
    pub system: Option<String>,
    pub extra: Json,
}

pub struct AnthropicRequestView {
    pub model: Seq<char>,
    pub messages: Seq<MessageView>,
    pub max_tokens: i32,
    pub temperature: Option<JsonValue>,
    pub top_p: Option<JsonValue>,
    pub top_k: Option<i32>,
    pub stream: Option<bool>,
    pub system: Option<Seq<char>>,
    pub extra: JsonValue,
}

impl View for AnthropicRequest {
    type V = AnthropicRequestView;

    open spec fn view(&self) -> AnthropicRequestView {
        AnthropicRequestView {
            model: self.model@,
            messages: messages_view(self.messages@),
            max_tokens: self.max_tokens,
            temperature: opt_json_view(self.temperature),
            top_p: opt_json_view(self.top_p),
            top_k: self.top_k,
            stream: self.stream,
            system: opt_text_view(self.system),
            extra: self.extra@,
        }
    }
}

/// A messages response.
#[derive(Debug)]
pub struct AnthropicResponse {
    pub id: String,
    pub response_type: String,
    pub role: String,
    pub content: Vec<ContentBlock>,
    pub model: String,
    pub stop_reason: Option<String>,
    pub stop_sequence: Option<String>,
    pub usage: Usage,
}

pub struct AnthropicResponseView {
    pub id: Seq<char>,
    pub response_type: Seq<char>,
    pub role: Seq<char>,
    pub content: Seq<ContentBlockView>,
    pub model: Seq<char>,
    pub stop_reason: Option<Seq<char>>,
    pub stop_sequence: Option<Seq<char>>,
    pub usage: Usage,
}

impl View for AnthropicResponse {
    type V = AnthropicResponseView;

    open spec fn view(&self) -> AnthropicResponseView {
        AnthropicResponseView {
            id: self.id@,
            response_type: self.response_type@,
            role: self.role@,
            content: blocks_view(self.content@),
            model: self.model@,
            stop_reason: opt_text_view(self.stop_reason),
            stop_sequence: opt_text_view(self.stop_sequence),
            usage: self.usage,
        }
    }
}

/// An event of a messages stream: its type and the document it came in.
#[derive(Debug)]
pub struct AnthropicStreamEvent {
    pub event_type: String,
    pub data: Json,
}

/// The text delta of a `content_block_delta` event.
#[derive(Debug)]
pub struct Delta {
    pub delta_type: String,
    pub text: String,
}

/// A `content_block_delta` event.
#[derive(Debug)]
pub struct ContentBlockDelta {
    pub delta_type: String,
    pub index: i32,
    pub delta: Delta,
}

/// Reads an image source: an object with the strings `type`, `media_type`
/// and `data`.
pub open spec fn decode_source(j: JsonValue) -> Option<ImageSourceView> {
    match (
        j.member("type"@).as_str(),
        j.member("media_type"@).as_str(),
        j.member("data"@).as_str(),
    ) {
        (Some(source_type), Some(media_type), Some(data)) => Some(
            ImageSourceView { source_type, media_type, data },
        ),
        _ => None,
    }
}

/// Reads a block: `{"type":"text","text":..}` or
/// `{"type":"image","source":..}`.
pub open spec fn decode_block(j: JsonValue) -> Option<ContentBlockView> {
    let kind = j.member("type"@).as_str();
    if kind == Some("text"@) {
        match j.member("text"@).as_str() {
            Some(text) => Some(ContentBlockView::Text { text }),
            None => None,
        }
    } else if kind == Some("image"@) {
        match decode_source(j.member("source"@)) {
            Some(source) => Some(ContentBlockView::Image { source }),
            None => None,
        }
    } else {
        None
    }
}

/// Reads a list of blocks; one bad block spoils the list.
pub open spec fn decode_blocks(j: JsonValue) -> Option<Seq<ContentBlockView>> {
    match j {
        JsonValue::Arr(items) => if forall|i: int|
            0 <= i < items.len() ==> (#[trigger] decode_block(items[i])) is Some {
            Some(Seq::new(items.len(), |i: int| decode_block(items[i])->0))
        } else {
            None
        },
        _ => None,
    }
}

/// Reads a message's content: a string, or a list of blocks.
pub open spec fn decode_content(j: JsonValue) -> Option<MessageContentView> {
    match j {
        JsonValue::Str(s) => Some(MessageContentView::Text(s)),
        _ => match decode_blocks(j) {
            Some(blocks) => Some(MessageContentView::Array(blocks)),
            None => None,
        },
    }
}

/// Reads a message: an object with a string `role` and a `content`.
pub open spec fn decode_message(j: JsonValue) -> Option<MessageView> {
    match (j.member("role"@).as_str(), decode_content(j.member("content"@))) {
        (Some(role), Some(content)) => Some(MessageView { role, content }),
        _ => None,
    }
}

/// Reads a list of messages; one bad message spoils the list.
pub open spec fn decode_messages(j: JsonValue) -> Option<Seq<MessageView>> {
    match j {
        JsonValue::Arr(items) => if forall|i: int|
            0 <= i < items.len() ==> (#[trigger] decode_message(items[i])) is Some {
            Some(Seq::new(items.len(), |i: int| decode_message(items[i])->0))
        } else {
            None
        },
        _ => None,
    }
}

/// Reads the token counts of a response.
pub open spec fn decode_usage(j: JsonValue) -> Option<Usage> {
    match (required_i32(j, "input_tokens"@), required_i32(j, "output_tokens"@)) {
        (Some(input_tokens), Some(output_tokens)) => Some(Usage { input_tokens, output_tokens }),
        _ => None,
    }
}

/// Reads a request.  `model`, `messages` and `max_tokens` are required;
/// the other members may be absent.  Members that the request type does not
/// name are kept in `extra`.
pub open spec fn decode_request(j: JsonValue) -> Option<AnthropicRequestView> {
    match (
        j.member("model"@).as_str(),
        decode_messages(j.member("messages"@)),
        required_i32(j, "max_tokens"@),
        optional_number(j, "temperature"@),
        optional_number(j, "top_p"@),
        optional_i32(j, "top_k"@),
        optional_bool(j, "stream"@),
        optional_text(j, "system"@),
    ) {
        (
            Some(model),
            Some(messages),
            Some(max_tokens),
            Some(temperature),
            Some(top_p),
            Some(top_k),
            Some(stream),
            Some(system),
        ) => Some(
            AnthropicRequestView {
                model,
                messages,
                max_tokens,
                temperature,
                top_p,
                top_k,
                stream,
                system,
                extra: crate::protocol::fields::further_members(
                    crate::protocol::fields::RequestShape::Anthropic,
                    j,
                ),
            },
        ),
        _ => None,
    }
}

/// Reads a response.  `id`, `content`, `model` and `usage` are required;
/// `type` and `role` default to `message` and `assistant`.
pub open spec fn decode_response(j: JsonValue) -> Option<AnthropicResponseView> {
    match (
        j.member("id"@).as_str(),
        text_or(j, "type"@, "message"@),
        text_or(j, "role"@, "assistant"@),
        decode_blocks(j.member("content"@)),
        j.member("model"@).as_str(),
        optional_text(j, "stop_reason"@),
        optional_text(j, "stop_sequence"@),
        decode_usage(j.member("usage"@)),
    ) {
        (
            Some(id),
            Some(response_type),
            Some(role),
            Some(content),
            Some(model),
            Some(stop_reason),
            Some(stop_sequence),
            Some(usage),
        ) => Some(
            AnthropicResponseView {
                id,
                response_type,
                role,
                content,
                model,
                stop_reason,
                stop_sequence,
                usage,
            },
        ),
        _ => None,
    }
}

/// Writes a block.
pub open spec fn encode_block(b: ContentBlockView) -> JsonValue {
    match b {
        ContentBlockView::Text { text } => JsonValue::Obj(
            Seq::empty().push(("type"@, JsonValue::Str("text"@))).push(
                ("text"@, JsonValue::Str(text)),
            ),
        ),
        ContentBlockView::Image { source } => JsonValue::Obj(
            Seq::empty().push(("type"@, JsonValue::Str("image"@))).push(
                (
                    "source"@,
                    JsonValue::Obj(
                        Seq::empty().push(("type"@, JsonValue::Str(source.source_type))).push(
                            ("media_type"@, JsonValue::Str(source.media_type)),
                        ).push(("data"@, JsonValue::Str(source.data))),
                    ),
                ),
            ),
        ),
    }
}

/// Writes a list of blocks.
pub open spec fn encode_blocks(blocks: Seq<ContentBlockView>) -> JsonValue {
    JsonValue::Arr(Seq::new(blocks.len(), |i: int| encode_block(blocks[i])))
}

/// Writes a message.
pub open spec fn encode_message(m: MessageView) -> JsonValue {
    JsonValue::Obj(
        Seq::empty().push(("role"@, JsonValue::Str(m.role))).push(
            (
                "content"@,
                match m.content {
                    MessageContentView::Text(s) => JsonValue::Str(s),
                    MessageContentView::Array(blocks) => encode_blocks(blocks),
                },
            ),
        ),
    )
}

/// Writes a list of messages.
pub open spec fn encode_messages(messages: Seq<MessageView>) -> JsonValue {
    JsonValue::Arr(Seq::new(messages.len(), |i: int| encode_message(messages[i])))
}

/// `members` with `(key, value)` appended where there is a value.
pub open spec fn push_some(
    members: Seq<(Seq<char>, JsonValue)>,
    key: Seq<char>,
    value: Option<JsonValue>,
) -> Seq<(Seq<char>, JsonValue)> {
    match value {
        Some(v) => members.push((key, v)),
        None => members,
    }
}

/// The JSON of an optional integer.
pub open spec fn some_int(v: Option<i32>) -> Option<JsonValue> {
    match v {
        Some(n) => Some(JsonValue::Int(n as i64)),
        None => None,
    }
}

/// The JSON of an optional boolean.
pub open spec fn some_bool(v: Option<bool>) -> Option<JsonValue> {
    match v {
        Some(b) => Some(JsonValue::Bool(b)),
        None => None,
    }
}

/// The JSON of an optional string.
pub open spec fn some_text(v: Option<Seq<char>>) -> Option<JsonValue> {
    match v {
        Some(s) => Some(JsonValue::Str(s)),
        None => None,
    }
}

/// The JSON of an optional string, `null` where there is none.
pub open spec fn text_or_null(v: Option<Seq<char>>) -> JsonValue {
    match v {
        Some(s) => JsonValue::Str(s),
        None => JsonValue::Null,
    }
}

/// The members of `extra`, where it is an object.
pub open spec fn extra_members(extra: JsonValue) -> Seq<(Seq<char>, JsonValue)> {
    match extra {
        JsonValue::Obj(members) => members,
        _ => Seq::empty(),
    }
}

/// Writes a request: `model`, `messages`, `max_tokens`, then each optional
/// member that has a value, then the members of `extra`.
pub open spec fn encode_request(r: AnthropicRequestView) -> JsonValue {
    let head = Seq::empty().push(("model"@, JsonValue::Str(r.model))).push(
        ("messages"@, encode_messages(r.messages)),
    ).push(("max_tokens"@, JsonValue::Int(r.max_tokens as i64)));
    let a = push_some(head, "temperature"@, r.temperature);
    let b = push_some(a, "top_p"@, r.top_p);
    let c = push_some(b, "top_k"@, some_int(r.top_k));
    let d = push_some(c, "stream"@, some_bool(r.stream));
    let e = push_some(d, "system"@, some_text(r.system));
    JsonValue::Obj(e + extra_members(r.extra))
}

/// Writes the token counts of a response.
pub open spec fn encode_usage(u: Usage) -> JsonValue {
    JsonValue::Obj(
        Seq::empty().push(("input_tokens"@, JsonValue::Int(u.input_tokens as i64))).push(
            ("output_tokens"@, JsonValue::Int(u.output_tokens as i64)),
        ),
    )
}

/// Writes a response.
pub open spec fn encode_response(r: AnthropicResponseView) -> JsonValue {
    JsonValue::Obj(
        Seq::empty().push(("id"@, JsonValue::Str(r.id))).push(
            ("type"@, JsonValue::Str(r.response_type)),
        ).push(("role"@, JsonValue::Str(r.role))).push(("content"@, encode_blocks(r.content))).push(
            ("model"@, JsonValue::Str(r.model)),
        ).push(("stop_reason"@, text_or_null(r.stop_reason))).push(
            ("stop_sequence"@, text_or_null(r.stop_sequence)),
        ).push(("usage"@, encode_usage(r.usage))),
    )
}

fn kind_is(j: &Json, name: &str) -> (r: bool)
    ensures
        r == (j@.member("type"@).as_str() == Some(name@)),
{
    match j.get_str("type") {
        Some(s) => same_text(s.as_str(), name),
        None => false,
    }
}

/// The member under `key`, or `Null`.
pub fn member_of<'a>(j: &'a Json, key: &str, null: &'a Json) -> (r: &'a Json)
    requires
        null@ == JsonValue::Null,
    ensures
        r@ == j@.member(key@),
{
    match j.get(key) {
        Some(m) => m,
        None => null,
    }
}

impl ImageSource {
    pub fn from_json(j: &Json) -> (r: Option<ImageSource>)
        ensures
            match r {
                Some(s) => decode_source(j@) == Some(s@),
                None => decode_source(j@) is None,
            },
    {
        match (j.get_str("type"), j.get_str("media_type"), j.get_str("data")) {
            (Some(source_type), Some(media_type), Some(data)) => Some(
                ImageSource {
                    source_type: source_type.clone(),
                    media_type: media_type.clone(),
                    data: data.clone(),
                },
            ),
            _ => None,
        }
    }

    pub fn to_json(&self) -> (r: Json)
        ensures
            r@ == JsonValue::Obj(
                Seq::empty().push(("type"@, JsonValue::Str(self@.source_type))).push(
                    ("media_type"@, JsonValue::Str(self@.media_type)),
                ).push(("data"@, JsonValue::Str(self@.data))),
            ),
    {
        let mut o = ObjectBuilder::new();
        o.put("type", Json::Str(self.source_type.clone()));
        o.put("media_type", Json::Str(self.media_type.clone()));
        o.put("data", Json::Str(self.data.clone()));
        o.build()
    }
}

impl ContentBlock {
    pub fn from_json(j: &Json) -> (r: Option<ContentBlock>)
        ensures
            match r {
                Some(b) => decode_block(j@) == Some(b@),
                None => decode_block(j@) is None,
            },
    {
        if kind_is(j, "text") {
            match j.get_str("text") {
                Some(text) => Some(ContentBlock::Text { text: text.clone() }),
                None => None,
            }
        } else if kind_is(j, "image") {
            let null = Json::Null;
            match ImageSource::from_json(member_of(j, "source", &null)) {
                Some(source) => Some(ContentBlock::Image { source }),
                None => None,
            }
        } else {
            None
        }
    }

    pub fn to_json(&self) -> (r: Json)
        ensures
            r@ == encode_block(self@),
    {
        let mut o = ObjectBuilder::new();
        match self {
            ContentBlock::Text { text } => {
                o.put("type", Json::text("text"));
                o.put("text", Json::Str(text.clone()));
            },
            ContentBlock::Image { source } => {
                o.put("type", Json::text("image"));
                o.put("source", source.to_json());
            },
        }
        o.build()
    }
}

/// Reads a list of blocks.
pub fn blocks_from_json(j: &Json) -> (r: Option<Vec<ContentBlock>>)
    ensures
        match r {
            Some(v) => decode_blocks(j@) == Some(blocks_view(v@)),
            None => decode_blocks(j@) is None,
        },
{
    match j {
        Json::Arr(items) => {
            proof {
                Json::lemma_arr_view(*items);
            }
            let ghost values = crate::json::items_view(items@);
            let mut out: Vec<ContentBlock> = Vec::new();
            let mut i: usize = 0;
            while i < items.len()
                invariant
                    i <= items.len(),
                    values == crate::json::items_view(items@),
                    j@ == JsonValue::Arr(values),
                    out.len() == i,
                    forall|k: int|
                        0 <= k < i ==> (#[trigger] decode_block(values[k])) == Some(out@[k]@),
                decreases items.len() - i,
            {
                match ContentBlock::from_json(&items[i]) {
                    Some(b) => {
                        out.push(b);
                    },
                    None => {
                        assert(decode_block(values[i as int]) is None);
                        return None;
                    },
                }
                i += 1;
            }
            assert(blocks_view(out@) =~= Seq::new(
                values.len(),
                |i: int| decode_block(values[i])->0,
            ));
            Some(out)
        },
        _ => None,
    }
}

/// Writes a list of blocks.
pub fn blocks_to_json(blocks: &Vec<ContentBlock>) -> (r: Json)
    ensures
        r@ == encode_blocks(blocks_view(blocks@)),
{
    let mut a = ArrayBuilder::new();
    let mut i: usize = 0;
    let ghost all = encode_blocks(blocks_view(blocks@))->Arr_0;
    assert(all.take(0) =~= Seq::empty());
    while i < blocks.len()
        invariant
            i <= blocks.len(),
            all == encode_blocks(blocks_view(blocks@))->Arr_0,
            a.view() == all.take(i as int),
        decreases blocks.len() - i,
    {
        a.put(blocks[i].to_json());
        assert(all.take(i + 1) =~= all.take(i as int).push(encode_block(blocks@[i as int]@)));
        i += 1;
    }
    assert(all.take(blocks.len() as int) =~= all);
    a.build()
}

impl MessageContent {
    pub fn from_json(j: &Json) -> (r: Option<MessageContent>)
        ensures
            match r {
                Some(c) => decode_content(j@) == Some(c@),
                None => decode_content(j@) is None,
            },
    {
        match j {
            Json::Str(s) => Some(MessageContent::Text(s.clone())),
            _ => match blocks_from_json(j) {
                Some(blocks) => Some(MessageContent::Array(blocks)),
                None => None,
            },
        }
    }

    pub fn to_json(&self) -> (r: Json)
        ensures
            r@ == (match self@ {
                MessageContentView::Text(s) => JsonValue::Str(s),
                MessageContentView::Array(blocks) => encode_blocks(blocks),
            }),
    {
        match self {
            MessageContent::Text(s) => Json::Str(s.clone()),
            MessageContent::Array(blocks) => blocks_to_json(blocks),
        }
    }
}

impl Message {
    pub fn from_json(j: &Json) -> (r: Option<Message>)
        ensures
            match r {
                Some(m) => decode_message(j@) == Some(m@),
                None => decode_message(j@) is None,
            },
    {
        let null = Json::Null;
        match (j.get_str("role"), MessageContent::from_json(member_of(j, "content", &null))) {
            (Some(role), Some(content)) => Some(Message { role: role.clone(), content }),
            _ => None,
        }
    }

    pub fn to_json(&self) -> (r: Json)
        ensures
            r@ == encode_message(self@),
    {
        let mut o = ObjectBuilder::new();
        o.put("role", Json::Str(self.role.clone()));
        o.put("content", self.content.to_json());
        o.build()
    }
}

/// Reads a list of messages.
pub fn messages_from_json(j: &Json) -> (r: Option<Vec<Message>>)
    ensures
        match r {
            Some(v) => decode_messages(j@) == Some(messages_view(v@)),
            None => decode_messages(j@) is None,
        },
{
    match j {
        Json::Arr(items) => {
            proof {
                Json::lemma_arr_view(*items);
            }
            let ghost values = crate::json::items_view(items@);
            let mut out: Vec<Message> = Vec::new();
            let mut i: usize = 0;
            while i < items.len()
                invariant
                    i <= items.len(),
                    values == crate::json::items_view(items@),
                    j@ == JsonValue::Arr(values),
                    out.len() == i,
                    forall|k: int|
                        0 <= k < i ==> (#[trigger] decode_message(values[k])) == Some(out@[k]@),
                decreases items.len() - i,
            {
                match Message::from_json(&items[i]) {
                    Some(m) => {
                        out.push(m);
                    },
                    None => {
                        assert(decode_message(values[i as int]) is None);
                        return None;
                    },
                }
                i += 1;
            }
            assert(messages_view(out@) =~= Seq::new(
                values.len(),
                |i: int| decode_message(values[i])->0,
            ));
            Some(out)
        },
        _ => None,
    }
}

/// Writes a list of messages.
pub fn messages_to_json(messages: &Vec<Message>) -> (r: Json)
    ensures
        r@ == encode_messages(messages_view(messages@)),
{
    let mut a = ArrayBuilder::new();
    let mut i: usize = 0;
    let ghost all = encode_messages(messages_view(messages@))->Arr_0;
    assert(all.take(0) =~= Seq::empty());
    while i < messages.len()
        invariant
            i <= messages.len(),
            all == encode_messages(messages_view(messages@))->Arr_0,
            a.view() == all.take(i as int),
        decreases messages.len() - i,
    {
        a.put(messages[i].to_json());
        assert(all.take(i + 1) =~= all.take(i as int).push(encode_message(messages@[i as int]@)));
        i += 1;
    }
    assert(all.take(messages.len() as int) =~= all);
    a.build()
}

impl Usage {
    pub fn from_json(j: &Json) -> (r: Option<Usage>)
        ensures
            r == decode_usage(j@),
    {
        match (read_required_i32(j, "input_tokens"), read_required_i32(j, "output_tokens")) {
            (Some(input_tokens), Some(output_tokens)) => Some(
                Usage { input_tokens, output_tokens },
            ),
            _ => None,
        }
    }

    pub fn to_json(&self) -> (r: Json)
        ensures
            r@ == encode_usage(*self),
    {
        let mut o = ObjectBuilder::new();
        o.put("input_tokens", Json::Int(self.input_tokens as i64));
        o.put("output_tokens", Json::Int(self.output_tokens as i64));
        o.build()
    }
}

/// Appends `(key, value)` where there is a value.
pub fn put_some(o: &mut ObjectBuilder, key: &str, value: Option<Json>)
    ensures
        final(o).view() == push_some(old(o).view(), key@, opt_json_view(value)),
{
    match value {
        Some(v) => {
            o.put(key, v);
        },
        None => {},
    }
}

/// A copy of an optional tree.
pub fn clone_some(value: &Option<Json>) -> (r: Option<Json>)
    ensures
        opt_json_view(r) == opt_json_view(*value),
{
    match value {
        Some(v) => Some(v.clone()),
        None => None,
    }
}

/// The JSON of an optional string, `null` where there is none.
pub fn text_or_null_json(value: &Option<String>) -> (r: Json)
    ensures
        r@ == text_or_null(opt_text_view(*value)),
{
    match value {
        Some(s) => Json::Str(s.clone()),
        None => Json::Null,
    }
}

impl AnthropicRequest {
    /// Reads a request from its JSON document.
    pub fn from_json(j: &Json) -> (r: Option<AnthropicRequest>)
        ensures
            match r {
                Some(req) => decode_request(j@) == Some(req@),
                None => decode_request(j@) is None,
            },
    {
        let null = Json::Null;
        let model = match j.get_str("model") {
            Some(s) => s.clone(),
            None => {
                return None;
            },
        };
        let messages = match messages_from_json(member_of(j, "messages", &null)) {
            Some(m) => m,
            None => {
                return None;
            },
        };
        let max_tokens = match read_required_i32(j, "max_tokens") {
            Some(n) => n,
            None => {
                return None;
            },
        };
        let temperature = match read_optional_number(j, "temperature") {
            Some(v) => v,
            None => {
                return None;
            },
        };
        let top_p = match read_optional_number(j, "top_p") {
            Some(v) => v,
            None => {
                return None;
            },
        };
        let top_k = match read_optional_i32(j, "top_k") {
            Some(v) => v,
            None => {
                return None;
            },
        };
        let stream = match read_optional_bool(j, "stream") {
            Some(v) => v,
            None => {
                return None;
            },
        };
        let system = match read_optional_text(j, "system") {
            Some(v) => v,
            None => {
                return None;
            },
        };
        Some(
            AnthropicRequest {
                model,
                messages,
                max_tokens,
                temperature,
                top_p,
                top_k,
                stream,
                system,
                extra: crate::protocol::fields::read_further_members(
                    crate::protocol::fields::RequestShape::Anthropic,
                    j,
                ),
            },
        )
    }

    /// Writes the request as a JSON document.
    pub fn to_json(&self) -> (r: Json)
        ensures
            r@ == encode_request(self@),
    {
        let mut o = ObjectBuilder::new();
        o.put("model", Json::Str(self.model.clone()));
        o.put("messages", messages_to_json(&self.messages));
        o.put("max_tokens", Json::Int(self.max_tokens as i64));
        put_some(&mut o, "temperature", clone_some(&self.temperature));
        put_some(&mut o, "top_p", clone_some(&self.top_p));
        put_some(
            &mut o,
            "top_k",
            match self.top_k {
                Some(n) => Some(Json::Int(n as i64)),
                None => None,
            },
        );
        put_some(
            &mut o,
            "stream",
            match self.stream {
                Some(b) => Some(Json::Bool(b)),
                None => None,
            },
        );
        put_some(
            &mut o,
            "system",
            match &self.system {
                Some(s) => Some(Json::Str(s.clone())),
                None => None,
            },
        );
        match &self.extra {
            Json::Obj(members) => {
                proof {
                    Json::lemma_obj_view(*members);
                }
                let ghost head = o.view();
                let ghost tail = crate::json::members_view(members@);
                let mut i: usize = 0;
                assert(head + tail.take(0) =~= head);
                while i < members.len()
                    invariant
                        i <= members.len(),
                        tail == crate::json::members_view(members@),
                        o.view() == head + tail.take(i as int),
                    decreases members.len() - i,
                {
                    o.put(members[i].0.as_str(), members[i].1.clone());
                    assert(head + tail.take(i + 1) =~= (head + tail.take(i as int)).push(
                        tail[i as int],
                    ));
                    i += 1;
                }
                assert(tail.take(members.len() as int) =~= tail);
            },
            _ => {
                assert(o.view() + Seq::empty() =~= o.view());
            },
        }
        o.build()
    }
}

impl AnthropicResponse {
    /// Reads a response from its JSON document.
    pub fn from_json(j: &Json) -> (r: Option<AnthropicResponse>)
        ensures
            match r {
                Some(resp) => decode_response(j@) == Some(resp@),
                None => decode_response(j@) is None,
            },
    {
        let null = Json::Null;
        let id = match j.get_str("id") {
            Some(s) => s.clone(),
            None => {
                return None;
            },
        };
        let response_type = match read_text_or(j, "type", "message") {
            Some(s) => s,
            None => {
                return None;
            },
        };
        let role = match read_text_or(j, "role", "assistant") {
            Some(s) => s,
            None => {
                return None;
            },
        };
        let content = match blocks_from_json(member_of(j, "content", &null)) {
            Some(c) => c,
            None => {
                return None;
            },
        };
        let model = match j.get_str("model") {
            Some(s) => s.clone(),
            None => {
                return None;
            },
        };
        let stop_reason = match read_optional_text(j, "stop_reason") {
            Some(v) => v,
            None => {
                return None;
            },
        };
        let stop_sequence = match read_optional_text(j, "stop_sequence") {
            Some(v) => v,
            None => {
                return None;
            },
        };
        let usage = match Usage::from_json(member_of(j, "usage", &null)) {
            Some(u) => u,
            None => {
                return None;
            },
        };
        Some(
            AnthropicResponse {
                id,
                response_type,
                role,
                content,
                model,
                stop_reason,
                stop_sequence,
                usage,
            },
        )
    }

    /// Writes the response as a JSON document.
    pub fn to_json(&self) -> (r: Json)
        ensures
            r@ == encode_response(self@),
    {
        let mut o = ObjectBuilder::new();
        o.put("id", Json::Str(self.id.clone()));
        o.put("type", Json::Str(self.response_type.clone()));
        o.put("role", Json::Str(self.role.clone()));
        o.put("content", blocks_to_json(&self.content));
        o.put("model", Json::Str(self.model.clone()));
        o.put("stop_reason", text_or_null_json(&self.stop_reason));
        o.put("stop_sequence", text_or_null_json(&self.stop_sequence));
        o.put("usage", self.usage.to_json());
        o.build()
    }
}

} // verus!
