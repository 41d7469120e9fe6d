//! The OpenAI chat-completions protocol: its request and response shapes,
//! and how they are read from and written to JSON.

use crate::json::{ArrayBuilder, Json, JsonValue, ObjectBuilder};
use crate::protocol::anthropic::{
    clone_some, member_of, push_some, put_some, some_bool, some_int, text_or_null,
    text_or_null_json, extra_members,
};
use crate::protocol::fields::{
    opt_json_view, opt_text_view, optional_bool, optional_i32, optional_number, optional_text,
    read_optional_bool, read_optional_i32, read_optional_number, read_optional_text,
    read_required_i32, read_text_or, required_i32, text_or,
};
use vstd::prelude::*;

verus! {

/// The content of a message: plain text, or a list of parts kept as the
/// JSON array it was written as.
#[derive(Debug)]
pub enum MessageContent {
    Text(String),
    Parts(Json),
}

pub enum MessageContentView {
    Text(Seq<char>),
    Parts(JsonValue),
}

impl View for MessageContent {
    type V = MessageContentView;

    open spec fn view(&self) -> MessageContentView {
        match self {
            MessageContent::Text(s) => MessageContentView::Text(s@),
            MessageContent::Parts(j) => MessageContentView::Parts(j@),
        }
    }
}

/// One turn of the conversation.
#[derive(Debug)]
pub struct Message {
    pub role: String,
    pub content: MessageContent,
}

pub struct MessageView {
    pub role: Seq<char>,
    pub content: MessageContentView,
}

impl View for Message {
    type V = MessageView;

    open spec fn view(&self) -> MessageView {
        MessageView { role: self.role@, content: self.content@ }
    }
}

/// The values of a list of messages.
pub open spec fn messages_view(v: Seq<Message>) -> Seq<MessageView> {
    Seq::new(v.len(), |i: int| v[i]@)
}

/// A chat-completions request.  The sampling parameters are JSON numbers,
/// kept as they were written.  `extra` holds further members to write out
/// with the request.
#[derive(Debug)]
pub struct OpenAIRequest {
    pub model: String,
    pub messages: Vec<Message>,
    pub max_tokens: Option<i32>,
    pub temperature: Option<Json>,
    pub top_p: Option<Json>,
    pub stream: Option<bool>,
    pub frequency_penalty: Option<Json>,
    pub presence_penalty: Option<Json>,
    pub extra: Json,
}

pub struct OpenAIRequestView {
    pub model: Seq<char>,
    pub messages: Seq<MessageView>,
    pub max_tokens: Option<i32>,
    pub temperature: Option<JsonValue>,
    pub top_p: Option<JsonValue>,
    pub stream: Option<bool>,
    pub frequency_penalty: Option<JsonValue>,
    pub presence_penalty: Option<JsonValue>,
    pub extra: JsonValue,
}

impl View for OpenAIRequest {
    type V = OpenAIRequestView;

    open spec fn view(&self) -> OpenAIRequestView {
        OpenAIRequestView {
            model: self.model@,
            messages: messages_view(self.messages@),
            max_tokens: self.max_tokens,
            temperature: opt_json_view(self.temperature),
            top_p: opt_json_view(self.top_p),
            stream: self.stream,
            frequency_penalty: opt_json_view(self.frequency_penalty),
            presence_penalty: opt_json_view(self.presence_penalty),
            extra: self.extra@,
        }
    }
}

/// Token counts of a response.
#[derive(Debug, Clone, Copy, PartialEq, Eq, Structural)]
pub struct Usage {
    pub prompt_tokens: i32,
    pub completion_tokens: i32,
    pub total_tokens: i32,
}

/// One answer of a response.
#[derive(Debug)]
pub struct Choice {
    pub index: i32,
    pub message: Message,
    pub finish_reason: Option<String>,
}

pub struct ChoiceView {
    pub index: i32,
    pub message: MessageView,
    pub finish_reason: Option<Seq<char>>,
}

impl View for Choice {
    type V = ChoiceView;

    open spec fn view(&self) -> ChoiceView {
        ChoiceView {
            index: self.index,
            message: self.message@,
            finish_reason: opt_text_view(self.finish_reason),
        }
    }
}

/// The values of a list of choices.
pub open spec fn choices_view(v: Seq<Choice>) -> Seq<ChoiceView> {
    Seq::new(v.len(), |i: int| v[i]@)
}

/// A chat-completions response.
#[derive(Debug)]
pub struct OpenAIResponse {
    pub id: String,
    pub object: String,
    pub created: i64,
    pub model: String,
    pub choices: Vec<Choice>,
    pub usage: Usage,
}

pub struct OpenAIResponseView {
    pub id: Seq<char>,
    pub object: Seq<char>,
    pub created: i64,
    pub model: Seq<char>,
    pub choices: Seq<ChoiceView>,
    pub usage: Usage,
}

impl View for OpenAIResponse {
    type V = OpenAIResponseView;

    open spec fn view(&self) -> OpenAIResponseView {
        OpenAIResponseView {
            id: self.id@,
            object: self.object@,
            created: self.created,
            model: self.model@,
            choices: choices_view(self.choices@),
            usage: self.usage,
        }
    }
}

/// Reads a message's content: a string, or an array of parts.
pub open spec fn decode_content(j: JsonValue) -> Option<MessageContentView> {
    match j {
        JsonValue::Str(s) => Some(MessageContentView::Text(s)),
        JsonValue::Arr(_) => Some(MessageContentView::Parts(j)),
        _ => None,
    }
}

/// Reads a message: an object with a string `role` and a `content`.
pub open spec fn decode_message(j: JsonValue) -> Option<MessageView> {
    match (j.member("role"@).as_str(), decode_content(j.member("content"@))) {
        (Some(role), Some(content)) => Some(MessageView { role, content }),
        _ => None,
    }
}

/// Reads a list of messages; one bad message spoils the list.
pub open spec fn decode_messages(j: JsonValue) -> Option<Seq<MessageView>> {
    match j {
        JsonValue::Arr(items) => if forall|i: int|
            0 <= i < items.len() ==> (#[trigger] decode_message(items[i])) is Some {
            Some(Seq::new(items.len(), |i: int| decode_message(items[i])->0))
        } else {
            None
        },
        _ => None,
    }
}

/// Reads a request.  `model` and `messages` are required; the other
/// members may be absent.  Members that the request type does not name are
/// kept in `extra`.
pub open spec fn decode_request(j: JsonValue) -> Option<OpenAIRequestView> {
    match (
        j.member("model"@).as_str(),
        decode_messages(j.member("messages"@)),
        optional_i32(j, "max_tokens"@),
        optional_number(j, "temperature"@),
        optional_number(j, "top_p"@),
        optional_bool(j, "stream"@),
        optional_number(j, "frequency_penalty"@),
        optional_number(j, "presence_penalty"@),
    ) {
        (
            Some(model),
            Some(messages),
            Some(max_tokens),
            Some(temperature),
            Some(top_p),
            Some(stream),
            Some(frequency_penalty),
            Some(presence_penalty),
        ) => Some(
            OpenAIRequestView {
                model,
                messages,
                max_tokens,
                temperature,
                top_p,
                stream,
                frequency_penalty,
                presence_penalty,
                extra: crate::protocol::fields::further_members(
                    crate::protocol::fields::RequestShape::OpenAi,
                    j,
                ),
            },
        ),
        _ => None,
    }
}

/// An optional 32-bit integer under `key`, zero where there is none.
pub open spec fn i32_or_zero(j: JsonValue, key: Seq<char>) -> Option<i32> {
    match optional_i32(j, key) {
        Some(Some(n)) => Some(n),
        Some(None) => Some(0i32),
        None => None,
    }
}

/// An optional 64-bit integer under `key`, zero where there is none.
pub open spec fn i64_or_zero(j: JsonValue, key: Seq<char>) -> Option<i64> {
    match j.member(key) {
        JsonValue::Null => Some(0i64),
        JsonValue::Int(n) => Some(n),
        _ => None,
    }
}

/// Reads the token counts of a response: `prompt_tokens` and
/// `completion_tokens` are required, `total_tokens` is zero where absent.
pub open spec fn decode_usage(j: JsonValue) -> Option<Usage> {
    match (
        required_i32(j, "prompt_tokens"@),
        required_i32(j, "completion_tokens"@),
        i32_or_zero(j, "total_tokens"@),
    ) {
        (Some(prompt_tokens), Some(completion_tokens), Some(total_tokens)) => Some(
            Usage { prompt_tokens, completion_tokens, total_tokens },
        ),
        _ => None,
    }
}

/// Reads a choice: `message` is required, `index` is zero where absent.
pub open spec fn decode_choice(j: JsonValue) -> Option<ChoiceView> {
    match (
        i32_or_zero(j, "index"@),
        decode_message(j.member("message"@)),
        optional_text(j, "finish_reason"@),
    ) {
        (Some(index), Some(message), Some(finish_reason)) => Some(
            ChoiceView { index, message, finish_reason },
        ),
        _ => None,
    }
}

/// Reads a list of choices; one bad choice spoils the list.
pub open spec fn decode_choices(j: JsonValue) -> Option<Seq<ChoiceView>> {
    match j {
        JsonValue::Arr(items) => if forall|i: int|
            0 <= i < items.len() ==> (#[trigger] decode_choice(items[i])) is Some {
            Some(Seq::new(items.len(), |i: int| decode_choice(items[i])->0))
        } else {
            None
        },
        _ => None,
    }
}

/// Reads a response.  `id`, `model`, `choices` and `usage` are required;
/// `object` defaults to `chat.completion` and `created` to zero.
pub open spec fn decode_response(j: JsonValue) -> Option<OpenAIResponseView> {
    match (
        j.member("id"@).as_str(),
        text_or(j, "object"@, "chat.completion"@),
        i64_or_zero(j, "created"@),
        j.member("model"@).as_str(),
        decode_choices(j.member("choices"@)),
        decode_usage(j.member("usage"@)),
    ) {
        (Some(id), Some(object), Some(created), Some(model), Some(choices), Some(usage)) => Some(
            OpenAIResponseView { id, object, created, model, choices, usage },
        ),
        _ => None,
    }
}

/// Writes a message.
pub open spec fn encode_message(m: MessageView) -> JsonValue {
    JsonValue::Obj(
        Seq::empty().push(("role"@, JsonValue::Str(m.role))).push(
            (
                "content"@,
                match m.content {
                    MessageContentView::Text(s) => JsonValue::Str(s),
                    MessageContentView::Parts(j) => j,
                },
            ),
        ),
    )
}

/// Writes a list of messages.
pub open spec fn encode_messages(messages: Seq<MessageView>) -> JsonValue {
    JsonValue::Arr(Seq::new(messages.len(), |i: int| encode_message(messages[i])))
}

/// Writes a request: `model`, `messages`, then each optional member that
/// has a value, then the members of `extra`.
pub open spec fn encode_request(r: OpenAIRequestView) -> JsonValue {
    let head = Seq::empty().push(("model"@, JsonValue::Str(r.model))).push(
        ("messages"@, encode_messages(r.messages)),
    );
    let a = push_some(head, "max_tokens"@, some_int(r.max_tokens));
    let b = push_some(a, "temperature"@, r.temperature);
    let c = push_some(b, "top_p"@, r.top_p);
    let d = push_some(c, "stream"@, some_bool(r.stream));
    let e = push_some(d, "frequency_penalty"@, r.frequency_penalty);
    let f = push_some(e, "presence_penalty"@, r.presence_penalty);
    JsonValue::Obj(f + extra_members(r.extra))
}

/// Writes the token counts of a response.
pub open spec fn encode_usage(u: Usage) -> JsonValue {
    JsonValue::Obj(
        Seq::empty().push(("prompt_tokens"@, JsonValue::Int(u.prompt_tokens as i64))).push(
            ("completion_tokens"@, JsonValue::Int(u.completion_tokens as i64)),
        ).push(("total_tokens"@, JsonValue::Int(u.total_tokens as i64))),
    )
}

/// Writes a choice.
pub open spec fn encode_choice(c: ChoiceView) -> JsonValue {
    JsonValue::Obj(
        Seq::empty().push(("index"@, JsonValue::Int(c.index as i64))).push(
            ("message"@, encode_message(c.message)),
        ).push(("finish_reason"@, text_or_null(c.finish_reason))),
    )
}

/// Writes a list of choices.
pub open spec fn encode_choices(choices: Seq<ChoiceView>) -> JsonValue {
    JsonValue::Arr(Seq::new(choices.len(), |i: int| encode_choice(choices[i])))
}

/// Writes a response.
pub open spec fn encode_response(r: OpenAIResponseView) -> JsonValue {
    JsonValue::Obj(
        Seq::empty().push(("id"@, JsonValue::Str(r.id))).push(
            ("object"@, JsonValue::Str(r.object)),
        ).push(("created"@, JsonValue::Int(r.created))).push(
            ("model"@, JsonValue::Str(r.model)),
        ).push(("choices"@, encode_choices(r.choices))).push(("usage"@, encode_usage(r.usage))),
    )
}

impl MessageContent {
    pub fn from_json(j: &Json) -> (r: Option<MessageContent>)
        ensures
            match r {
                Some(c) => decode_content(j@) == Some(c@),
                None => decode_content(j@) is None,
            },
    {
        match j {
            Json::Str(s) => Some(MessageContent::Text(s.clone())),
            Json::Arr(_) => Some(MessageContent::Parts(j.clone())),
            _ => None,
        }
    }

    pub fn to_json(&self) -> (r: Json)
        ensures
            r@ == (match self@ {
                MessageContentView::Text(s) => JsonValue::Str(s),
                MessageContentView::Parts(j) => j,
            }),
    {
        match self {
            MessageContent::Text(s) => Json::Str(s.clone()),
            MessageContent::Parts(j) => j.clone(),
        }
    }
}

impl Message {
    pub fn from_json(j: &Json) -> (r: Option<Message>)
        ensures
            match r {
                Some(m) => decode_message(j@) == Some(m@),
                None => decode_message(j@) is None,
            },
    {
        let null = Json::Null;
        match (j.get_str("role"), MessageContent::from_json(member_of(j, "content", &null))) {
            (Some(role), Some(content)) => Some(Message { role: role.clone(), content }),
            _ => None,
        }
    }

    pub fn to_json(&self) -> (r: Json)
        ensures
            r@ == encode_message(self@),
    {
        let mut o = ObjectBuilder::new();
        o.put("role", Json::Str(self.role.clone()));
        o.put("content", self.content.to_json());
        o.build()
    }
}

/// Reads a list of messages.
pub fn messages_from_json(j: &Json) -> (r: Option<Vec<Message>>)
    ensures
        match r {
            Some(v) => decode_messages(j@) == Some(messages_view(v@)),
            None => decode_messages(j@) is None,
        },
{
    match j {
        Json::Arr(items) => {
            proof {
                Json::lemma_arr_view(*items);
            }
            let ghost values = crate::json::items_view(items@);
            let mut out: Vec<Message> = Vec::new();
            let mut i: usize = 0;
            while i < items.len()
                invariant
                    i <= items.len(),
                    values == crate::json::items_view(items@),
                    j@ == JsonValue::Arr(values),
                    out.len() == i,
                    forall|k: int|
                        0 <= k < i ==> (#[trigger] decode_message(values[k])) == Some(out@[k]@),
                decreases items.len() - i,
            {
                match Message::from_json(&items[i]) {
                    Some(m) => {
                        out.push(m);
                    },
                    None => {
                        assert(decode_message(values[i as int]) is None);
                        return None;
                    },
                }
                i += 1;
            }
            assert(messages_view(out@) =~= Seq::new(
                values.len(),
                |i: int| decode_message(values[i])->0,
            ));
            Some(out)
        },
        _ => None,
    }
}

/// Writes a list of messages.
pub fn messages_to_json(messages: &Vec<Message>) -> (r: Json)
    ensures
        r@ == encode_messages(messages_view(messages@)),
{
    let mut a = ArrayBuilder::new();
    let mut i: usize = 0;
    let ghost all = encode_messages(messages_view(messages@))->Arr_0;
    assert(all.take(0) =~= Seq::empty());
    while i < messages.len()
        invariant
            i <= messages.len(),
            all == encode_messages(messages_view(messages@))->Arr_0,
            a.view() == all.take(i as int),
        decreases messages.len() - i,
    {
        a.put(messages[i].to_json());
        assert(all.take(i + 1) =~= all.take(i as int).push(encode_message(messages@[i as int]@)));
        i += 1;
    }
    assert(all.take(messages.len() as int) =~= all);
    a.build()
}

fn read_i32_or_zero(j: &Json, key: &str) -> (r: Option<i32>)
    ensures
        r == i32_or_zero(j@, key@),
{
    match read_optional_i32(j, key) {
        Some(Some(n)) => Some(n),
        Some(None) => Some(0),
        None => None,
    }
}

fn read_i64_or_zero(j: &Json, key: &str) -> (r: Option<i64>)
    ensures
        r == i64_or_zero(j@, key@),
{
    match j.get(key) {
        None => Some(0),
        Some(Json::Null) => Some(0),
        Some(Json::Int(n)) => Some(*n),
        Some(_) => None,
    }
}

impl Usage {
    pub fn from_json(j: &Json) -> (r: Option<Usage>)
        ensures
            r == decode_usage(j@),
    {
        match (
            read_required_i32(j, "prompt_tokens"),
            read_required_i32(j, "completion_tokens"),
            read_i32_or_zero(j, "total_tokens"),
        ) {
            (Some(prompt_tokens), Some(completion_tokens), Some(total_tokens)) => Some(
                Usage { prompt_tokens, completion_tokens, total_tokens },
            ),
            _ => None,
        }
    }

    pub fn to_json(&self) -> (r: Json)
        ensures
            r@ == encode_usage(*self),
    {
        let mut o = ObjectBuilder::new();
        o.put("prompt_tokens", Json::Int(self.prompt_tokens as i64));
        o.put("completion_tokens", Json::Int(self.completion_tokens as i64));
        o.put("total_tokens", Json::Int(self.total_tokens as i64));
        o.build()
    }
}

impl Choice {
    pub fn from_json(j: &Json) -> (r: Option<Choice>)
        ensures
            match r {
                Some(c) => decode_choice(j@) == Some(c@),
                None => decode_choice(j@) is None,
            },
    {
        let null = Json::Null;
        let index = match read_i32_or_zero(j, "index") {
            Some(n) => n,
            None => {
                return None;
            },
        };
        let message = match Message::from_json(member_of(j, "message", &null)) {
            Some(m) => m,
            None => {
                return None;
            },
        };
        let finish_reason = match read_optional_text(j, "finish_reason") {
            Some(v) => v,
            None => {
                return None;
            },
        };
        Some(Choice { index, message, finish_reason })
    }

    pub fn to_json(&self) -> (r: Json)
        ensures
            r@ == encode_choice(self@),
    {
        let mut o = ObjectBuilder::new();
        o.put("index", Json::Int(self.index as i64));
        o.put("message", self.message.to_json());
        o.put("finish_reason", text_or_null_json(&self.finish_reason));
        o.build()
    }
}

/// Reads a list of choices.
pub fn choices_from_json(j: &Json) -> (r: Option<Vec<Choice>>)
    ensures
        match r {
            Some(v) => decode_choices(j@) == Some(choices_view(v@)),
            None => decode_choices(j@) is None,
        },
{
    match j {
        Json::Arr(items) => {
            proof {
                Json::lemma_arr_view(*items);
            }
            let ghost values = crate::json::items_view(items@);
            let mut out: Vec<Choice> = Vec::new();
            let mut i: usize = 0;
            while i < items.len()
                invariant
                    i <= items.len(),
                    values == crate::json::items_view(items@),
                    j@ == JsonValue::Arr(values),
                    out.len() == i,
                    forall|k: int|
                        0 <= k < i ==> (#[trigger] decode_choice(values[k])) == Some(out@[k]@),
                decreases items.len() - i,
            {
                match Choice::from_json(&items[i]) {
                    Some(c) => {
                        out.push(c);
                    },
                    None => {
                        assert(decode_choice(values[i as int]) is None);
                        return None;
                    },
                }
                i += 1;
            }
            assert(choices_view(out@) =~= Seq::new(
                values.len(),
                |i: int| decode_choice(values[i])->0,
            ));
            Some(out)
        },
        _ => None,
    }
}

/// Writes a list of choices.
pub fn choices_to_json(choices: &Vec<Choice>) -> (r: Json)
    ensures
        r@ == encode_choices(choices_view(choices@)),
{
    let mut a = ArrayBuilder::new();
    let mut i: usize = 0;
    let ghost all = encode_choices(choices_view(choices@))->Arr_0;
    assert(all.take(0) =~= Seq::empty());
    while i < choices.len()
        invariant
            i <= choices.len(),
            all == encode_choices(choices_view(choices@))->Arr_0,
            a.view() == all.take(i as int),
        decreases choices.len() - i,
    {
        a.put(choices[i].to_json());
        assert(all.take(i + 1) =~= all.take(i as int).push(encode_choice(choices@[i as int]@)));
        i += 1;
    }
    assert(all.take(choices.len() as int) =~= all);
    a.build()
}

impl OpenAIRequest {
    /// Reads a request from its JSON document.
    pub fn from_json(j: &Json) -> (r: Option<OpenAIRequest>)
        ensures
            match r {
                Some(req) => decode_request(j@) == Some(req@),
                None => decode_request(j@) is None,
            },
    {
        let null = Json::Null;
        let model = match j.get_str("model") {
            Some(s) => s.clone(),
            None => {
                return None;
            },
        };
        let messages = match messages_from_json(member_of(j, "messages", &null)) {
            Some(m) => m,
            None => {
                return None;
            },
        };
        let max_tokens = match read_optional_i32(j, "max_tokens") {
            Some(v) => v,
            None => {
                return None;
            },
        };
        let temperature = match read_optional_number(j, "temperature") {
            Some(v) => v,
            None => {
                return None;
            },
        };
        let top_p = match read_optional_number(j, "top_p") {
            Some(v) => v,
            None => {
                return None;
            },
        };
        let stream = match read_optional_bool(j, "stream") {
            Some(v) => v,
            None => {
                return None;
            },
        };
        let frequency_penalty = match read_optional_number(j, "frequency_penalty") {
            Some(v) => v,
            None => {
                return None;
            },
        };
        let presence_penalty = match read_optional_number(j, "presence_penalty") {
            Some(v) => v,
            None => {
                return None;
            },
        };
        Some(
            OpenAIRequest {
                model,
                messages,
                max_tokens,
                temperature,
                top_p,
                stream,
                frequency_penalty,
                presence_penalty,
                extra: crate::protocol::fields::read_further_members(
                    crate::protocol::fields::RequestShape::OpenAi,
                    j,
                ),
            },
        )
    }

    /// Writes the request as a JSON document.
    pub fn to_json(&self) -> (r: Json)
        ensures
            r@ == encode_request(self@),
    {
        let mut o = ObjectBuilder::new();
        o.put("model", Json::Str(self.model.clone()));
        o.put("messages", messages_to_json(&self.messages));
        put_some(
            &mut o,
            "max_tokens",
            match self.max_tokens {
                Some(n) => Some(Json::Int(n as i64)),
                None => None,
            },
        );
        put_some(&mut o, "temperature", clone_some(&self.temperature));
        put_some(&mut o, "top_p", clone_some(&self.top_p));
        put_some(
            &mut o,
            "stream",
            match self.stream {
                Some(b) => Some(Json::Bool(b)),
                None => None,
            },
        );
        put_some(&mut o, "frequency_penalty", clone_some(&self.frequency_penalty));
        put_some(&mut o, "presence_penalty", clone_some(&self.presence_penalty));
        match &self.extra {
            Json::Obj(members) => {
                proof {
                    Json::lemma_obj_view(*members);
                }
                let ghost head = o.view();
                let ghost tail = crate::json::members_view(members@);
                let mut i: usize = 0;
                assert(head + tail.take(0) =~= head);
                while i < members.len()
                    invariant
                        i <= members.len(),
                        tail == crate::json::members_view(members@),
                        o.view() == head + tail.take(i as int),
                    decreases members.len() - i,
                {
                    o.put(members[i].0.as_str(), members[i].1.clone());
                    assert(head + tail.take(i + 1) =~= (head + tail.take(i as int)).push(
                        tail[i as int],
                    ));
                    i += 1;
                }
                assert(tail.take(members.len() as int) =~= tail);
            },
            _ => {
                assert(o.view() + Seq::empty() =~= o.view());
            },
        }
        o.build()
    }
}

impl OpenAIResponse {
    /// Reads a response from its JSON document.
    pub fn from_json(j: &Json) -> (r: Option<OpenAIResponse>)
        ensures
            match r {
                Some(resp) => decode_response(j@) == Some(resp@),
                None => decode_response(j@) is None,
            },
    {
        let null = Json::Null;
        let id = match j.get_str("id") {
            Some(s) => s.clone(),
            None => {
                return None;
            },
        };
        let object = match read_text_or(j, "object", "chat.completion") {
            Some(s) => s,
            None => {
                return None;
            },
        };
        let created = match read_i64_or_zero(j, "created") {
            Some(n) => n,
            None => {
                return None;
            },
        };
        let model = match j.get_str("model") {
            Some(s) => s.clone(),
            None => {
                return None;
            },
        };
        let choices = match choices_from_json(member_of(j, "choices", &null)) {
            Some(c) => c,
            None => {
                return None;
            },
        };
        let usage = match Usage::from_json(member_of(j, "usage", &null)) {
            Some(u) => u,
            None => {
                return None;
            },
        };
        Some(OpenAIResponse { id, object, created, model, choices, usage })
    }

    /// Writes the response as a JSON document.
    pub fn to_json(&self) -> (r: Json)
        ensures
            r@ == encode_response(self@),
    {
        let mut o = ObjectBuilder::new();
        o.put("id", Json::Str(self.id.clone()));
        o.put("object", Json::Str(self.object.clone()));
        o.put("created", Json::Int(self.created));
        o.put("model", Json::Str(self.model.clone()));
        o.put("choices", choices_to_json(&self.choices));
        o.put("usage", self.usage.to_json());
        o.build()
    }
}

} // verus!
