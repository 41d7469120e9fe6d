//! Protocol-agnostic data shapes: protocols, route candidates and the
//! telemetry payloads.

use crate::json::{Json, JsonValue, ObjectBuilder};
use crate::text::same_text;
use vstd::prelude::*;

verus! {

/// The mathematical value of a protocol tag.
pub enum ProtocolView {
    OpenAI,
    Anthropic,
    Custom(Seq<char>),
}

/// Protocol spoken by the inbound client.
#[derive(Debug)]
pub enum ClientProtocol {
    OpenAI,
    Anthropic,
    Custom(String),
}

/// Protocol spoken by an upstream endpoint.
#[derive(Debug)]
pub enum TargetProtocol {
    OpenAI,
    Anthropic,
    Custom(String),
}

impl View for ClientProtocol {
    type V = ProtocolView;

    open spec fn view(&self) -> ProtocolView {
        match self {
            ClientProtocol::OpenAI => ProtocolView::OpenAI,
            ClientProtocol::Anthropic => ProtocolView::Anthropic,
            ClientProtocol::Custom(name) => ProtocolView::Custom(name@),
        }
    }
}

impl View for TargetProtocol {
    type V = ProtocolView;

    open spec fn view(&self) -> ProtocolView {
        match self {
            TargetProtocol::OpenAI => ProtocolView::OpenAI,
            TargetProtocol::Anthropic => ProtocolView::Anthropic,
            TargetProtocol::Custom(name) => ProtocolView::Custom(name@),
        }
    }
}

impl Clone for ClientProtocol {
    fn clone(&self) -> (r: Self)
        ensures
            r == *self,
    {
        match self {
            ClientProtocol::OpenAI => ClientProtocol::OpenAI,
            ClientProtocol::Anthropic => ClientProtocol::Anthropic,
            ClientProtocol::Custom(name) => ClientProtocol::Custom(name.clone()),
        }
    }
}

impl Clone for TargetProtocol {
    fn clone(&self) -> (r: Self)
        ensures
            r == *self,
    {
        match self {
            TargetProtocol::OpenAI => TargetProtocol::OpenAI,
            TargetProtocol::Anthropic => TargetProtocol::Anthropic,
            TargetProtocol::Custom(name) => TargetProtocol::Custom(name.clone()),
        }
    }
}

/// A candidate upstream endpoint.
#[derive(Debug)]
pub struct RouteConfig {
    /// Provider credential.
    pub token: String,
    /// Upstream model identifier.
    pub model: String,
    /// Base URL of the upstream API.
    pub api_endpoint: String,
    pub protocol: TargetProtocol,
    pub model_id: String,
    pub provider_id: String,
    pub provider_token_id: String,
}

/// The mathematical value of a `RouteConfig`.
pub struct RouteConfigView {
    pub token: Seq<char>,
    pub model: Seq<char>,
    pub api_endpoint: Seq<char>,
    pub protocol: ProtocolView,
    pub model_id: Seq<char>,
    pub provider_id: Seq<char>,
    pub provider_token_id: Seq<char>,
}

impl View for RouteConfig {
    type V = RouteConfigView;

    open spec fn view(&self) -> RouteConfigView {
        RouteConfigView {
            token: self.token@,
            model: self.model@,
            api_endpoint: self.api_endpoint@,
            protocol: self.protocol@,
            model_id: self.model_id@,
            provider_id: self.provider_id@,
            provider_token_id: self.provider_token_id@,
        }
    }
}

impl RouteConfigView {
    /// Two candidates name the same upstream when credential and endpoint
    /// agree; the attribution IDs do not count.
    pub open spec fn same_upstream(self, other: RouteConfigView) -> bool {
        self.token == other.token && self.api_endpoint == other.api_endpoint
    }
}

impl Clone for RouteConfig {
    fn clone(&self) -> (r: Self)
        ensures
            r == *self,
    {
        RouteConfig {
            token: self.token.clone(),
            model: self.model.clone(),
            api_endpoint: self.api_endpoint.clone(),
            protocol: self.protocol.clone(),
            model_id: self.model_id.clone(),
            provider_id: self.provider_id.clone(),
            provider_token_id: self.provider_token_id.clone(),
        }
    }
}

impl RouteConfig {
    /// Whether both candidates name the same upstream.
    pub fn same_upstream(&self, other: &RouteConfig) -> (r: bool)
        ensures
            r == self@.same_upstream(other@),
    {
        self.token == other.token && self.api_endpoint == other.api_endpoint
    }
}

/// The values of a list of candidates.
pub open spec fn routes_view(v: Seq<RouteConfig>) -> Seq<RouteConfigView> {
    Seq::new(v.len(), |i: int| v[i]@)
}

/// A copy of a list of candidates.
pub fn clone_routes(v: &Vec<RouteConfig>) -> (r: Vec<RouteConfig>)
    ensures
        r@ == v@,
{
    let mut out: Vec<RouteConfig> = Vec::new();
    let mut i: usize = 0;
    while i < v.len()
        invariant
            i <= v.len(),
            out@ == v@.take(i as int),
        decreases v.len() - i,
    {
        out.push(v[i].clone());
        assert(v@.take(i + 1) =~= v@.take(i as int).push(v@[i as int]));
        i += 1;
    }
    assert(v@.take(v.len() as int) =~= v@);
    out
}

/// Body of a route lookup sent to the business backend.
#[derive(Debug)]
pub struct RouteRequest {
    pub token: String,
    pub model: String,
}

/// Answer of the business backend to a route lookup.
#[derive(Debug)]
pub struct RouteResponse {
    pub code: i32,
    pub success: bool,
    pub message: String,
    pub data: Vec<RouteConfig>,
}

/// A failed upstream attempt, as reported to the business backend.
#[derive(Debug)]
pub struct ErrorEvent {
    pub token: String,
    pub model: String,
    pub api: String,
    pub msg: String,
    pub provider_token_id: Option<String>,
}

/// The mathematical value of an `ErrorEvent`.
pub struct ErrorEventView {
    pub token: Seq<char>,
    pub model: Seq<char>,
    pub api: Seq<char>,
    pub msg: Seq<char>,
    pub provider_token_id: Option<Seq<char>>,
}

impl View for ErrorEvent {
    type V = ErrorEventView;

    open spec fn view(&self) -> ErrorEventView {
        ErrorEventView {
            token: self.token@,
            model: self.model@,
            api: self.api@,
            msg: self.msg@,
            provider_token_id: match self.provider_token_id {
                Some(s) => Some(s@),
                None => None,
            },
        }
    }
}

/// Token counts of one upstream exchange, as reported to the business backend.
#[derive(Debug)]
pub struct UsageEvent {
    /// Unique per inbound request; the backend deduplicates on it.
    pub request_id: String,
    pub token: String,
    pub model: String,
    pub api: String,
    pub input_tokens: i32,
    pub output_tokens: i32,
    pub model_id: String,
    pub provider_id: String,
    pub provider_token_id: String,
}

/// The mathematical value of a `UsageEvent`.
pub struct UsageEventView {
    pub request_id: Seq<char>,
    pub token: Seq<char>,
    pub model: Seq<char>,
    pub api: Seq<char>,
    pub input_tokens: i32,
    pub output_tokens: i32,
    pub model_id: Seq<char>,
    pub provider_id: Seq<char>,
    pub provider_token_id: Seq<char>,
}

impl View for UsageEvent {
    type V = UsageEventView;

    open spec fn view(&self) -> UsageEventView {
        UsageEventView {
            request_id: self.request_id@,
            token: self.token@,
            model: self.model@,
            api: self.api@,
            input_tokens: self.input_tokens,
            output_tokens: self.output_tokens,
            model_id: self.model_id@,
            provider_id: self.provider_id@,
            provider_token_id: self.provider_token_id@,
        }
    }
}

/// Answer of the business backend to a telemetry report.
#[derive(Debug)]
pub struct TelemetryResponse {
    pub code: i32,
    pub success: bool,
    pub message: String,
    pub data: Option<crate::json::Json>,
}

/// Reads a protocol tag: `"openai"`, `"anthropic"`, or `{"custom": name}`.
pub open spec fn decode_protocol(j: JsonValue) -> Option<ProtocolView> {
    match j {
        JsonValue::Str(s) => if s == "openai"@ {
            Some(ProtocolView::OpenAI)
        } else if s == "anthropic"@ {
            Some(ProtocolView::Anthropic)
        } else {
            None
        },
        JsonValue::Obj(members) => if members.len() == 1 && members[0].0 == "custom"@ {
            match members[0].1 {
                JsonValue::Str(name) => Some(ProtocolView::Custom(name)),
                _ => None,
            }
        } else {
            None
        },
        _ => None,
    }
}

/// Reads a candidate: an object with the strings `token`, `model`, `api`,
/// `model_id`, `provider_id` and `provider_token_id` and a `protocol` tag.
pub open spec fn decode_route(j: JsonValue) -> Option<RouteConfigView> {
    match (
        j.member("token"@).as_str(),
        j.member("model"@).as_str(),
        j.member("api"@).as_str(),
        decode_protocol(j.member("protocol"@)),
        j.member("model_id"@).as_str(),
        j.member("provider_id"@).as_str(),
        j.member("provider_token_id"@).as_str(),
    ) {
        (
            Some(token),
            Some(model),
            Some(api_endpoint),
            Some(protocol),
            Some(model_id),
            Some(provider_id),
            Some(provider_token_id),
        ) => Some(
            RouteConfigView {
                token,
                model,
                api_endpoint,
                protocol,
                model_id,
                provider_id,
                provider_token_id,
            },
        ),
        _ => None,
    }
}

/// Reads a list of candidates; one bad candidate spoils the list.
pub open spec fn decode_routes(j: JsonValue) -> Option<Seq<RouteConfigView>> {
    match j {
        JsonValue::Arr(items) => if forall|i: int|
            0 <= i < items.len() ==> (#[trigger] decode_route(items[i])) is Some {
            Some(Seq::new(items.len(), |i: int| decode_route(items[i])->0))
        } else {
            None
        },
        _ => None,
    }
}

/// The mathematical value of a `RouteResponse`.
pub struct RouteResponseView {
    pub code: i32,
    pub success: bool,
    pub message: Seq<char>,
    pub data: Seq<RouteConfigView>,
}

impl View for RouteResponse {
    type V = RouteResponseView;

    open spec fn view(&self) -> RouteResponseView {
        RouteResponseView {
            code: self.code,
            success: self.success,
            message: self.message@,
            data: routes_view(self.data@),
        }
    }
}

/// Reads the backend's answer to a route lookup: `code`, `success`,
/// `message` and `data` are all required.
pub open spec fn decode_route_response(j: JsonValue) -> Option<RouteResponseView> {
    match (
        crate::protocol::fields::required_i32(j, "code"@),
        j.member("success"@).as_bool(),
        j.member("message"@).as_str(),
        decode_routes(j.member("data"@)),
    ) {
        (Some(code), Some(success), Some(message), Some(data)) => Some(
            RouteResponseView { code, success, message, data },
        ),
        _ => None,
    }
}

/// Writes the body of a route lookup.
pub open spec fn encode_route_request(token: Seq<char>, model: Seq<char>) -> JsonValue {
    JsonValue::Obj(
        Seq::empty().push(("token"@, JsonValue::Str(token))).push(
            ("model"@, JsonValue::Str(model)),
        ),
    )
}

/// Writes an error report; `provider_token_id` is left out where there is
/// none.
pub open spec fn encode_error_event(e: ErrorEventView) -> JsonValue {
    let head = Seq::empty().push(("token"@, JsonValue::Str(e.token))).push(
        ("model"@, JsonValue::Str(e.model)),
    ).push(("api"@, JsonValue::Str(e.api))).push(("msg"@, JsonValue::Str(e.msg)));
    match e.provider_token_id {
        Some(id) => JsonValue::Obj(head.push(("provider_token_id"@, JsonValue::Str(id)))),
        None => JsonValue::Obj(head),
    }
}

/// Writes a usage report.
pub open spec fn encode_usage_event(e: UsageEventView) -> JsonValue {
    JsonValue::Obj(
        Seq::empty().push(("request_id"@, JsonValue::Str(e.request_id))).push(
            ("token"@, JsonValue::Str(e.token)),
        ).push(("model"@, JsonValue::Str(e.model))).push(("api"@, JsonValue::Str(e.api))).push(
            ("input_tokens"@, JsonValue::Int(e.input_tokens as i64)),
        ).push(("output_tokens"@, JsonValue::Int(e.output_tokens as i64))).push(
            ("model_id"@, JsonValue::Str(e.model_id)),
        ).push(("provider_id"@, JsonValue::Str(e.provider_id))).push(
            ("provider_token_id"@, JsonValue::Str(e.provider_token_id)),
        ),
    )
}

impl TargetProtocol {
    /// Reads a protocol tag.
    pub fn from_json(j: &Json) -> (r: Option<TargetProtocol>)
        ensures
            match r {
                Some(p) => decode_protocol(j@) == Some(p@),
                None => decode_protocol(j@) is None,
            },
    {
        match j {
            Json::Str(s) => {
                if same_text(s.as_str(), "openai") {
                    Some(TargetProtocol::OpenAI)
                } else if same_text(s.as_str(), "anthropic") {
                    Some(TargetProtocol::Anthropic)
                } else {
                    None
                }
            },
            Json::Obj(members) => {
                proof {
                    Json::lemma_obj_view(*members);
                }
                if members.len() == 1 && same_text(members[0].0.as_str(), "custom") {
                    match &members[0].1 {
                        Json::Str(name) => Some(TargetProtocol::Custom(name.clone())),
                        _ => None,
                    }
                } else {
                    None
                }
            },
            _ => None,
        }
    }
}

impl RouteConfig {
    /// Reads a candidate from its JSON document.
    pub fn from_json(j: &Json) -> (r: Option<RouteConfig>)
        ensures
            match r {
                Some(c) => decode_route(j@) == Some(c@),
                None => decode_route(j@) is None,
            },
    {
        let null = Json::Null;
        let protocol = match TargetProtocol::from_json(
            match j.get("protocol") {
                Some(p) => p,
                None => &null,
            },
        ) {
            Some(p) => p,
            None => {
                return None;
            },
        };
        match (
            j.get_str("token"),
            j.get_str("model"),
            j.get_str("api"),
            j.get_str("model_id"),
            j.get_str("provider_id"),
            j.get_str("provider_token_id"),
        ) {
            (
                Some(token),
                Some(model),
                Some(api_endpoint),
                Some(model_id),
                Some(provider_id),
                Some(provider_token_id),
            ) => Some(
                RouteConfig {
                    token: token.clone(),
                    model: model.clone(),
                    api_endpoint: api_endpoint.clone(),
                    protocol,
                    model_id: model_id.clone(),
                    provider_id: provider_id.clone(),
                    provider_token_id: provider_token_id.clone(),
                },
            ),
            _ => None,
        }
    }
}

/// Reads a list of candidates.
pub fn routes_from_json(j: &Json) -> (r: Option<Vec<RouteConfig>>)
    ensures
        match r {
            Some(v) => decode_routes(j@) == Some(routes_view(v@)),
            None => decode_routes(j@) is None,
        },
{
    match j {
        Json::Arr(items) => {
            proof {
                Json::lemma_arr_view(*items);
            }
            let ghost values = crate::json::items_view(items@);
            let mut out: Vec<RouteConfig> = Vec::new();
            let mut i: usize = 0;
            while i < items.len()
                invariant
                    i <= items.len(),
                    values == crate::json::items_view(items@),
                    j@ == JsonValue::Arr(values),
                    out.len() == i,
                    forall|k: int|
                        0 <= k < i ==> (#[trigger] decode_route(values[k])) == Some(out@[k]@),
                decreases items.len() - i,
            {
                match RouteConfig::from_json(&items[i]) {
                    Some(c) => {
                        out.push(c);
                    },
                    None => {
                        assert(decode_route(values[i as int]) is None);
                        return None;
                    },
                }
                i += 1;
            }
            assert(routes_view(out@) =~= Seq::new(
                values.len(),
                |i: int| decode_route(values[i])->0,
            ));
            Some(out)
        },
        _ => None,
    }
}

impl RouteResponse {
    /// Reads the backend's answer from its JSON document.
    pub fn from_json(j: &Json) -> (r: Option<RouteResponse>)
        ensures
            match r {
                Some(resp) => decode_route_response(j@) == Some(resp@),
                None => decode_route_response(j@) is None,
            },
    {
        let null = Json::Null;
        let code = match crate::protocol::fields::read_required_i32(j, "code") {
            Some(n) => n,
            None => {
                return None;
            },
        };
        let success = match j.get("success") {
            Some(Json::Bool(b)) => *b,
            _ => {
                return None;
            },
        };
        let message = match j.get_str("message") {
            Some(s) => s.clone(),
            None => {
                return None;
            },
        };
        let data = match routes_from_json(
            match j.get("data") {
                Some(d) => d,
                None => &null,
            },
        ) {
            Some(d) => d,
            None => {
                return None;
            },
        };
        Some(RouteResponse { code, success, message, data })
    }
}

impl RouteRequest {
    /// Writes the lookup as a JSON document.
    pub fn to_json(&self) -> (r: Json)
        ensures
            r@ == encode_route_request(self.token@, self.model@),
    {
        let mut o = ObjectBuilder::new();
        o.put("token", Json::Str(self.token.clone()));
        o.put("model", Json::Str(self.model.clone()));
        o.build()
    }
}

impl ErrorEvent {
    /// Writes the report as a JSON document.
    pub fn to_json(&self) -> (r: Json)
        ensures
            r@ == encode_error_event(self@),
    {
        let mut o = ObjectBuilder::new();
        o.put("token", Json::Str(self.token.clone()));
        o.put("model", Json::Str(self.model.clone()));
        o.put("api", Json::Str(self.api.clone()));
        o.put("msg", Json::Str(self.msg.clone()));
        match &self.provider_token_id {
            Some(id) => {
                o.put("provider_token_id", Json::Str(id.clone()));
            },
            None => {},
        }
        o.build()
    }
}

impl UsageEvent {
    /// Writes the report as a JSON document.
    pub fn to_json(&self) -> (r: Json)
        ensures
            r@ == encode_usage_event(self@),
    {
        let mut o = ObjectBuilder::new();
        o.put("request_id", Json::Str(self.request_id.clone()));
        o.put("token", Json::Str(self.token.clone()));
        o.put("model", Json::Str(self.model.clone()));
        o.put("api", Json::Str(self.api.clone()));
        o.put("input_tokens", Json::Int(self.input_tokens as i64));
        o.put("output_tokens", Json::Int(self.output_tokens as i64));
        o.put("model_id", Json::Str(self.model_id.clone()));
        o.put("provider_id", Json::Str(self.provider_id.clone()));
        o.put("provider_token_id", Json::Str(self.provider_token_id.clone()));
        o.build()
    }
}

} // verus!
