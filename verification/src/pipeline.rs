//! The request pipeline: what the gateway answers by itself, how it reads an
//! inbound request, and how it walks through the candidate upstreams until
//! one answers.
//!
//! The pipeline decides and the caller talks.  `handle_request` turns an
//! inbound request into a context or a refusal.  A `Failover` then takes one
//! event after the other (the start, an upstream's answer, an opened stream,
//! a transport error) and says what to report to the backend and what to do
//! next: send a request, answer the client, or pipe a stream.

use crate::cache::CacheView;
use crate::error::{Error, ErrorKind, ErrorView};
use crate::json::{parsed_json, Json, JsonValue, ObjectBuilder};
use crate::models::{
    routes_view, ClientProtocol, ErrorEvent, ErrorEventView, ProtocolView, RouteConfig,
    RouteConfigView, TargetProtocol, UsageEvent, UsageEventView,
};
use crate::protocol::adapter::{
    fails, gives, json_bytes, transformed_request, transformed_response, StreamAdapter,
    StreamAdapterView, UniversalAdapter,
};
use crate::protocol::detector::{body_wants_stream, detected, ProtocolDetector};
use crate::protocol::fields::{low_i32, low_i32_of};
use crate::proxy::{
    auth_header, client_fault, failure_text, filter_client_headers, forwardable, headers_view,
    is_header_value, is_success, same_header_name, upstream_headers, upstream_url, ProxyForwarder,
    UpstreamRequest,
};
use crate::router::Router;
use crate::text::{
    after_first, contains, contains_text, lower_text, same_text, text_after_first,
    text_without_prefix, without_prefix,
};
use crate::usage_collector::{CollectorView, StreamUsageCollector, TokenCounts};
use vstd::prelude::*;
use vstd::utf8::encode_utf8;

verus! {

/// An answer to the client.
#[derive(Debug)]
pub struct GatewayResponse {
    pub status: u16,
    pub headers: Vec<(String, String)>,
    pub body: Vec<u8>,
}

pub struct GatewayResponseView {
    pub status: u16,
    pub headers: Seq<(Seq<char>, Seq<char>)>,
    pub body: Seq<u8>,
}

impl View for GatewayResponse {
    type V = GatewayResponseView;

    open spec fn view(&self) -> GatewayResponseView {
        GatewayResponseView {
            status: self.status,
            headers: headers_view(self.headers@),
            body: self.body@,
        }
    }
}

/// The headers of a JSON answer.
pub open spec fn json_headers() -> Seq<(Seq<char>, Seq<char>)> {
    Seq::empty().push(("content-type"@, "application/json"@))
}

/// The headers of a streamed answer; the last one keeps proxies in between
/// from buffering the stream.
pub open spec fn stream_headers() -> Seq<(Seq<char>, Seq<char>)> {
    Seq::empty().push(("content-type"@, "text/event-stream"@)).push(
        ("cache-control"@, "no-cache"@),
    ).push(("connection"@, "keep-alive"@)).push(("x-accel-buffering"@, "no"@))
}

/// A JSON answer.
pub open spec fn json_reply(status: u16, body: Seq<u8>) -> GatewayResponseView {
    GatewayResponseView { status, headers: json_headers(), body }
}

/// The answer to a health check.
pub open spec fn health_reply() -> GatewayResponseView {
    json_reply(
        200,
        json_bytes(JsonValue::Obj(Seq::empty().push(("status"@, JsonValue::Str("healthy"@))))),
    )
}

/// The document of an error that the gateway itself raises.
pub open spec fn gateway_error(message: Seq<char>) -> JsonValue {
    JsonValue::Obj(
        Seq::empty().push(
            (
                "error"@,
                JsonValue::Obj(
                    Seq::empty().push(("message"@, JsonValue::Str(message))).push(
                        ("type"@, JsonValue::Str("gateway_error"@)),
                    ),
                ),
            ),
        ),
    )
}

/// The answer for an error that the gateway itself raises.
pub open spec fn error_reply(status: u16, message: Seq<char>) -> GatewayResponseView {
    json_reply(status, json_bytes(gateway_error(message)))
}

/// The client-fault status that a text mentions first in the order 400,
/// 401, 403, 404, 422, 429.
pub open spec fn client_status(msg: Seq<char>) -> Option<u16> {
    if contains(msg, "400"@) {
        Some(400u16)
    } else if contains(msg, "401"@) {
        Some(401u16)
    } else if contains(msg, "403"@) {
        Some(403u16)
    } else if contains(msg, "404"@) {
        Some(404u16)
    } else if contains(msg, "422"@) {
        Some(422u16)
    } else if contains(msg, "429"@) {
        Some(429u16)
    } else {
        None
    }
}

/// The answer for a failed request.  A proxy error that mentions a
/// client-fault status is answered with that status and the upstream's body,
/// which is what follows the first `": "` of the error's text.  Every other
/// error is answered with status 500.
pub open spec fn failure_reply(e: ErrorView) -> GatewayResponseView {
    if e.kind == ErrorKind::Proxy {
        match client_status(e.detail) {
            Some(status) => match after_first(e.detail, ": "@) {
                Some(body) => json_reply(status, encode_utf8(body)),
                None => error_reply(status, e.detail),
            },
            None => error_reply(500, e.detail),
        }
    } else {
        error_reply(500, e.message())
    }
}

/// The first value of the header `name`, whatever the case of the name.
pub open spec fn header_value(headers: Seq<(Seq<char>, Seq<char>)>, name: Seq<char>) -> Option<
    Seq<char>,
>
    decreases headers.len(),
{
    if headers.len() == 0 {
        None
    } else if lower_text(headers.first().0) == lower_text(name) {
        Some(headers.first().1)
    } else {
        header_value(headers.drop_first(), name)
    }
}

/// The user token of a request: what follows `Bearer ` in its
/// `authorization` header.
pub open spec fn bearer_token(authorization: Option<Seq<char>>) -> Option<Seq<char>> {
    match authorization {
        Some(a) => without_prefix(a, "Bearer "@),
        None => None,
    }
}

/// The model that a request document asks for.
pub open spec fn model_in(j: JsonValue) -> Option<Seq<char>> {
    j.member("model"@).as_str()
}

/// The model that a request body asks for.
pub open spec fn body_model(body: Seq<u8>) -> Option<Seq<char>> {
    match parsed_json(body) {
        Ok(j) => model_in(j),
        Err(_) => None,
    }
}

/// The token counts of a unary response document, under the names of the
/// upstream's protocol.
pub open spec fn usage_in(protocol: ProtocolView, j: JsonValue) -> Option<(i32, i32)> {
    match j.get("usage"@) {
        Some(u) => {
            let (first, second) = match protocol {
                ProtocolView::Anthropic => ("input_tokens"@, "output_tokens"@),
                _ => ("prompt_tokens"@, "completion_tokens"@),
            };
            match (u.member(first).as_i64(), u.member(second).as_i64()) {
                (Some(a), Some(b)) => Some((low_i32(a), low_i32(b))),
                _ => None,
            }
        },
        None => None,
    }
}

/// The token counts of a unary response body.
pub open spec fn body_usage(protocol: ProtocolView, body: Seq<u8>) -> Option<(i32, i32)> {
    match parsed_json(body) {
        Ok(j) => usage_in(protocol, j),
        Err(_) => None,
    }
}

/// An inbound request, as far as the pipeline looks at it.
#[derive(Debug)]
pub struct InboundRequest {
    pub path: String,
    pub headers: Vec<(String, String)>,
    pub body: Vec<u8>,
}

/// What the pipeline knows of a request once it has read it.
#[derive(Debug)]
pub struct RequestContext {
    pub client_protocol: ClientProtocol,
    pub user_token: String,
    pub requested_model: String,
    /// The client's headers that may go upstream.
    pub client_headers: Vec<(String, String)>,
    pub body: Vec<u8>,
    pub is_stream: bool,
    /// Set for the responses API.
    pub custom_path: Option<String>,
    /// Unique per inbound request.
    pub request_id: String,
}

pub struct RequestContextView {
    pub client_protocol: ProtocolView,
    pub user_token: Seq<char>,
    pub requested_model: Seq<char>,
    pub client_headers: Seq<(Seq<char>, Seq<char>)>,
    pub body: Seq<u8>,
    pub is_stream: bool,
    pub custom_path: Option<Seq<char>>,
    pub request_id: Seq<char>,
}

impl View for RequestContext {
    type V = RequestContextView;

    open spec fn view(&self) -> RequestContextView {
        RequestContextView {
            client_protocol: self.client_protocol@,
            user_token: self.user_token@,
            requested_model: self.requested_model@,
            client_headers: headers_view(self.client_headers@),
            body: self.body@,
            is_stream: self.is_stream,
            custom_path: match self.custom_path {
                Some(p) => Some(p@),
                None => None,
            },
            request_id: self.request_id@,
        }
    }
}

/// What `handle_request` makes of a request: the context, or the refusal
/// for a request without a bearer token (401) or without a model (400).
pub open spec fn accepted(
    path: Seq<char>,
    headers: Seq<(Seq<char>, Seq<char>)>,
    body: Seq<u8>,
    request_id: Seq<char>,
) -> Result<RequestContextView, GatewayResponseView> {
    let authorization = header_value(headers, "authorization"@);
    match bearer_token(authorization) {
        None => Err(error_reply(401, "Missing authorization"@)),
        Some(user_token) => match body_model(body) {
            None => Err(error_reply(400, "Missing model field"@)),
            Some(requested_model) => Ok(
                RequestContextView {
                    client_protocol: detected(path, authorization),
                    user_token,
                    requested_model,
                    client_headers: forwardable(headers),
                    body,
                    is_stream: body_wants_stream(body),
                    custom_path: if path == "/v1/responses"@ {
                        Some(path)
                    } else {
                        None
                    },
                    request_id,
                },
            ),
        },
    }
}

/// Something to report to the business backend.
#[derive(Debug)]
pub enum Report {
    Error(ErrorEvent),
    Usage(UsageEvent),
}

pub enum ReportView {
    Error(ErrorEventView),
    Usage(UsageEventView),
}

impl View for Report {
    type V = ReportView;

    open spec fn view(&self) -> ReportView {
        match self {
            Report::Error(e) => ReportView::Error(e@),
            Report::Usage(u) => ReportView::Usage(u@),
        }
    }
}

/// The values of a list of reports.
pub open spec fn reports_view(v: Seq<Report>) -> Seq<ReportView> {
    Seq::new(v.len(), |i: int| v[i]@)
}

/// What an upstream did.
#[derive(Debug)]
pub enum UpstreamEvent {
    /// Nothing yet: the walk through the candidates starts.
    Start,
    /// An HTTP answer, read to its end: status, the status's standard
    /// phrase, and the body.
    Answer { status: u16, reason: String, body: Vec<u8> },
    /// A successful status on a request for a stream; the body is still to
    /// come.
    StreamOpened,
    /// No answer; the text says why.
    TransportError(String),
}

pub enum UpstreamEventView {
    Start,
    Answer { status: u16, reason: Seq<char>, body: Seq<u8> },
    StreamOpened,
    TransportError(Seq<char>),
}

impl View for UpstreamEvent {
    type V = UpstreamEventView;

    open spec fn view(&self) -> UpstreamEventView {
        match self {
            UpstreamEvent::Start => UpstreamEventView::Start,
            UpstreamEvent::Answer { status, reason, body } => UpstreamEventView::Answer {
                status: *status,
                reason: reason@,
                body: body@,
            },
            UpstreamEvent::StreamOpened => UpstreamEventView::StreamOpened,
            UpstreamEvent::TransportError(text) => UpstreamEventView::TransportError(text@),
        }
    }
}

/// How to pipe an upstream stream to the client: show each chunk to the
/// collector first, then hand it to the adapter and send what that gives.
pub struct StreamPlan {
    pub collector: StreamUsageCollector,
    pub adapter: StreamAdapter,
    /// Status and headers of the answer; its body is the stream.
    pub response: GatewayResponse,
}

/// What the caller is to do next.
pub enum Action {
    /// Send this request to the current candidate.
    Send(UpstreamRequest),
    /// Answer the client; the request is over.
    Respond(GatewayResponse),
    /// Pipe the opened stream to the client; the request is over.
    Stream(StreamPlan),
}

pub enum ActionView {
    Send { url: Seq<char>, headers: Seq<(Seq<char>, Seq<char>)>, body: Seq<u8> },
    Respond(GatewayResponseView),
    Stream { collector: CollectorView, adapter: StreamAdapterView, response: GatewayResponseView },
}

impl View for Action {
    type V = ActionView;

    open spec fn view(&self) -> ActionView {
        match self {
            Action::Send(req) => ActionView::Send {
                url: req.url@,
                headers: headers_view(req.headers@),
                body: req.body@,
            },
            Action::Respond(resp) => ActionView::Respond(resp@),
            Action::Stream(plan) => ActionView::Stream {
                collector: plan.collector@,
                adapter: plan.adapter@,
                response: plan.response@,
            },
        }
    }
}

/// The outcome of one step: the reports to post and the next action.
pub struct Outcome {
    pub reports: Vec<Report>,
    pub action: Action,
}

/// The state of a walk through the candidates after a step, with what the
/// step reports and asks for.
pub struct Walk {
    /// Index of the current candidate.
    pub current: int,
    /// The route cache.
    pub cache: CacheView,
    pub reports: Seq<ReportView>,
    pub action: ActionView,
}

/// The same walk with `reports` reported first.
pub open spec fn after_reports(reports: Seq<ReportView>, walk: Walk) -> Walk {
    Walk {
        current: walk.current,
        cache: walk.cache,
        reports: reports + walk.reports,
        action: walk.action,
    }
}

/// The answer when no candidate is left.
pub open spec fn exhausted(ctx: RequestContextView) -> GatewayResponseView {
    error_reply(
        503,
        if ctx.is_stream {
            "All stream routes failed"@
        } else {
            "All routes failed"@
        },
    )
}

/// The walk at its end: no candidate is left at index `i`, nothing is
/// reported, and the client gets the 503.
pub open spec fn nothing_left(ctx: RequestContextView, cache: CacheView, i: int) -> Walk {
    Walk {
        current: i,
        cache,
        reports: Seq::empty(),
        action: ActionView::Respond(exhausted(ctx)),
    }
}

/// The report of a failed attempt on `route`.
pub open spec fn error_report(route: RouteConfigView, e: ErrorView) -> ReportView {
    ReportView::Error(
        ErrorEventView {
            token: route.token,
            model: route.model,
            api: route.api_endpoint,
            msg: e.message(),
            provider_token_id: Some(route.provider_token_id),
        },
    )
}

/// The report of the tokens that a unary answer of `route` tells.
pub open spec fn usage_report(
    ctx: RequestContextView,
    route: RouteConfigView,
    counts: (i32, i32),
) -> ReportView {
    ReportView::Usage(
        UsageEventView {
            request_id: ctx.request_id,
            token: ctx.user_token,
            model: ctx.requested_model,
            api: route.api_endpoint,
            input_tokens: counts.0,
            output_tokens: counts.1,
            model_id: route.model_id,
            provider_id: route.provider_id,
            provider_token_id: route.provider_token_id,
        },
    )
}

/// Tries the candidates from index `i` on.  A candidate whose request
/// cannot be rewritten is passed over.  A candidate whose credential cannot
/// stand in a header has failed.  The first candidate that is neither gets
/// the request; with none left the client gets a 503.
pub open spec fn attempt_from(
    ctx: RequestContextView,
    candidates: Seq<RouteConfigView>,
    cache: CacheView,
    i: int,
) -> Walk
    decreases candidates.len() - i, 1int,
{
    if i < 0 || i >= candidates.len() {
        nothing_left(ctx, cache, i)
    } else {
        let route = candidates[i];
        match transformed_request(ctx.client_protocol, route.protocol, route.model, ctx.body) {
            Err(_) => attempt_from(ctx, candidates, cache, i + 1),
            Ok(body) => if is_header_value(auth_header(route).1) {
                Walk {
                    current: i,
                    cache,
                    reports: Seq::empty(),
                    action: ActionView::Send {
                        url: upstream_url(route, ctx.custom_path),
                        headers: upstream_headers(route, ctx.client_headers),
                        body,
                    },
                }
            } else {
                failed(
                    ctx,
                    candidates,
                    cache,
                    i,
                    ErrorView { kind: ErrorKind::Proxy, detail: "Invalid token format"@ },
                )
            },
        }
    }
}

/// Candidate `i` has failed with `e`.  The failure is reported.  Where the
/// client is at fault the walk ends with the failure's answer and the
/// candidate stays cached; else the candidate is evicted from the cache and
/// the walk goes on with the next.
pub open spec fn failed(
    ctx: RequestContextView,
    candidates: Seq<RouteConfigView>,
    cache: CacheView,
    i: int,
    e: ErrorView,
) -> Walk
    decreases candidates.len() - i, 0int,
{
    if i < 0 || i >= candidates.len() {
        nothing_left(ctx, cache, i)
    } else {
        let route = candidates[i];
        let report = Seq::empty().push(error_report(route, e));
        if client_fault(e.kind, e.detail) {
            Walk {
                current: i,
                cache,
                reports: report,
                action: ActionView::Respond(failure_reply(e)),
            }
        } else {
            after_reports(
                report,
                attempt_from(
                    ctx,
                    candidates,
                    cache.remove_config(ctx.user_token, ctx.requested_model, route),
                    i + 1,
                ),
            )
        }
    }
}

/// The usage report for a unary answer, where the body tells the tokens.
pub open spec fn usage_reports(
    ctx: RequestContextView,
    route: RouteConfigView,
    body: Seq<u8>,
) -> Seq<ReportView> {
    match body_usage(route.protocol, body) {
        Some(counts) => Seq::empty().push(usage_report(ctx, route, counts)),
        None => Seq::empty(),
    }
}

/// Candidate `i` has answered.  A status that is no success is a failure.
/// A success reports the tokens that its body tells; an empty body or one
/// that cannot be rewritten for the client passes the walk on to the next
/// candidate, and any other body is the answer to the client.
pub open spec fn answered(
    ctx: RequestContextView,
    candidates: Seq<RouteConfigView>,
    cache: CacheView,
    i: int,
    status: u16,
    reason: Seq<char>,
    body: Seq<u8>,
    now: i64,
) -> Walk {
    if i < 0 || i >= candidates.len() {
        nothing_left(ctx, cache, i)
    } else if !is_success(status) {
        failed(
            ctx,
            candidates,
            cache,
            i,
            ErrorView { kind: ErrorKind::Proxy, detail: failure_text(status, reason, body) },
        )
    } else {
        let route = candidates[i];
        let reports = usage_reports(ctx, route, body);
        if body.len() == 0 {
            after_reports(reports, attempt_from(ctx, candidates, cache, i + 1))
        } else {
            match transformed_response(route.protocol, ctx.client_protocol, body, now) {
                Ok(out) => Walk {
                    current: i,
                    cache,
                    reports,
                    action: ActionView::Respond(json_reply(200, out)),
                },
                Err(_) => after_reports(reports, attempt_from(ctx, candidates, cache, i + 1)),
            }
        }
    }
}

/// Candidate `i` has opened a stream: the answer is the stream, tapped by
/// a new collector and rewritten by the adapter between the two protocols.
pub open spec fn stream_opened(
    ctx: RequestContextView,
    candidates: Seq<RouteConfigView>,
    cache: CacheView,
    i: int,
) -> Walk {
    if i < 0 || i >= candidates.len() {
        nothing_left(ctx, cache, i)
    } else {
        let route = candidates[i];
        Walk {
            current: i,
            cache,
            reports: Seq::empty(),
            action: ActionView::Stream {
                collector: CollectorView {
                    request_id: ctx.request_id,
                    user_token: ctx.user_token,
                    route,
                    counts: TokenCounts { input: None, output: None },
                    buffer: Seq::empty(),
                    reported: false,
                },
                adapter: StreamAdapterView::between(route.protocol, ctx.client_protocol),
                response: GatewayResponseView {
                    status: 200,
                    headers: stream_headers(),
                    body: Seq::empty(),
                },
            },
        }
    }
}

/// One step of the walk: what an event leads to.
pub open spec fn step(
    ctx: RequestContextView,
    candidates: Seq<RouteConfigView>,
    cache: CacheView,
    current: int,
    event: UpstreamEventView,
    now: i64,
) -> Walk {
    match event {
        UpstreamEventView::Start => attempt_from(ctx, candidates, cache, current),
        UpstreamEventView::Answer { status, reason, body } => answered(
            ctx,
            candidates,
            cache,
            current,
            status,
            reason,
            body,
            now,
        ),
        UpstreamEventView::StreamOpened => stream_opened(ctx, candidates, cache, current),
        UpstreamEventView::TransportError(text) => failed(
            ctx,
            candidates,
            cache,
            current,
            ErrorView { kind: ErrorKind::Http, detail: text },
        ),
    }
}

/// The number of usage reports in a list.
pub open spec fn usage_count(reports: Seq<ReportView>) -> nat
    decreases reports.len(),
{
    if reports.len() == 0 {
        0
    } else {
        usage_count(reports.drop_last()) + (if reports.last() is Usage {
            1nat
        } else {
            0nat
        })
    }
}

pub proof fn lemma_usage_count_concat(a: Seq<ReportView>, b: Seq<ReportView>)
    ensures
        usage_count(a + b) == usage_count(a) + usage_count(b),
    decreases b.len(),
{
    if b.len() == 0 {
        assert(a + b =~= a);
    } else {
        lemma_usage_count_concat(a, b.drop_last());
        assert((a + b).drop_last() =~= a + b.drop_last());
        assert((a + b).last() == b.last());
    }
}

proof fn lemma_usage_count_one(r: ReportView)
    ensures
        usage_count(Seq::empty().push(r)) == (if r is Usage {
            1nat
        } else {
            0nat
        }),
        usage_count(Seq::<ReportView>::empty()) == 0,
{
    let one = Seq::<ReportView>::empty().push(r);
    assert(one.drop_last() =~= Seq::<ReportView>::empty());
    assert(one.last() == r);
    assert(usage_count(Seq::<ReportView>::empty()) == 0);
    assert(usage_count(one.drop_last()) == 0);
}

/// Trying candidates reports failures only, never usage.
pub proof fn lemma_attempt_reports_no_usage(
    ctx: RequestContextView,
    candidates: Seq<RouteConfigView>,
    cache: CacheView,
    i: int,
)
    ensures
        usage_count(attempt_from(ctx, candidates, cache, i).reports) == 0,
    decreases candidates.len() - i, 1int,
{
    if 0 <= i < candidates.len() {
        let route = candidates[i];
        match transformed_request(ctx.client_protocol, route.protocol, route.model, ctx.body) {
            Err(_) => {
                lemma_attempt_reports_no_usage(ctx, candidates, cache, i + 1);
            },
            Ok(body) => {
                if !is_header_value(auth_header(route).1) {
                    lemma_failure_reports_no_usage(
                        ctx,
                        candidates,
                        cache,
                        i,
                        ErrorView { kind: ErrorKind::Proxy, detail: "Invalid token format"@ },
                    );
                }
            },
        }
    }
}

/// A failure reports failures only, never usage.
pub proof fn lemma_failure_reports_no_usage(
    ctx: RequestContextView,
    candidates: Seq<RouteConfigView>,
    cache: CacheView,
    i: int,
    e: ErrorView,
)
    ensures
        usage_count(failed(ctx, candidates, cache, i, e).reports) == 0,
    decreases candidates.len() - i, 0int,
{
    if 0 <= i < candidates.len() {
        let route = candidates[i];
        let report = Seq::empty().push(error_report(route, e));
        lemma_usage_count_one(error_report(route, e));
        if !client_fault(e.kind, e.detail) {
            let next = attempt_from(
                ctx,
                candidates,
                cache.remove_config(ctx.user_token, ctx.requested_model, route),
                i + 1,
            );
            lemma_attempt_reports_no_usage(
                ctx,
                candidates,
                cache.remove_config(ctx.user_token, ctx.requested_model, route),
                i + 1,
            );
            lemma_usage_count_concat(report, next.reports);
        }
    }
}

/// One step of the walk reports usage at most once, and only for an answer
/// with a successful status: each forwarding success tells its tokens once.
pub proof fn lemma_step_reports_usage_once(
    ctx: RequestContextView,
    candidates: Seq<RouteConfigView>,
    cache: CacheView,
    current: int,
    event: UpstreamEventView,
    now: i64,
)
    ensures
        usage_count(step(ctx, candidates, cache, current, event, now).reports) <= 1,
        usage_count(step(ctx, candidates, cache, current, event, now).reports) == 1 ==> event
            is Answer && is_success(event->status),
{
    lemma_usage_count_one(
        error_report(candidates[0], ErrorView { kind: ErrorKind::Http, detail: Seq::empty() }),
    );
    match event {
        UpstreamEventView::Start => {
            lemma_attempt_reports_no_usage(ctx, candidates, cache, current);
        },
        UpstreamEventView::Answer { status, reason, body } => {
            if 0 <= current < candidates.len() {
                if !is_success(status) {
                    lemma_failure_reports_no_usage(
                        ctx,
                        candidates,
                        cache,
                        current,
                        ErrorView {
                            kind: ErrorKind::Proxy,
                            detail: failure_text(status, reason, body),
                        },
                    );
                } else {
                    let route = candidates[current];
                    let reports = usage_reports(ctx, route, body);
                    match body_usage(route.protocol, body) {
                        Some(counts) => {
                            lemma_usage_count_one(usage_report(ctx, route, counts));
                        },
                        None => {},
                    }
                    let next = attempt_from(ctx, candidates, cache, current + 1);
                    lemma_attempt_reports_no_usage(ctx, candidates, cache, current + 1);
                    lemma_usage_count_concat(reports, next.reports);
                }
            }
        },
        UpstreamEventView::StreamOpened => {},
        UpstreamEventView::TransportError(text) => {
            lemma_failure_reports_no_usage(
                ctx,
                candidates,
                cache,
                current,
                ErrorView { kind: ErrorKind::Http, detail: text },
            );
        },
    }
}

/// Trying candidates never goes back: the walk ends at the candidate it
/// started from or at a later one.
pub proof fn lemma_attempt_moves_forward(
    ctx: RequestContextView,
    candidates: Seq<RouteConfigView>,
    cache: CacheView,
    i: int,
)
    ensures
        attempt_from(ctx, candidates, cache, i).current >= i,
    decreases candidates.len() - i, 1int,
{
    if 0 <= i < candidates.len() {
        let route = candidates[i];
        match transformed_request(ctx.client_protocol, route.protocol, route.model, ctx.body) {
            Err(_) => {
                lemma_attempt_moves_forward(ctx, candidates, cache, i + 1);
            },
            Ok(body) => {
                if !is_header_value(auth_header(route).1) {
                    lemma_failure_moves_forward(
                        ctx,
                        candidates,
                        cache,
                        i,
                        ErrorView { kind: ErrorKind::Proxy, detail: "Invalid token format"@ },
                    );
                }
            },
        }
    }
}

/// A candidate that failed by its own fault is not tried again: the walk
/// goes on strictly behind it.
pub proof fn lemma_failure_moves_forward(
    ctx: RequestContextView,
    candidates: Seq<RouteConfigView>,
    cache: CacheView,
    i: int,
    e: ErrorView,
)
    ensures
        failed(ctx, candidates, cache, i, e).current >= i,
        0 <= i < candidates.len() && !client_fault(e.kind, e.detail) ==> failed(
            ctx,
            candidates,
            cache,
            i,
            e,
        ).current > i,
    decreases candidates.len() - i, 0int,
{
    if 0 <= i < candidates.len() && !client_fault(e.kind, e.detail) {
        lemma_attempt_moves_forward(
            ctx,
            candidates,
            cache.remove_config(ctx.user_token, ctx.requested_model, candidates[i]),
            i + 1,
        );
    }
}

/// No step of the walk goes back to an earlier candidate.
pub proof fn lemma_step_moves_forward(
    ctx: RequestContextView,
    candidates: Seq<RouteConfigView>,
    cache: CacheView,
    current: int,
    event: UpstreamEventView,
    now: i64,
)
    ensures
        step(ctx, candidates, cache, current, event, now).current >= current,
{
    lemma_attempt_moves_forward(ctx, candidates, cache, current);
    lemma_attempt_moves_forward(ctx, candidates, cache, current + 1);
    match event {
        UpstreamEventView::Answer { status, reason, body } => {
            lemma_failure_moves_forward(
                ctx,
                candidates,
                cache,
                current,
                ErrorView { kind: ErrorKind::Proxy, detail: failure_text(status, reason, body) },
            );
        },
        UpstreamEventView::TransportError(text) => {
            lemma_failure_moves_forward(
                ctx,
                candidates,
                cache,
                current,
                ErrorView { kind: ErrorKind::Http, detail: text },
            );
        },
        _ => {},
    }
}

/// The number of answers with a successful status among the events.
pub open spec fn success_count(events: Seq<UpstreamEventView>) -> nat
    decreases events.len(),
{
    if events.len() == 0 {
        0
    } else {
        success_count(events.drop_first()) + (if events.first() is Answer && is_success(
            events.first()->status,
        ) {
            1nat
        } else {
            0nat
        })
    }
}

/// Everything that a request reports while it takes the events one after
/// the other, up to the step that answers the client or opens the stream.
pub open spec fn run_reports(
    ctx: RequestContextView,
    candidates: Seq<RouteConfigView>,
    cache: CacheView,
    current: int,
    events: Seq<UpstreamEventView>,
    now: i64,
) -> Seq<ReportView>
    decreases events.len(),
{
    if events.len() == 0 {
        Seq::empty()
    } else {
        let walk = step(ctx, candidates, cache, current, events.first(), now);
        if walk.action is Send {
            walk.reports + run_reports(
                ctx,
                candidates,
                walk.cache,
                walk.current,
                events.drop_first(),
                now,
            )
        } else {
            walk.reports
        }
    }
}

/// A request reports usage no more often than an upstream answered it with
/// a successful status.  A request that is answered by its first such
/// upstream therefore reports usage at most once.
pub proof fn lemma_usage_once_per_success(
    ctx: RequestContextView,
    candidates: Seq<RouteConfigView>,
    cache: CacheView,
    current: int,
    events: Seq<UpstreamEventView>,
    now: i64,
)
    ensures
        usage_count(run_reports(ctx, candidates, cache, current, events, now)) <= success_count(
            events,
        ),
    decreases events.len(),
{
    if events.len() > 0 {
        let walk = step(ctx, candidates, cache, current, events.first(), now);
        lemma_step_reports_usage_once(ctx, candidates, cache, current, events.first(), now);
        if walk.action is Send {
            let rest = run_reports(
                ctx,
                candidates,
                walk.cache,
                walk.current,
                events.drop_first(),
                now,
            );
            lemma_usage_once_per_success(
                ctx,
                candidates,
                walk.cache,
                walk.current,
                events.drop_first(),
                now,
            );
            lemma_usage_count_concat(walk.reports, rest);
        }
    }
}

/// A successful status with an empty body is no answer: nothing of it
/// reaches the client, and the walk goes on with the next candidate.
pub proof fn lemma_empty_body_fails_over(
    ctx: RequestContextView,
    candidates: Seq<RouteConfigView>,
    cache: CacheView,
    i: int,
    status: u16,
    reason: Seq<char>,
    now: i64,
)
    requires
        0 <= i < candidates.len(),
        is_success(status),
    ensures
        answered(ctx, candidates, cache, i, status, reason, Seq::empty(), now) == after_reports(
            usage_reports(ctx, candidates[i], Seq::empty()),
            attempt_from(ctx, candidates, cache, i + 1),
        ),
{
}

/// The only candidate fails and the client is not at fault: one error is
/// reported, the candidate is evicted from the cache, and the client gets
/// a 503.
pub proof fn lemma_only_candidate_fails(
    ctx: RequestContextView,
    candidates: Seq<RouteConfigView>,
    cache: CacheView,
    e: ErrorView,
)
    requires
        candidates.len() == 1,
        !client_fault(e.kind, e.detail),
    ensures
        failed(ctx, candidates, cache, 0, e).reports == Seq::empty().push(
            error_report(candidates[0], e),
        ),
        failed(ctx, candidates, cache, 0, e).cache == cache.remove_config(
            ctx.user_token,
            ctx.requested_model,
            candidates[0],
        ),
        failed(ctx, candidates, cache, 0, e).action == ActionView::Respond(exhausted(ctx)),
        exhausted(ctx).status == 503,
{
    reveal_with_fuel(attempt_from, 2);
    let report = Seq::empty().push(error_report(candidates[0], e));
    assert(report + Seq::<ReportView>::empty() =~= report);
}

/// A failure that is the client's fault ends the walk: the client gets
/// the failure's answer, the candidate stays in the cache, and no other
/// candidate is tried.
pub proof fn lemma_client_fault_stops(
    ctx: RequestContextView,
    candidates: Seq<RouteConfigView>,
    cache: CacheView,
    i: int,
    e: ErrorView,
)
    requires
        0 <= i < candidates.len(),
        client_fault(e.kind, e.detail),
    ensures
        failed(ctx, candidates, cache, i, e).cache == cache,
        failed(ctx, candidates, cache, i, e).current == i,
        failed(ctx, candidates, cache, i, e).action == ActionView::Respond(failure_reply(e)),
        failed(ctx, candidates, cache, i, e).reports == Seq::empty().push(
            error_report(candidates[i], e),
        ),
        failure_reply(e).status == client_status(e.detail)->0,
        client_status(e.detail) is Some,
{
}

/// An upstream that answers with one of the six client-fault statuses ends
/// the walk: the client gets the failure's answer, one error is reported,
/// nothing is evicted and no other candidate is tried.
pub proof fn lemma_client_status_stops(
    ctx: RequestContextView,
    candidates: Seq<RouteConfigView>,
    cache: CacheView,
    i: int,
    status: u16,
    reason: Seq<char>,
    body: Seq<u8>,
    now: i64,
)
    requires
        0 <= i < candidates.len(),
        crate::proxy::is_client_status(status),
    ensures
        ({
            let e = ErrorView { kind: ErrorKind::Proxy, detail: failure_text(status, reason, body) };
            let walk = answered(ctx, candidates, cache, i, status, reason, body, now);
            &&& walk.cache == cache
            &&& walk.current == i
            &&& walk.reports == Seq::empty().push(error_report(candidates[i], e))
            &&& walk.action == ActionView::Respond(failure_reply(e))
            &&& client_status(e.detail) is Some
            &&& failure_reply(e).status == client_status(e.detail)->0
        }),
{
    crate::proxy::lemma_client_status_is_client_fault(status, reason, body);
}

/// A JSON answer.
pub fn json_response(status: u16, body: Vec<u8>) -> (r: GatewayResponse)
    ensures
        r@ == json_reply(status, body@),
{
    let mut headers: Vec<(String, String)> = Vec::new();
    headers.push(("content-type".to_owned(), "application/json".to_owned()));
    assert(headers_view(headers@) =~= json_headers());
    GatewayResponse { status, headers, body }
}

/// The answer to a health check.
pub fn health() -> (r: GatewayResponse)
    ensures
        r@ == health_reply(),
{
    let mut o = ObjectBuilder::new();
    o.put("status", Json::text("healthy"));
    json_response(200, o.build().to_text().as_str().as_bytes_vec())
}

/// The answer for an error that the gateway itself raises.
pub fn error_response(status: u16, message: &str) -> (r: GatewayResponse)
    ensures
        r@ == error_reply(status, message@),
{
    let mut inner = ObjectBuilder::new();
    inner.put("message", Json::text(message));
    inner.put("type", Json::text("gateway_error"));
    let mut o = ObjectBuilder::new();
    o.put("error", inner.build());
    json_response(status, o.build().to_text().as_str().as_bytes_vec())
}

fn client_status_of(msg: &str) -> (r: Option<u16>)
    ensures
        r == client_status(msg@),
{
    if contains_text(msg, "400") {
        Some(400)
    } else if contains_text(msg, "401") {
        Some(401)
    } else if contains_text(msg, "403") {
        Some(403)
    } else if contains_text(msg, "404") {
        Some(404)
    } else if contains_text(msg, "422") {
        Some(422)
    } else if contains_text(msg, "429") {
        Some(429)
    } else {
        None
    }
}

/// The answer for a failed request.
pub fn create_error_response(error: &Error) -> (r: GatewayResponse)
    ensures
        r@ == failure_reply(error@),
{
    match error {
        Error::Proxy(msg) => match client_status_of(msg.as_str()) {
            Some(status) => match text_after_first(msg.as_str(), ": ") {
                Some(body) => json_response(status, body.as_str().as_bytes_vec()),
                None => error_response(status, msg.as_str()),
            },
            None => error_response(500, msg.as_str()),
        },
        _ => {
            let text = error.message();
            error_response(500, text.as_str())
        },
    }
}

/// The first value of the header `name`.
pub fn find_header<'a>(headers: &'a Vec<(String, String)>, name: &str) -> (r: Option<&'a String>)
    ensures
        match r {
            Some(v) => header_value(headers_view(headers@), name@) == Some(v@),
            None => header_value(headers_view(headers@), name@) is None,
        },
{
    let ghost all = headers_view(headers@);
    let mut i: usize = 0;
    assert(all.skip(0) =~= all);
    while i < headers.len()
        invariant
            i <= headers.len(),
            all == headers_view(headers@),
            header_value(all, name@) == header_value(all.skip(i as int), name@),
        decreases headers.len() - i,
    {
        proof {
            assert(all.skip(i as int).first() == all[i as int]);
            assert(all.skip(i as int).drop_first() =~= all.skip(i + 1));
        }
        if same_header_name(headers[i].0.as_str(), name) {
            return Some(&headers[i].1);
        }
        i += 1;
    }
    None
}

/// The user token of a request.
pub fn extract_token(authorization: Option<&str>) -> (r: Option<String>)
    ensures
        match r {
            Some(t) => bearer_token(
                match authorization {
                    Some(a) => Some(a@),
                    None => None,
                },
            ) == Some(t@),
            None => bearer_token(
                match authorization {
                    Some(a) => Some(a@),
                    None => None,
                },
            ) is None,
        },
{
    match authorization {
        Some(a) => text_without_prefix(a, "Bearer "),
        None => None,
    }
}

/// The model that a request document asks for.
pub fn model_of(request: &Json) -> (r: Option<String>)
    ensures
        match r {
            Some(m) => model_in(request@) == Some(m@),
            None => model_in(request@) is None,
        },
{
    match request.get_str("model") {
        Some(s) => Some(s.clone()),
        None => None,
    }
}

/// The model that a request body asks for.
pub fn extract_model(body: &[u8]) -> (r: Option<String>)
    ensures
        match r {
            Some(m) => body_model(body@) == Some(m@),
            None => body_model(body@) is None,
        },
{
    match Json::parse(body) {
        Ok(j) => model_of(&j),
        Err(_) => None,
    }
}

/// The token counts of a unary response document.
pub fn usage_of(protocol: &TargetProtocol, response: &Json) -> (r: Option<(i32, i32)>)
    ensures
        r == usage_in(protocol@, response@),
{
    match response.get("usage") {
        Some(u) => {
            let (a, b): (Option<i64>, Option<i64>) = match protocol {
                TargetProtocol::Anthropic => (
                    u.get_i64("input_tokens"),
                    u.get_i64("output_tokens"),
                ),
                _ => (u.get_i64("prompt_tokens"), u.get_i64("completion_tokens")),
            };
            match (a, b) {
                (Some(x), Some(y)) => Some((low_i32_of(x), low_i32_of(y))),
                _ => None,
            }
        },
        None => None,
    }
}

/// The token counts of a unary response body.
pub fn extract_usage_from_response(protocol: &TargetProtocol, body: &[u8]) -> (r: Option<
    (i32, i32),
>)
    ensures
        r == body_usage(protocol@, body@),
{
    match Json::parse(body) {
        Ok(j) => usage_of(protocol, &j),
        Err(_) => None,
    }
}

/// Reads an inbound request: the context to go on with, or the answer
/// that refuses it.
pub fn handle_request(request: InboundRequest, request_id: String) -> (r: Result<
    RequestContext,
    GatewayResponse,
>)
    ensures
        match r {
            Ok(ctx) => gives(accepted(
                request.path@,
                headers_view(request.headers@),
                request.body@,
                request_id@,
            ), ctx@),
            Err(resp) => fails(accepted(
                request.path@,
                headers_view(request.headers@),
                request.body@,
                request_id@,
            ), resp@),
        },
{
    let authorization: Option<&str> = match find_header(&request.headers, "authorization") {
        Some(v) => Some(v.as_str()),
        None => None,
    };
    let client_protocol = match ProtocolDetector::detect_from_request(
        request.path.as_str(),
        authorization,
    ) {
        Ok(p) => p,
        Err(_) => ClientProtocol::OpenAI,
    };
    let user_token = match extract_token(authorization) {
        Some(t) => t,
        None => {
            return Err(error_response(401, "Missing authorization"));
        },
    };
    let client_headers = filter_client_headers(&request.headers);
    let requested_model = match extract_model(request.body.as_slice()) {
        Some(m) => m,
        None => {
            return Err(error_response(400, "Missing model field"));
        },
    };
    let is_stream = ProtocolDetector::is_stream_request(request.body.as_slice());
    let custom_path: Option<String> = if same_text(request.path.as_str(), "/v1/responses") {
        Some(request.path.clone())
    } else {
        None
    };
    Ok(
        RequestContext {
            client_protocol,
            user_token,
            requested_model,
            client_headers,
            body: request.body,
            is_stream,
            custom_path,
            request_id,
        },
    )
}

/// The answer when the routes of a request cannot be resolved.
pub fn no_routes() -> (r: GatewayResponse)
    ensures
        r@ == error_reply(503, "No available routes"@),
{
    error_response(503, "No available routes")
}

/// The walk of one request through its candidates.
pub struct Failover {
    ctx: RequestContext,
    candidates: Vec<RouteConfig>,
    current: usize,
}

impl Failover {
    #[verifier::type_invariant]
    spec fn inv(self) -> bool {
        self.current <= self.candidates@.len()
    }

    pub closed spec fn ctx(&self) -> RequestContextView {
        self.ctx@
    }

    pub closed spec fn candidates(&self) -> Seq<RouteConfigView> {
        routes_view(self.candidates@)
    }

    /// Index of the current candidate.
    pub closed spec fn current(&self) -> int {
        self.current as int
    }

    /// A walk that starts at the first candidate.
    pub fn new(ctx: RequestContext, candidates: Vec<RouteConfig>) -> (r: Failover)
        ensures
            r.ctx() == ctx@,
            r.candidates() == routes_view(candidates@),
            r.current() == 0,
    {
        Failover { ctx, candidates, current: 0 }
    }

    /// Index of the current candidate.
    pub fn current_index(&self) -> (r: usize)
        ensures
            r == self.current(),
    {
        self.current
    }

    /// The candidate that the last request went to, if any is left.
    pub fn current_route(&self) -> (r: Option<&RouteConfig>)
        ensures
            match r {
                Some(route) => self.current() < self.candidates().len() && route@
                    == self.candidates()[self.current()],
                None => self.current() >= self.candidates().len(),
            },
    {
        if self.current < self.candidates.len() {
            Some(&self.candidates[self.current])
        } else {
            None
        }
    }

    /// What the pipeline knows of the request.
    pub fn context(&self) -> (r: &RequestContext)
        ensures
            r@ == self.ctx(),
    {
        &self.ctx
    }

    /// Whether the request asks for a stream.
    pub fn is_stream(&self) -> (r: bool)
        ensures
            r == self.ctx().is_stream,
    {
        self.ctx.is_stream
    }

    fn exhausted_response(&self) -> (r: GatewayResponse)
        ensures
            r@ == exhausted(self.ctx()),
    {
        if self.ctx.is_stream {
            error_response(503, "All stream routes failed")
        } else {
            error_response(503, "All routes failed")
        }
    }

    /// Goes on with the candidates from the current one.
    fn attempt(
        &mut self,
        reports: &mut Vec<Report>,
        adapter: &UniversalAdapter,
        forwarder: &ProxyForwarder,
        router: &mut Router,
    ) -> (action: Action)
        ensures
            final(self).ctx() == old(self).ctx(),
            final(self).candidates() == old(self).candidates(),
            final(self).current() <= final(self).candidates().len(),
            final(router).base_url() == old(router).base_url(),
            final(router).max_retries() == old(router).max_retries(),
            (Walk {
                current: final(self).current(),
                cache: final(router).cache_view(),
                reports: reports_view(final(reports)@),
                action: action@,
            }) == after_reports(
                reports_view(old(reports)@),
                attempt_from(
                    old(self).ctx(),
                    old(self).candidates(),
                    old(router).cache_view(),
                    old(self).current(),
                ),
            ),
    {
        proof {
            use_type_invariant(&*self);
        }
        let ghost ctx = self.ctx();
        let ghost candidates = self.candidates();
        let ghost goal = after_reports(
            reports_view(reports@),
            attempt_from(ctx, candidates, router.cache_view(), self.current()),
        );
        assert(reports_view(reports@) + Seq::<ReportView>::empty() =~= reports_view(reports@));
        while self.current < self.candidates.len()
            invariant
                self.ctx() == ctx,
                self.candidates() == candidates,
                ctx == old(self).ctx(),
                candidates == old(self).candidates(),
                self.current() <= candidates.len(),
                router.base_url() == old(router).base_url(),
                router.max_retries() == old(router).max_retries(),
                goal == after_reports(
                    reports_view(reports@),
                    attempt_from(ctx, candidates, router.cache_view(), self.current()),
                ),
                goal == after_reports(
                    reports_view(old(reports)@),
                    attempt_from(
                        old(self).ctx(),
                        old(self).candidates(),
                        old(router).cache_view(),
                        old(self).current(),
                    ),
                ),
            decreases self.candidates.len() - self.current,
        {
            let route = &self.candidates[self.current];
            assert(route@ == candidates[self.current()]);
            let ghost before = reports_view(reports@);
            let ghost cache = router.cache_view();
            match adapter.transform_request(
                &self.ctx.client_protocol,
                &route.protocol,
                route.model.as_str(),
                self.ctx.body.as_slice(),
            ) {
                Err(_) => {
                    self.current += 1;
                },
                Ok(body) => {
                    let custom_path: Option<&str> = match &self.ctx.custom_path {
                        Some(p) => Some(p.as_str()),
                        None => None,
                    };
                    match forwarder.send_request(
                        route,
                        body,
                        custom_path,
                        &self.ctx.client_headers,
                    ) {
                        Ok(request) => {
                            assert(before + Seq::<ReportView>::empty() =~= before);
                            return Action::Send(request);
                        },
                        Err(e) => {
                            let text = e.message();
                            reports.push(
                                Report::Error(
                                    ErrorEvent {
                                        token: route.token.clone(),
                                        model: route.model.clone(),
                                        api: route.api_endpoint.clone(),
                                        msg: text,
                                        provider_token_id: Some(route.provider_token_id.clone()),
                                    },
                                ),
                            );
                            let ghost report = error_report(route@, e@);
                            assert(reports_view(reports@) =~= before.push(report));
                            if forwarder.is_client_error(&e) {
                                reveal_with_fuel(attempt_from, 2);
                                reveal_with_fuel(failed, 2);
                                assert(before + Seq::empty().push(report) =~= before.push(report));
                                return Action::Respond(create_error_response(&e));
                            }
                            router.remove_failed_route(
                                self.ctx.user_token.as_str(),
                                self.ctx.requested_model.as_str(),
                                route,
                            );
                            self.current += 1;
                            proof {
                                reveal_with_fuel(attempt_from, 2);
                                reveal_with_fuel(failed, 2);
                                let next = attempt_from(
                                    ctx,
                                    candidates,
                                    router.cache_view(),
                                    self.current(),
                                );
                                assert(before + (Seq::empty().push(report) + next.reports)
                                    =~= before.push(report) + next.reports);
                            }
                        },
                    }
                },
            }
        }
        assert(reports_view(reports@) + Seq::<ReportView>::empty() =~= reports_view(reports@));
        Action::Respond(self.exhausted_response())
    }

    /// The current candidate has failed with `e`.
    fn fail(
        &mut self,
        e: Error,
        reports: &mut Vec<Report>,
        adapter: &UniversalAdapter,
        forwarder: &ProxyForwarder,
        router: &mut Router,
    ) -> (action: Action)
        requires
            old(self).current() < old(self).candidates().len(),
        ensures
            final(self).ctx() == old(self).ctx(),
            final(self).candidates() == old(self).candidates(),
            final(self).current() <= final(self).candidates().len(),
            final(router).base_url() == old(router).base_url(),
            final(router).max_retries() == old(router).max_retries(),
            (Walk {
                current: final(self).current(),
                cache: final(router).cache_view(),
                reports: reports_view(final(reports)@),
                action: action@,
            }) == after_reports(
                reports_view(old(reports)@),
                failed(
                    old(self).ctx(),
                    old(self).candidates(),
                    old(router).cache_view(),
                    old(self).current(),
                    e@,
                ),
            ),
    {
        assert(self.candidates().len() == self.candidates@.len());
        let route = &self.candidates[self.current];
        assert(route@ == self.candidates()[self.current()]);
        let ghost before = reports_view(reports@);
        let ghost report = error_report(route@, e@);
        let text = e.message();
        reports.push(
            Report::Error(
                ErrorEvent {
                    token: route.token.clone(),
                    model: route.model.clone(),
                    api: route.api_endpoint.clone(),
                    msg: text,
                    provider_token_id: Some(route.provider_token_id.clone()),
                },
            ),
        );
        assert(reports_view(reports@) =~= before.push(report));
        if forwarder.is_client_error(&e) {
            assert(before + Seq::empty().push(report) =~= before.push(report));
            return Action::Respond(create_error_response(&e));
        }
        router.remove_failed_route(
            self.ctx.user_token.as_str(),
            self.ctx.requested_model.as_str(),
            route,
        );
        assert(self.current < self.candidates.len());
        self.current += 1;
        proof {
            let next = attempt_from(
                self.ctx(),
                self.candidates(),
                router.cache_view(),
                self.current(),
            );
            assert(before + (Seq::empty().push(report) + next.reports) =~= before.push(report)
                + next.reports);
        }
        self.attempt(reports, adapter, forwarder, router)
    }

    /// Takes the next event of the walk, at time `now`, and says what to
    /// report and what to do.
    pub fn advance_at(
        &mut self,
        event: UpstreamEvent,
        now: i64,
        adapter: &UniversalAdapter,
        forwarder: &ProxyForwarder,
        router: &mut Router,
    ) -> (r: Outcome)
        ensures
            final(self).ctx() == old(self).ctx(),
            final(self).candidates() == old(self).candidates(),
            final(self).current() <= final(self).candidates().len(),
            final(router).base_url() == old(router).base_url(),
            final(router).max_retries() == old(router).max_retries(),
            (Walk {
                current: final(self).current(),
                cache: final(router).cache_view(),
                reports: reports_view(r.reports@),
                action: r.action@,
            }) == step(
                old(self).ctx(),
                old(self).candidates(),
                old(router).cache_view(),
                old(self).current(),
                event@,
                now,
            ),
    {
        proof {
            use_type_invariant(&*self);
        }
        let mut reports: Vec<Report> = Vec::new();
        assert(reports_view(reports@) =~= Seq::empty());
        let ghost start = step(
            self.ctx(),
            self.candidates(),
            router.cache_view(),
            self.current(),
            event@,
            now,
        );
        proof {
            assert(Seq::<ReportView>::empty() + start.reports =~= start.reports);
        }
        if self.current >= self.candidates.len() {
            let action = match event {
                UpstreamEvent::Start => self.attempt(&mut reports, adapter, forwarder, router),
                _ => Action::Respond(self.exhausted_response()),
            };
            return Outcome { reports, action };
        }
        let action = match event {
            UpstreamEvent::Start => self.attempt(&mut reports, adapter, forwarder, router),
            UpstreamEvent::TransportError(text) => self.fail(
                Error::Http(text),
                &mut reports,
                adapter,
                forwarder,
                router,
            ),
            UpstreamEvent::StreamOpened => {
                let route = &self.candidates[self.current];
                assert(route@ == self.candidates()[self.current()]);
                let mut headers: Vec<(String, String)> = Vec::new();
                headers.push(("content-type".to_owned(), "text/event-stream".to_owned()));
                headers.push(("cache-control".to_owned(), "no-cache".to_owned()));
                headers.push(("connection".to_owned(), "keep-alive".to_owned()));
                headers.push(("x-accel-buffering".to_owned(), "no".to_owned()));
                assert(headers_view(headers@) =~= stream_headers());
                Action::Stream(
                    StreamPlan {
                        collector: StreamUsageCollector::new(
                            self.ctx.request_id.clone(),
                            self.ctx.user_token.clone(),
                            route.clone(),
                        ),
                        adapter: adapter.transform_stream_chunk(
                            &route.protocol,
                            &self.ctx.client_protocol,
                        ),
                        response: GatewayResponse { status: 200, headers, body: Vec::new() },
                    },
                )
            },
            UpstreamEvent::Answer { status, reason, body } => {
                let ghost body_view = body@;
                match forwarder.process_response(status, reason.as_str(), body) {
                    Err(e) => self.fail(e, &mut reports, adapter, forwarder, router),
                    Ok(body) => {
                        let route = &self.candidates[self.current];
                        assert(route@ == self.candidates()[self.current()]);
                        match extract_usage_from_response(&route.protocol, body.as_slice()) {
                            Some((input_tokens, output_tokens)) => {
                                reports.push(
                                    Report::Usage(
                                        UsageEvent {
                                            request_id: self.ctx.request_id.clone(),
                                            token: self.ctx.user_token.clone(),
                                            model: self.ctx.requested_model.clone(),
                                            api: route.api_endpoint.clone(),
                                            input_tokens,
                                            output_tokens,
                                            model_id: route.model_id.clone(),
                                            provider_id: route.provider_id.clone(),
                                            provider_token_id: route.provider_token_id.clone(),
                                        },
                                    ),
                                );
                            },
                            None => {},
                        }
                        assert(reports_view(reports@) =~= usage_reports(
                            self.ctx(),
                            route@,
                            body_view,
                        ));
                        let rewritten: Option<Vec<u8>> = if body.len() == 0 {
                            None
                        } else {
                            match adapter.transform_response_at(
                                &route.protocol,
                                &self.ctx.client_protocol,
                                body.as_slice(),
                                now,
                            ) {
                                Ok(out) => Some(out),
                                Err(_) => None,
                            }
                        };
                        match rewritten {
                            Some(out) => Action::Respond(json_response(200, out)),
                            None => {
                                self.current += 1;
                                self.attempt(&mut reports, adapter, forwarder, router)
                            },
                        }
                    },
                }
            },
        };
        Outcome { reports, action }
    }

    /// Takes the next event of the walk at the current time.
    pub fn advance(
        &mut self,
        event: UpstreamEvent,
        adapter: &UniversalAdapter,
        forwarder: &ProxyForwarder,
        router: &mut Router,
    ) -> (r: Outcome)
        ensures
            final(self).ctx() == old(self).ctx(),
            final(self).candidates() == old(self).candidates(),
            final(self).current() <= final(self).candidates().len(),
            final(router).base_url() == old(router).base_url(),
            final(router).max_retries() == old(router).max_retries(),
            exists|now: i64|
                (Walk {
                    current: final(self).current(),
                    cache: final(router).cache_view(),
                    reports: reports_view(r.reports@),
                    action: r.action@,
                }) == #[trigger] step(
                    old(self).ctx(),
                    old(self).candidates(),
                    old(router).cache_view(),
                    old(self).current(),
                    event@,
                    now,
                ),
    {
        let now: i64 = crate::clock::unix_now();
        self.advance_at(event, now, adapter, forwarder, router)
    }
}

} // verus!
