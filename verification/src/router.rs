//! Route resolution: a look into the cache, and on a miss the exchange with
//! the business backend, retried while the backend is at fault.
//!
//! The router decides and the caller talks: `resolve_route` says whether the
//! cache had the routes or which call to make, `fetch_from_business_api` reads
//! each reply and says whether to retry, and `store_routes` keeps what the
//! backend gave.

use crate::cache::{Cache, CacheView};
use crate::config::BusinessApiConfig;
use crate::error::{Error, ErrorKind, ErrorView};
use crate::json::{json_text, parsed_json, Json};
use crate::models::{
    decode_route_response, encode_route_request, routes_view, RouteConfig, RouteConfigView,
    RouteRequest, RouteResponse,
};
use crate::text::{decimal, decimal_chars, string_of};
use vstd::prelude::*;
use vstd::string::StringExecFns;
use vstd::utf8::encode_utf8;

verus! {

/// Pause before the first retry; the n-th retry waits n times as long.
pub const RETRY_DELAY_MS: u64 = 100;

/// A call to make to the business backend.
#[derive(Debug)]
pub struct BackendCall {
    pub url: String,
    pub body: Vec<u8>,
}

/// How a resolution starts.
#[derive(Debug)]
pub enum Lookup {
    /// The cache had a list that is not empty.
    Cached(Vec<RouteConfig>),
    /// The backend has to be asked.
    Fetch(BackendCall),
}

/// What came back from a call to the backend.
#[derive(Debug)]
pub enum BackendReply {
    /// An HTTP answer: status, the status's standard phrase, and the body.
    Answer { status: u16, reason: String, body: Vec<u8> },
    /// No answer; the text says why.
    TransportError(String),
}

pub enum BackendReplyView {
    Answer { status: u16, reason: Seq<char>, body: Seq<u8> },
    TransportError(Seq<char>),
}

impl View for BackendReply {
    type V = BackendReplyView;

    open spec fn view(&self) -> BackendReplyView {
        match self {
            BackendReply::Answer { status, reason, body } => BackendReplyView::Answer {
                status: *status,
                reason: reason@,
                body: body@,
            },
            BackendReply::TransportError(text) => BackendReplyView::TransportError(text@),
        }
    }
}

/// What to do after a reply.
#[derive(Debug)]
pub enum FetchStep {
    /// Wait `delay_ms`, then call again; `retry_count` retries have then
    /// been made.
    Retry { retry_count: u32, delay_ms: u64 },
    /// The exchange is over.
    Done(Result<Vec<RouteConfig>, Error>),
}

pub enum FetchStepView {
    Retry { retry_count: u32, delay_ms: u64 },
    Routes(Seq<RouteConfigView>),
    Failed(ErrorView),
}

impl View for FetchStep {
    type V = FetchStepView;

    open spec fn view(&self) -> FetchStepView {
        match self {
            FetchStep::Retry { retry_count, delay_ms } => FetchStepView::Retry {
                retry_count: *retry_count,
                delay_ms: *delay_ms,
            },
            FetchStep::Done(Ok(routes)) => FetchStepView::Routes(routes_view(routes@)),
            FetchStep::Done(Err(e)) => FetchStepView::Failed(e@),
        }
    }
}

/// The URL of the route lookup.
pub open spec fn resolve_url(base_url: Seq<char>) -> Seq<char> {
    base_url + "/v1/route/resolve"@
}

/// The body of the route lookup.
pub open spec fn resolve_body(token: Seq<char>, model: Seq<char>) -> Seq<u8> {
    encode_utf8(json_text(encode_route_request(token, model)))
}

/// The retry after `retry_count` retries.
pub open spec fn retry(retry_count: u32) -> FetchStepView {
    FetchStepView::Retry {
        retry_count: (retry_count + 1) as u32,
        delay_ms: (RETRY_DELAY_MS * (retry_count + 1)) as u64,
    }
}

/// What a successful answer of the backend holds.
pub open spec fn read_answer(body: Seq<u8>) -> FetchStepView {
    let unreadable = FetchStepView::Failed(
        ErrorView { kind: ErrorKind::Http, detail: "error decoding response body"@ },
    );
    match parsed_json(body) {
        Ok(j) => match decode_route_response(j) {
            Some(r) => if r.success {
                FetchStepView::Routes(r.data)
            } else {
                FetchStepView::Failed(
                    ErrorView {
                        kind: ErrorKind::Routing,
                        detail: "Business API returned error: "@ + r.message,
                    },
                )
            },
            None => unreadable,
        },
        Err(_) => unreadable,
    }
}

/// What to do after a reply, `retry_count` retries having been made of at
/// most `max_retries`.  A transport error and a 5xx status are retried; a
/// success is read; any other status ends the exchange, as does a body with
/// `success` false.
pub open spec fn fetch_step(
    max_retries: u32,
    retry_count: u32,
    reply: BackendReplyView,
) -> FetchStepView {
    match reply {
        BackendReplyView::Answer { status, reason, body } => if 200 <= status <= 299 {
            read_answer(body)
        } else if 500 <= status <= 599 && retry_count < max_retries {
            retry(retry_count)
        } else {
            FetchStepView::Failed(
                ErrorView {
                    kind: ErrorKind::Routing,
                    detail: "Business API returned status: "@ + decimal(status as nat) + " "@
                        + reason,
                },
            )
        },
        BackendReplyView::TransportError(text) => if retry_count < max_retries {
            retry(retry_count)
        } else {
            FetchStepView::Failed(ErrorView { kind: ErrorKind::Http, detail: text })
        },
    }
}

/// A reply is retried only while retries are left, and only for a
/// transport error or a 5xx status.
pub proof fn lemma_retry_policy(max_retries: u32, retry_count: u32, reply: BackendReplyView)
    ensures
        fetch_step(max_retries, retry_count, reply) is Retry <==> retry_count < max_retries && (
        reply is TransportError || 500 <= reply->status <= 599),
        fetch_step(max_retries, retry_count, reply) is Retry ==> fetch_step(
            max_retries,
            retry_count,
            reply,
        )->retry_count == retry_count + 1 && fetch_step(max_retries, retry_count, reply)->delay_ms
            == 100 * (retry_count + 1),
{
    match reply {
        BackendReplyView::Answer { status, reason, body } => {
            if 200 <= status <= 299 {
                assert(!(read_answer(body) is Retry));
            }
        },
        BackendReplyView::TransportError(_) => {},
    }
}

/// The route resolver.
pub struct Router {
    cache: Cache,
    business_api_config: BusinessApiConfig,
}

impl Router {
    /// The cache that the router looks into.
    pub closed spec fn cache_view(&self) -> CacheView {
        self.cache@
    }

    /// The base URL of the business backend.
    pub closed spec fn base_url(&self) -> Seq<char> {
        self.business_api_config.base_url@
    }

    /// The number of retries allowed.
    pub closed spec fn max_retries(&self) -> u32 {
        self.business_api_config.retry_attempts
    }

    /// Limit on a call to the backend, in milliseconds.
    pub closed spec fn timeout_ms(&self) -> u64 {
        self.business_api_config.timeout
    }

    pub fn new(cache: Cache, business_api_config: BusinessApiConfig) -> (r: Router)
        ensures
            r.cache_view() == cache@,
            r.base_url() == business_api_config.base_url@,
            r.max_retries() == business_api_config.retry_attempts,
            r.timeout_ms() == business_api_config.timeout,
    {
        Router { cache, business_api_config }
    }

    /// The cache that the router looks into.
    pub fn cache(&self) -> (r: &Cache)
        ensures
            r@ == self.cache_view(),
    {
        &self.cache
    }

    /// Limit on a call to the backend, in milliseconds.
    pub fn timeout(&self) -> (r: u64)
        ensures
            r == self.timeout_ms(),
    {
        self.business_api_config.timeout
    }

    /// The call that looks the routes up.
    pub fn lookup_call(&self, user_token: &str, requested_model: &str) -> (r: BackendCall)
        ensures
            r.url@ == resolve_url(self.base_url()),
            r.body@ == resolve_body(user_token@, requested_model@),
    {
        let request = RouteRequest {
            token: user_token.to_owned(),
            model: requested_model.to_owned(),
        };
        BackendCall {
            url: self.business_api_config.base_url.clone().concat("/v1/route/resolve"),
            body: request.to_json().to_text().as_str().as_bytes_vec(),
        }
    }

    /// Starts a resolution at time `now`: the cached list where the cache
    /// has one that is not empty, else the call to make.
    pub fn resolve_route_at(&mut self, user_token: &str, requested_model: &str, now: u64) -> (r:
        Lookup)
        ensures
            final(self).cache_view() == old(self).cache_view().get(
                user_token@,
                requested_model@,
                now,
            ).0,
            final(self).base_url() == old(self).base_url(),
            final(self).max_retries() == old(self).max_retries(),
            match r {
                Lookup::Cached(list) => list@.len() > 0 && old(self).cache_view().get(
                    user_token@,
                    requested_model@,
                    now,
                ).1 == Some(routes_view(list@)),
                Lookup::Fetch(call) => {
                    &&& match old(self).cache_view().get(user_token@, requested_model@, now).1 {
                        Some(list) => list.len() == 0,
                        None => true,
                    }
                    &&& call.url@ == resolve_url(old(self).base_url())
                    &&& call.body@ == resolve_body(user_token@, requested_model@)
                },
            },
    {
        match self.cache.get_at(user_token, requested_model, now) {
            Some(list) => {
                if list.len() > 0 {
                    return Lookup::Cached(list);
                }
            },
            None => {},
        }
        Lookup::Fetch(self.lookup_call(user_token, requested_model))
    }

    /// Starts a resolution at the time that the cache's clock shows.
    pub fn resolve_route(&mut self, user_token: &str, requested_model: &str) -> (r: Lookup)
        ensures
            final(self).base_url() == old(self).base_url(),
            final(self).max_retries() == old(self).max_retries(),
            exists|now: u64|
                final(self).cache_view() == (#[trigger] old(self).cache_view().get(
                    user_token@,
                    requested_model@,
                    now,
                )).0 && match r {
                    Lookup::Cached(list) => list@.len() > 0 && old(self).cache_view().get(
                        user_token@,
                        requested_model@,
                        now,
                    ).1 == Some(routes_view(list@)),
                    Lookup::Fetch(call) => {
                        &&& match old(self).cache_view().get(user_token@, requested_model@, now).1 {
                            Some(list) => list.len() == 0,
                            None => true,
                        }
                        &&& call.url@ == resolve_url(old(self).base_url())
                        &&& call.body@ == resolve_body(user_token@, requested_model@)
                    },
                },
    {
        let now: u64 = self.cache.now();
        self.resolve_route_at(user_token, requested_model, now)
    }

    /// Reads the parsed body of a successful answer.
    pub fn read_route_response(response: Option<RouteResponse>) -> (r: Result<
        Vec<RouteConfig>,
        Error,
    >)
        ensures
            match (response, r) {
                (Some(resp), Ok(routes)) => resp.success && routes@ == resp.data@,
                (Some(resp), Err(e)) => !resp.success && e@ == (ErrorView {
                    kind: ErrorKind::Routing,
                    detail: "Business API returned error: "@ + resp.message@,
                }),
                (None, Ok(_)) => false,
                (None, Err(e)) => e@ == (ErrorView {
                    kind: ErrorKind::Http,
                    detail: "error decoding response body"@,
                }),
            },
    {
        match response {
            Some(resp) => {
                if resp.success {
                    Ok(resp.data)
                } else {
                    Err(
                        Error::Routing(
                            "Business API returned error: ".to_owned().concat(
                                resp.message.as_str(),
                            ),
                        ),
                    )
                }
            },
            None => Err(Error::Http("error decoding response body".to_owned())),
        }
    }

    /// Reads a reply of the backend, `retry_count` retries having been
    /// made, and says what to do next.
    pub fn fetch_from_business_api(&self, retry_count: u32, reply: BackendReply) -> (r: FetchStep)
        ensures
            r@ == fetch_step(self.max_retries(), retry_count, reply@),
    {
        let max_retries: u32 = self.business_api_config.retry_attempts;
        match reply {
            BackendReply::Answer { status, reason, body } => {
                if 200 <= status && status <= 299 {
                    let parsed: Option<RouteResponse> = match Json::parse(body.as_slice()) {
                        Ok(j) => RouteResponse::from_json(&j),
                        Err(_) => None,
                    };
                    FetchStep::Done(Router::read_route_response(parsed))
                } else if 500 <= status && status <= 599 && retry_count < max_retries {
                    FetchStep::Retry {
                        retry_count: retry_count + 1,
                        delay_ms: RETRY_DELAY_MS * ((retry_count + 1) as u64),
                    }
                } else {
                    let code = string_of(&decimal_chars(status as u64));
                    FetchStep::Done(
                        Err(
                            Error::Routing(
                                "Business API returned status: ".to_owned().concat(
                                    code.as_str(),
                                ).concat(" ").concat(reason.as_str()),
                            ),
                        ),
                    )
                }
            },
            BackendReply::TransportError(text) => {
                if retry_count < max_retries {
                    FetchStep::Retry {
                        retry_count: retry_count + 1,
                        delay_ms: RETRY_DELAY_MS * ((retry_count + 1) as u64),
                    }
                } else {
                    FetchStep::Done(Err(Error::Http(text)))
                }
            },
        }
    }

    /// Keeps the routes that the backend gave, at time `now`; an empty
    /// list is not kept.
    pub fn store_routes_at(
        &mut self,
        user_token: &str,
        requested_model: &str,
        configs: &Vec<RouteConfig>,
        now: u64,
    )
        ensures
            final(self).cache_view() == (if configs@.len() > 0 {
                old(self).cache_view().set(
                    user_token@,
                    requested_model@,
                    routes_view(configs@),
                    now,
                )
            } else {
                old(self).cache_view()
            }),
            final(self).base_url() == old(self).base_url(),
            final(self).max_retries() == old(self).max_retries(),
    {
        if configs.len() > 0 {
            self.cache.set_at(
                user_token,
                requested_model,
                crate::models::clone_routes(configs),
                now,
            );
        }
    }

    /// Keeps the routes that the backend gave, at the time that the
    /// cache's clock shows.
    pub fn store_routes(
        &mut self,
        user_token: &str,
        requested_model: &str,
        configs: &Vec<RouteConfig>,
    )
        ensures
            final(self).base_url() == old(self).base_url(),
            final(self).max_retries() == old(self).max_retries(),
            configs@.len() == 0 ==> final(self).cache_view() == old(self).cache_view(),
            configs@.len() > 0 ==> exists|now: u64|
                final(self).cache_view() == #[trigger] old(self).cache_view().set(
                    user_token@,
                    requested_model@,
                    routes_view(configs@),
                    now,
                ),
    {
        let now: u64 = self.cache.now();
        self.store_routes_at(user_token, requested_model, configs, now)
    }

    /// Takes a candidate that failed out of the cached list.
    pub fn remove_failed_route(
        &mut self,
        user_token: &str,
        requested_model: &str,
        failed_config: &RouteConfig,
    )
        ensures
            final(self).cache_view() == old(self).cache_view().remove_config(
                user_token@,
                requested_model@,
                failed_config@,
            ),
            final(self).base_url() == old(self).base_url(),
            final(self).max_retries() == old(self).max_retries(),
    {
        self.cache.remove_config(user_token, requested_model, failed_config);
    }
}

} // verus!
