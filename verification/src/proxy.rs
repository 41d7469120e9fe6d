//! The forwarder's rules: which client settings the two upstream clients
//! get, where a request goes, which headers it carries, and what an upstream
//! answer means.  Sending is left to the caller.

use crate::config::ProxyConfig;
use crate::error::{Error, ErrorKind};
use crate::models::{ProtocolView, RouteConfig, RouteConfigView, TargetProtocol};
use crate::text::{
    chars_of, contains, contains_text, decimal, decimal_chars, ends_with, ends_with_text,
    eq_chars, lower_chars, lower_text, same_text, string_of, lossy_text, utf8_lossy,
};
use vstd::prelude::*;
use vstd::string::StringExecFns;

verus! {

/// Idle connections are closed after 60 s.
pub const POOL_IDLE_TIMEOUT_MS: u64 = 60000;

/// Keep-alive probes are sent every 30 s.
pub const TCP_KEEPALIVE_MS: u64 = 30000;

/// Settings of one HTTP client, in milliseconds where they are times.
#[derive(Debug, Clone, Copy, PartialEq, Eq, Structural)]
pub struct ClientSettings {
    /// Limit on a whole request; `None` for no limit.
    pub timeout: Option<u64>,
    pub pool_max_idle_per_host: usize,
    pub pool_idle_timeout: u64,
    /// Interval of TCP keep-alive probes; `None` to send none.
    pub tcp_keepalive: Option<u64>,
}

/// The settings of the forwarder's two clients.
#[derive(Debug, Clone, Copy, PartialEq, Eq, Structural)]
pub struct ProxyForwarder {
    /// For unary requests: honours the configured timeout.
    pub unary: ClientSettings,
    /// For streams: the same pool and keep-alive, but no limit on the
    /// whole request, since a stream may last long.
    pub streaming: ClientSettings,
}

/// A request ready to be sent upstream.
#[derive(Debug)]
pub struct UpstreamRequest {
    pub url: String,
    pub headers: Vec<(String, String)>,
    pub body: Vec<u8>,
}

/// The values of a header list.
pub open spec fn headers_view(v: Seq<(String, String)>) -> Seq<(Seq<char>, Seq<char>)> {
    Seq::new(v.len(), |i: int| (v[i].0@, v[i].1@))
}

/// The endpoint without one trailing slash.
pub open spec fn base_url(endpoint: Seq<char>) -> Seq<char> {
    if endpoint.len() > 0 && endpoint.last() == '/' {
        endpoint.drop_last()
    } else {
        endpoint
    }
}

/// The path below the base URL.  A base that already ends in `/v1` gets
/// the short path.  The custom path `/v1/responses` selects the responses
/// API; any other custom path is taken as it is.  Without a custom path an
/// Anthropic upstream gets the messages API and every other upstream the
/// chat-completions API.
pub open spec fn upstream_path(
    base: Seq<char>,
    protocol: ProtocolView,
    custom_path: Option<Seq<char>>,
) -> Seq<char> {
    let versioned = ends_with(base, "/v1"@);
    match custom_path {
        Some(path) => if path == "/v1/responses"@ {
            if versioned {
                "/responses"@
            } else {
                "/v1/responses"@
            }
        } else {
            path
        },
        None => match protocol {
            ProtocolView::Anthropic => if versioned {
                "/messages"@
            } else {
                "/v1/messages"@
            },
            _ => if versioned {
                "/chat/completions"@
            } else {
                "/v1/chat/completions"@
            },
        },
    }
}

/// The URL that a request for `route` is sent to.
pub open spec fn upstream_url(route: RouteConfigView, custom_path: Option<Seq<char>>) -> Seq<char> {
    let base = base_url(route.api_endpoint);
    base + upstream_path(base, route.protocol, custom_path)
}

/// Whether a header of the client is kept from the upstream: the gateway
/// sets its own credentials, and the HTTP client its own framing.
pub open spec fn is_blocked(name: Seq<char>) -> bool {
    let n = lower_text(name);
    n == "authorization"@ || n == "host"@ || n == "content-length"@ || n == "transfer-encoding"@
        || n == "connection"@
}

/// The headers of the client that may go upstream, in order.
pub open spec fn forwardable(headers: Seq<(Seq<char>, Seq<char>)>) -> Seq<(Seq<char>, Seq<char>)>
    decreases headers.len(),
{
    if headers.len() == 0 {
        Seq::empty()
    } else {
        let rest = forwardable(headers.drop_last());
        if is_blocked(headers.last().0) {
            rest
        } else {
            rest.push(headers.last())
        }
    }
}

/// The headers without those named `name`, whatever the case.
pub open spec fn without_header(headers: Seq<(Seq<char>, Seq<char>)>, name: Seq<char>) -> Seq<
    (Seq<char>, Seq<char>),
>
    decreases headers.len(),
{
    if headers.len() == 0 {
        Seq::empty()
    } else {
        let rest = without_header(headers.drop_last(), name);
        if lower_text(headers.last().0) == lower_text(name) {
            rest
        } else {
            rest.push(headers.last())
        }
    }
}

/// The headers with `name` set to `value`, in place of any they had of
/// that name.
pub open spec fn with_header(
    headers: Seq<(Seq<char>, Seq<char>)>,
    name: Seq<char>,
    value: Seq<char>,
) -> Seq<(Seq<char>, Seq<char>)> {
    without_header(headers, name).push((name, value))
}

/// Whether a text can be a header value: tabs and anything from the space
/// on, but DEL.
pub open spec fn is_header_value(s: Seq<char>) -> bool {
    forall|i: int| 0 <= i < s.len() ==> #[trigger] header_char(s[i])
}

pub open spec fn header_char(c: char) -> bool {
    c == '\t' || (c as u32 >= 32 && c as u32 != 127)
}

/// The credentials header of an upstream: `x-api-key` for Anthropic,
/// `authorization` with a bearer token for every other protocol.
pub open spec fn auth_header(route: RouteConfigView) -> (Seq<char>, Seq<char>) {
    match route.protocol {
        ProtocolView::Anthropic => ("x-api-key"@, route.token),
        _ => ("authorization"@, "Bearer "@ + route.token),
    }
}

/// The headers sent upstream: the client's, with the upstream's
/// credentials and a JSON content type set.
pub open spec fn upstream_headers(
    route: RouteConfigView,
    client: Seq<(Seq<char>, Seq<char>)>,
) -> Seq<(Seq<char>, Seq<char>)> {
    let auth = auth_header(route);
    with_header(with_header(client, auth.0, auth.1), "content-type"@, "application/json"@)
}

/// Whether the status of an answer is a success.
pub open spec fn is_success(status: u16) -> bool {
    200 <= status <= 299
}

/// The text of a failed upstream answer with the given body text: the
/// status line, then the body.
pub open spec fn failure_line(status: u16, reason: Seq<char>, body_text: Seq<char>) -> Seq<char> {
    "Upstream returned error status "@ + decimal(status as nat) + " "@ + reason + ": "@ + body_text
}

/// The text of a failed upstream answer; the body is decoded leniently.
pub open spec fn failure_text(status: u16, reason: Seq<char>, body: Seq<u8>) -> Seq<char> {
    failure_line(status, reason, utf8_lossy(body))
}

/// Whether a text mentions one of the client-fault statuses.
pub open spec fn mentions_client_status(msg: Seq<char>) -> bool {
    contains(msg, "400"@) || contains(msg, "401"@) || contains(msg, "403"@) || contains(
        msg,
        "404"@,
    ) || contains(msg, "422"@) || contains(msg, "429"@)
}

/// Whether the client is at fault: a proxy error whose text mentions a
/// client-fault status.
pub open spec fn client_fault(kind: ErrorKind, detail: Seq<char>) -> bool {
    kind == ErrorKind::Proxy && mentions_client_status(detail)
}

/// The six statuses that count as the client's fault.
pub open spec fn is_client_status(status: u16) -> bool {
    status == 400 || status == 401 || status == 403 || status == 404 || status == 422 || status
        == 429
}

proof fn lemma_three_digits(n: nat, s: Seq<char>)
    requires
        100 <= n < 1000,
        s.len() == 3,
        s[0] == crate::text::digit(n / 100),
        s[1] == crate::text::digit((n / 10) % 10),
        s[2] == crate::text::digit(n % 10),
    ensures
        decimal(n) == s,
{
    reveal_with_fuel(decimal, 3);
    assert(decimal(n) =~= s);
}

/// The text of a failed answer mentions the answer's status.
pub proof fn lemma_failure_text_mentions_status(
    status: u16,
    reason: Seq<char>,
    body_text: Seq<char>,
    digits: Seq<char>,
)
    requires
        decimal(status as nat) == digits,
    ensures
        contains(failure_line(status, reason, body_text), digits),
{
    let head = "Upstream returned error status "@;
    let msg = failure_line(status, reason, body_text);
    let at = head.len() as int;
    assert(msg.subrange(at, at + digits.len()) =~= digits);
    assert(crate::text::occurs_at(msg, digits, at));
}

/// An answer with one of the six client-fault statuses is the client's
/// fault, whatever its body says.
pub proof fn lemma_client_status_is_client_fault(status: u16, reason: Seq<char>, body: Seq<u8>)
    requires
        is_client_status(status),
    ensures
        client_fault(ErrorKind::Proxy, failure_text(status, reason, body)),
{
    reveal_strlit("400");
    reveal_strlit("401");
    reveal_strlit("403");
    reveal_strlit("404");
    reveal_strlit("422");
    reveal_strlit("429");
    let text = utf8_lossy(body);
    if status == 400 {
        lemma_three_digits(400, "400"@);
        lemma_failure_text_mentions_status(status, reason, text, "400"@);
    } else if status == 401 {
        lemma_three_digits(401, "401"@);
        lemma_failure_text_mentions_status(status, reason, text, "401"@);
    } else if status == 403 {
        lemma_three_digits(403, "403"@);
        lemma_failure_text_mentions_status(status, reason, text, "403"@);
    } else if status == 404 {
        lemma_three_digits(404, "404"@);
        lemma_failure_text_mentions_status(status, reason, text, "404"@);
    } else if status == 422 {
        lemma_three_digits(422, "422"@);
        lemma_failure_text_mentions_status(status, reason, text, "422"@);
    } else {
        lemma_three_digits(429, "429"@);
        lemma_failure_text_mentions_status(status, reason, text, "429"@);
    }
}

fn header_char_ok(c: char) -> (r: bool)
    ensures
        r == header_char(c),
{
    c == '\t' || (c as u32 >= 32 && c as u32 != 127)
}

/// Whether a text can be a header value.
pub fn header_value_ok(s: &str) -> (r: bool)
    ensures
        r == is_header_value(s@),
{
    let v = chars_of(s);
    let mut i: usize = 0;
    while i < v.len()
        invariant
            i <= v.len(),
            v@ == s@,
            forall|k: int| 0 <= k < i ==> #[trigger] header_char(s@[k]),
        decreases v.len() - i,
    {
        if !header_char_ok(v[i]) {
            return false;
        }
        i += 1;
    }
    true
}

/// Whether two header names are the same, whatever the case.
pub fn same_header_name(a: &str, b: &str) -> (r: bool)
    ensures
        r == (lower_text(a@) == lower_text(b@)),
{
    let x = lower_chars(a);
    let y = lower_chars(b);
    eq_chars(&x, &y)
}

fn name_is(lowered: &Vec<char>, name: &str) -> (r: bool)
    ensures
        r == (lowered@ == name@),
{
    let n = chars_of(name);
    eq_chars(lowered, &n)
}

/// Whether a header of the client is kept from the upstream.
pub fn blocked_header(name: &str) -> (r: bool)
    ensures
        r == is_blocked(name@),
{
    let n = lower_chars(name);
    name_is(&n, "authorization") || name_is(&n, "host") || name_is(&n, "content-length")
        || name_is(&n, "transfer-encoding") || name_is(&n, "connection")
}

/// The headers of the client that may go upstream.
pub fn filter_client_headers(headers: &Vec<(String, String)>) -> (r: Vec<(String, String)>)
    ensures
        headers_view(r@) == forwardable(headers_view(headers@)),
{
    let mut out: Vec<(String, String)> = Vec::new();
    let mut i: usize = 0;
    assert(headers_view(headers@).take(0) =~= Seq::empty());
    assert(headers_view(out@) =~= Seq::empty());
    while i < headers.len()
        invariant
            i <= headers.len(),
            headers_view(out@) == forwardable(headers_view(headers@).take(i as int)),
        decreases headers.len() - i,
    {
        let ghost all = headers_view(headers@);
        let ghost before = headers_view(out@);
        proof {
            assert(all.take(i + 1).drop_last() =~= all.take(i as int));
            assert(all.take(i + 1).last() == all[i as int]);
        }
        if !blocked_header(headers[i].0.as_str()) {
            out.push((headers[i].0.clone(), headers[i].1.clone()));
            assert(headers_view(out@) =~= before.push(all[i as int]));
        }
        i += 1;
    }
    assert(headers_view(headers@).take(headers.len() as int) =~= headers_view(headers@));
    out
}

/// The headers with `name` set to `value`.
pub fn set_header(headers: &Vec<(String, String)>, name: &str, value: String) -> (r: Vec<
    (String, String),
>)
    ensures
        headers_view(r@) == with_header(headers_view(headers@), name@, value@),
{
    let mut out: Vec<(String, String)> = Vec::new();
    let mut i: usize = 0;
    assert(headers_view(headers@).take(0) =~= Seq::empty());
    assert(headers_view(out@) =~= Seq::empty());
    while i < headers.len()
        invariant
            i <= headers.len(),
            headers_view(out@) == without_header(headers_view(headers@).take(i as int), name@),
        decreases headers.len() - i,
    {
        let ghost all = headers_view(headers@);
        let ghost before = headers_view(out@);
        proof {
            assert(all.take(i + 1).drop_last() =~= all.take(i as int));
            assert(all.take(i + 1).last() == all[i as int]);
        }
        if !same_header_name(headers[i].0.as_str(), name) {
            out.push((headers[i].0.clone(), headers[i].1.clone()));
            assert(headers_view(out@) =~= before.push(all[i as int]));
        }
        i += 1;
    }
    assert(headers_view(headers@).take(headers.len() as int) =~= headers_view(headers@));
    let ghost kept = headers_view(out@);
    out.push((name.to_owned(), value));
    assert(headers_view(out@) =~= kept.push((name@, value@)));
    out
}

impl ProxyForwarder {
    /// The settings of the two clients for a configuration.
    pub fn new(config: &ProxyConfig) -> (r: ProxyForwarder)
        ensures
            r.unary == (ClientSettings {
                timeout: Some(config.timeout),
                pool_max_idle_per_host: config.max_connections,
                pool_idle_timeout: POOL_IDLE_TIMEOUT_MS,
                tcp_keepalive: if config.keep_alive {
                    Some(TCP_KEEPALIVE_MS)
                } else {
                    None
                },
            }),
            r.streaming == (ClientSettings { timeout: None, ..r.unary }),
    {
        let keepalive: Option<u64> = if config.keep_alive {
            Some(TCP_KEEPALIVE_MS)
        } else {
            None
        };
        ProxyForwarder {
            unary: ClientSettings {
                timeout: Some(config.timeout),
                pool_max_idle_per_host: config.max_connections,
                pool_idle_timeout: POOL_IDLE_TIMEOUT_MS,
                tcp_keepalive: keepalive,
            },
            streaming: ClientSettings {
                timeout: None,
                pool_max_idle_per_host: config.max_connections,
                pool_idle_timeout: POOL_IDLE_TIMEOUT_MS,
                tcp_keepalive: keepalive,
            },
        }
    }

    /// The URL that a request for `route` is sent to.
    pub fn url_for(&self, route: &RouteConfig, custom_path: Option<&str>) -> (r: String)
        ensures
            r@ == upstream_url(
                route@,
                match custom_path {
                    Some(p) => Some(p@),
                    None => None,
                },
            ),
    {
        let endpoint = chars_of(route.api_endpoint.as_str());
        let n: usize = endpoint.len();
        let base: String = if n > 0 && endpoint[n - 1] == '/' {
            let mut cut = endpoint;
            cut.pop();
            assert(cut@ =~= route.api_endpoint@.drop_last());
            string_of(&cut)
        } else {
            route.api_endpoint.clone()
        };
        let versioned: bool = ends_with_text(base.as_str(), "/v1");
        let path: &str = match custom_path {
            Some(p) => {
                if same_text(p, "/v1/responses") {
                    if versioned {
                        "/responses"
                    } else {
                        "/v1/responses"
                    }
                } else {
                    p
                }
            },
            None => match &route.protocol {
                TargetProtocol::Anthropic => if versioned {
                    "/messages"
                } else {
                    "/v1/messages"
                },
                _ => if versioned {
                    "/chat/completions"
                } else {
                    "/v1/chat/completions"
                },
            },
        };
        base.concat(path)
    }

    /// The headers sent upstream, or the error for a credential that
    /// cannot stand in a header.
    pub fn headers_for(&self, route: &RouteConfig, client_headers: &Vec<(String, String)>) -> (r:
        Result<Vec<(String, String)>, Error>)
        ensures
            match r {
                Ok(h) => is_header_value(auth_header(route@).1) && headers_view(h@)
                    == upstream_headers(route@, headers_view(client_headers@)),
                Err(e) => !is_header_value(auth_header(route@).1) && e@.kind == ErrorKind::Proxy
                    && e@.detail == "Invalid token format"@,
            },
    {
        let (name, value): (&str, String) = match &route.protocol {
            TargetProtocol::Anthropic => ("x-api-key", route.token.clone()),
            _ => ("authorization", "Bearer ".to_owned().concat(route.token.as_str())),
        };
        if !header_value_ok(value.as_str()) {
            return Err(Error::Proxy("Invalid token format".to_owned()));
        }
        let with_auth = set_header(client_headers, name, value);
        Ok(set_header(&with_auth, "content-type", "application/json".to_owned()))
    }

    /// The request to send upstream for `route`.
    pub fn send_request(
        &self,
        route: &RouteConfig,
        request_body: Vec<u8>,
        custom_path: Option<&str>,
        client_headers: &Vec<(String, String)>,
    ) -> (r: Result<UpstreamRequest, Error>)
        ensures
            match r {
                Ok(req) => {
                    &&& is_header_value(auth_header(route@).1)
                    &&& req.url@ == upstream_url(
                        route@,
                        match custom_path {
                            Some(p) => Some(p@),
                            None => None,
                        },
                    )
                    &&& headers_view(req.headers@) == upstream_headers(
                        route@,
                        headers_view(client_headers@),
                    )
                    &&& req.body@ == request_body@
                },
                Err(e) => !is_header_value(auth_header(route@).1) && e@.kind == ErrorKind::Proxy
                    && e@.detail == "Invalid token format"@,
            },
    {
        match self.headers_for(route, client_headers) {
            Ok(headers) => Ok(
                UpstreamRequest {
                    url: self.url_for(route, custom_path),
                    headers,
                    body: request_body,
                },
            ),
            Err(e) => Err(e),
        }
    }

    /// The proxy error for a failed upstream answer whose body reads as
    /// `body_text`.
    pub fn upstream_failure(status: u16, reason: &str, body_text: &str) -> (r: Error)
        ensures
            r@.kind == ErrorKind::Proxy,
            r@.detail == failure_line(status, reason@, body_text@),
    {
        let code = string_of(&decimal_chars(status as u64));
        Error::Proxy(
            "Upstream returned error status ".to_owned().concat(code.as_str()).concat(" ").concat(
                reason,
            ).concat(": ").concat(body_text),
        )
    }

    /// What an upstream answer means: the body of a success, or a proxy
    /// error whose text carries the status and the body.  `reason` is the
    /// status's standard phrase.
    pub fn process_response(&self, status: u16, reason: &str, body: Vec<u8>) -> (r: Result<
        Vec<u8>,
        Error,
    >)
        ensures
            match r {
                Ok(b) => is_success(status) && b@ == body@,
                Err(e) => !is_success(status) && e@.kind == ErrorKind::Proxy && e@.detail
                    == failure_text(status, reason@, body@),
            },
    {
        if 200 <= status && status <= 299 {
            Ok(body)
        } else {
            let text = lossy_text(body.as_slice());
            Err(ProxyForwarder::upstream_failure(status, reason, text.as_str()))
        }
    }

    /// Whether an error is the client's fault, so that trying another
    /// upstream is pointless.
    pub fn is_client_error(&self, error: &Error) -> (r: bool)
        ensures
            r == client_fault(error@.kind, error@.detail),
    {
        match error {
            Error::Proxy(msg) => {
                let m: &str = msg.as_str();
                contains_text(m, "400") || contains_text(m, "401") || contains_text(m, "403")
                    || contains_text(m, "404") || contains_text(m, "422") || contains_text(m, "429")
            },
            _ => false,
        }
    }
}

} // verus!
