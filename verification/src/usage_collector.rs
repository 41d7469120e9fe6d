//! A passive tap on an upstream SSE stream that picks the token counts out of
//! the events passing by.
//!
//! The collector never touches the bytes it is shown.  It gathers them until a
//! blank line ends an event, joins the event's `data:` lines, reads them as
//! JSON and looks for usage figures in the shape of the upstream's protocol.
//! It hands out at most one `UsageEvent` in its life.

use crate::json::{parsed_json, Json, JsonValue};
use crate::models::{
    ProtocolView, RouteConfig, RouteConfigView, TargetProtocol, UsageEvent, UsageEventView,
};
use crate::protocol::fields::{low_i32, low_i32_of};
use crate::text::same_text;
use vstd::prelude::*;
use vstd::utf8::valid_utf8;

verus! {

/// Size above which the event buffer is dropped: 1 MiB.
pub const MAX_BUFFER: usize = 1048576;

/// The token counts seen so far.
#[derive(Debug, Clone, Copy, PartialEq, Eq, Structural)]
pub struct TokenCounts {
    pub input: Option<i32>,
    pub output: Option<i32>,
}

/// The count under `key`, where it is an integer.
pub open spec fn count_at(u: JsonValue, key: Seq<char>) -> Option<i32> {
    match u.member(key).as_i64() {
        Some(n) => Some(low_i32(n)),
        None => None,
    }
}

/// `new` where it is known, else `old`.
pub open spec fn or_keep(new: Option<i32>, old: Option<i32>) -> Option<i32> {
    match new {
        Some(n) => Some(n),
        None => old,
    }
}

/// The count under `first` if the usage has such a member, else the one
/// under `second`.
pub open spec fn count_at_either(u: JsonValue, first: Seq<char>, second: Seq<char>) -> Option<i32> {
    if u.get(first) is Some {
        count_at(u, first)
    } else {
        count_at(u, second)
    }
}

/// What an Anthropic event tells: `message_start` the input tokens,
/// `message_delta` the running output tokens, `message_stop` that the counts
/// are final.
pub open spec fn after_anthropic(t: TokenCounts, d: JsonValue) -> (TokenCounts, bool) {
    let kind = d.member("type"@).as_str();
    if kind == Some("message_start"@) {
        (
            TokenCounts {
                input: or_keep(
                    count_at(d.member("message"@).member("usage"@), "input_tokens"@),
                    t.input,
                ),
                output: t.output,
            },
            false,
        )
    } else if kind == Some("message_delta"@) {
        (
            TokenCounts {
                input: t.input,
                output: or_keep(count_at(d.member("usage"@), "output_tokens"@), t.output),
            },
            false,
        )
    } else if kind == Some("message_stop"@) {
        (t, true)
    } else {
        (t, false)
    }
}

/// What an OpenAI chunk tells.  A `response.completed` or `response.done`
/// document carries the counts under `response.usage` and makes them final.
/// Any other document with a `usage` member carries them there, under the
/// chat-completions names or the responses names; its output count makes
/// them final.
pub open spec fn after_openai(t: TokenCounts, d: JsonValue) -> (TokenCounts, bool) {
    let kind = d.member("type"@).as_str();
    if kind == Some("response.completed"@) || kind == Some("response.done"@) {
        match d.member("response"@).get("usage"@) {
            Some(u) => (
                TokenCounts {
                    input: or_keep(count_at(u, "input_tokens"@), t.input),
                    output: or_keep(count_at(u, "output_tokens"@), t.output),
                },
                true,
            ),
            None => (t, false),
        }
    } else {
        match d.get("usage"@) {
            Some(u) => {
                let output = count_at_either(u, "completion_tokens"@, "output_tokens"@);
                (
                    TokenCounts {
                        input: or_keep(
                            count_at_either(u, "prompt_tokens"@, "input_tokens"@),
                            t.input,
                        ),
                        output: or_keep(output, t.output),
                    },
                    output is Some,
                )
            },
            None => (t, false),
        }
    }
}

/// What a document tells, by the upstream's protocol; the flag says that
/// the counts are final and may be reported.
pub open spec fn after_document(protocol: ProtocolView, t: TokenCounts, d: JsonValue) -> (
    TokenCounts,
    bool,
) {
    match protocol {
        ProtocolView::Anthropic => after_anthropic(t, d),
        _ => after_openai(t, d),
    }
}

/// Whether a line starts with `data:`.
pub open spec fn is_data_line(line: Seq<u8>) -> bool {
    line.len() >= 5 && line[0] == 100 && line[1] == 97 && line[2] == 116 && line[3] == 97
        && line[4] == 58
}

/// The data of an event, gathered byte by byte.
pub struct DataScan {
    /// The `data:` payloads of the complete lines, joined by newlines.
    pub data: Option<Seq<u8>>,
    /// The line that is being read.
    pub line: Seq<u8>,
}

/// `data` with the payload of `line` joined on, where `line` is a `data:`
/// line.
pub open spec fn join_line(data: Option<Seq<u8>>, line: Seq<u8>) -> Option<Seq<u8>> {
    if is_data_line(line) {
        match data {
            Some(d) => Some(d.push(10u8) + line.skip(5)),
            None => Some(line.skip(5)),
        }
    } else {
        data
    }
}

/// The scan after the bytes of `event`.
pub open spec fn scan(event: Seq<u8>) -> DataScan
    decreases event.len(),
{
    if event.len() == 0 {
        DataScan { data: None, line: Seq::empty() }
    } else {
        let before = scan(event.drop_last());
        if event.last() == 10 {
            DataScan { data: join_line(before.data, before.line), line: Seq::empty() }
        } else {
            DataScan { data: before.data, line: before.line.push(event.last()) }
        }
    }
}

/// The data of an event: what follows `data:` on each of its lines, joined
/// by newlines; `None` where no line starts with `data:`.
pub open spec fn event_data(event: Seq<u8>) -> Option<Seq<u8>> {
    join_line(scan(event).data, scan(event).line)
}

/// The JSON document of an event, where its data is one.  The `[DONE]`
/// marker is no JSON and so gives `None` like any other text.
pub open spec fn event_document(event: Seq<u8>) -> Option<JsonValue> {
    match event_data(event) {
        Some(data) => match parsed_json(data) {
            Ok(d) => Some(d),
            Err(_) => None,
        },
        None => None,
    }
}

/// The mathematical value of a collector.
pub struct CollectorView {
    pub request_id: Seq<char>,
    pub user_token: Seq<char>,
    pub route: RouteConfigView,
    pub counts: TokenCounts,
    /// Bytes of the event that is not yet complete.
    pub buffer: Seq<u8>,
    /// Whether the usage event has been handed out.
    pub reported: bool,
}

impl CollectorView {
    /// The usage event for the counts, where both are known.
    pub open spec fn usage_event(self) -> Option<UsageEventView> {
        match (self.counts.input, self.counts.output) {
            (Some(input), Some(output)) => Some(
                UsageEventView {
                    request_id: self.request_id,
                    token: self.user_token,
                    model: self.route.model,
                    api: self.route.api_endpoint,
                    input_tokens: input,
                    output_tokens: output,
                    model_id: self.route.model_id,
                    provider_id: self.route.provider_id,
                    provider_token_id: self.route.provider_token_id,
                },
            ),
            _ => None,
        }
    }

    /// The buffer holds no more than 1 MiB.  True of a new collector and
    /// kept by every chunk.
    pub open spec fn within_cap(self) -> bool {
        self.buffer.len() <= MAX_BUFFER
    }

    pub open spec fn with_counts(self, counts: TokenCounts) -> CollectorView {
        CollectorView {
            request_id: self.request_id,
            user_token: self.user_token,
            route: self.route,
            counts,
            buffer: self.buffer,
            reported: self.reported,
        }
    }

    pub open spec fn with_buffer(self, buffer: Seq<u8>) -> CollectorView {
        CollectorView {
            request_id: self.request_id,
            user_token: self.user_token,
            route: self.route,
            counts: self.counts,
            buffer,
            reported: self.reported,
        }
    }

    pub open spec fn with_reported(self) -> CollectorView {
        CollectorView {
            request_id: self.request_id,
            user_token: self.user_token,
            route: self.route,
            counts: self.counts,
            buffer: self.buffer,
            reported: true,
        }
    }

    /// A report: the usage event goes out once, when both counts are known.
    pub open spec fn report(self) -> (CollectorView, Option<UsageEventView>) {
        if !self.reported && self.usage_event() is Some {
            (self.with_reported(), self.usage_event())
        } else {
            (self, None)
        }
    }

    /// One JSON document: take its counts, and report if it makes them
    /// final.
    pub open spec fn document(self, d: JsonValue) -> (CollectorView, Option<UsageEventView>) {
        let (counts, last) = after_document(self.route.protocol, self.counts, d);
        if last {
            self.with_counts(counts).report()
        } else {
            (self.with_counts(counts), None)
        }
    }

    /// One complete event.
    pub open spec fn event(self, event: Seq<u8>) -> (CollectorView, Option<UsageEventView>) {
        match event_document(event) {
            Some(d) => self.document(d),
            None => (self, None),
        }
    }

    /// One byte of the stream: it joins the buffer, and the second of two
    /// newlines completes the event gathered there.
    pub open spec fn byte(self, b: u8) -> (CollectorView, Option<UsageEventView>) {
        let n = self.buffer.len();
        if b == 10 && n > 0 && self.buffer[n - 1] == 10 {
            self.with_buffer(Seq::empty()).event(self.buffer.take(n - 1))
        } else {
            (self.with_buffer(self.buffer.push(b)), None)
        }
    }

    /// A run of bytes, one after the other; the event handed out, if any.
    pub open spec fn feed(self, bytes: Seq<u8>) -> (CollectorView, Option<UsageEventView>)
        decreases bytes.len(),
    {
        if bytes.len() == 0 {
            (self, None)
        } else {
            let (v1, e1) = self.feed(bytes.drop_last());
            let (v2, e2) = v1.byte(bytes.last());
            (
                v2,
                match e1 {
                    Some(e) => Some(e),
                    None => e2,
                },
            )
        }
    }

    /// One chunk of the stream.  A chunk that is no UTF-8 is passed over.
    /// After the chunk a buffer above 1 MiB is dropped.
    pub open spec fn chunk(self, bytes: Seq<u8>) -> (CollectorView, Option<UsageEventView>) {
        if valid_utf8(bytes) {
            let (v, e) = self.feed(bytes);
            if v.buffer.len() > MAX_BUFFER {
                (v.with_buffer(Seq::empty()), e)
            } else {
                (v, e)
            }
        } else {
            (self, None)
        }
    }
}

/// Once the usage event is out, nothing a collector reads sends another.
pub proof fn lemma_reported_stays(v: CollectorView, bytes: Seq<u8>)
    requires
        v.reported,
    ensures
        v.feed(bytes).0.reported,
        v.feed(bytes).1 is None,
        v.chunk(bytes).0.reported,
        v.chunk(bytes).1 is None,
        v.report().1 is None,
    decreases bytes.len(),
{
    if bytes.len() > 0 {
        lemma_reported_stays(v, bytes.drop_last());
    }
}

/// A collector that hands out an event has reported.
pub proof fn lemma_event_sets_reported(v: CollectorView, bytes: Seq<u8>)
    ensures
        v.feed(bytes).1 is Some ==> v.feed(bytes).0.reported,
        v.chunk(bytes).1 is Some ==> v.chunk(bytes).0.reported,
        v.reported ==> v.feed(bytes).0.reported,
    decreases bytes.len(),
{
    if bytes.len() > 0 {
        let prev = bytes.drop_last();
        lemma_event_sets_reported(v, prev);
        let (v1, e1) = v.feed(prev);
        if v1.reported {
            let b = bytes.last();
            assert(v1.byte(b).0.reported);
        }
    }
}

/// The events handed out over a run of chunks and a last report.
pub open spec fn events_of_run(v: CollectorView, chunks: Seq<Seq<u8>>) -> (CollectorView, nat)
    decreases chunks.len(),
{
    if chunks.len() == 0 {
        (v, 0)
    } else {
        let (v1, n1) = events_of_run(v, chunks.drop_last());
        let (v2, e2) = v1.chunk(chunks.last());
        (
            v2,
            if e2 is Some {
                n1 + 1
            } else {
                n1
            },
        )
    }
}

/// The events handed out over a whole stream: its chunks, then the report
/// at its end.
pub open spec fn events_of_stream(v: CollectorView, chunks: Seq<Seq<u8>>) -> nat {
    let (v1, n1) = events_of_run(v, chunks);
    if v1.report().1 is Some {
        n1 + 1
    } else {
        n1
    }
}

proof fn lemma_run_counts(v: CollectorView, chunks: Seq<Seq<u8>>)
    ensures
        events_of_run(v, chunks).1 <= 1,
        events_of_run(v, chunks).1 == 1 ==> events_of_run(v, chunks).0.reported,
        v.reported ==> events_of_run(v, chunks).0.reported && events_of_run(v, chunks).1 == 0,
    decreases chunks.len(),
{
    if chunks.len() > 0 {
        let prev = chunks.drop_last();
        lemma_run_counts(v, prev);
        let (v1, n1) = events_of_run(v, prev);
        lemma_event_sets_reported(v1, chunks.last());
        if v1.reported {
            lemma_reported_stays(v1, chunks.last());
        }
    }
}

/// However a stream is cut into chunks and whatever it holds, a collector
/// hands out at most one usage event for it.
pub proof fn lemma_at_most_one_event(v: CollectorView, chunks: Seq<Seq<u8>>)
    ensures
        events_of_stream(v, chunks) <= 1,
{
    lemma_run_counts(v, chunks);
    let (v1, n1) = events_of_run(v, chunks);
    if v1.reported {
        assert(v1.report().1 is None);
    }
}

/// Whether two newlines stand at offset `i`.
pub open spec fn blank_line_at(bytes: Seq<u8>, i: int) -> bool {
    0 <= i && i + 1 < bytes.len() && bytes[i] == 10 && bytes[i + 1] == 10
}

/// A stream without a blank line completes no event: a collector that has
/// nothing buffered learns no counts from it and hands out nothing.
pub proof fn lemma_no_blank_line_no_event(v: CollectorView, bytes: Seq<u8>)
    requires
        v.buffer.len() == 0,
        forall|i: int| !#[trigger] blank_line_at(bytes, i),
    ensures
        v.feed(bytes).1 is None,
        v.feed(bytes).0 == v.with_buffer(bytes),
    decreases bytes.len(),
{
    if bytes.len() == 0 {
        assert(v.with_buffer(bytes) == v) by {
            assert(v.buffer =~= bytes);
        }
    } else {
        let prev = bytes.drop_last();
        let n = prev.len() as int;
        assert forall|i: int| !#[trigger] blank_line_at(prev, i) by {
            if blank_line_at(prev, i) {
                assert(blank_line_at(bytes, i));
            }
        }
        lemma_no_blank_line_no_event(v, prev);
        if n > 0 {
            assert(prev[n - 1] == bytes[n - 1]);
            assert(bytes.last() == bytes[n]);
            assert(!blank_line_at(bytes, n - 1));
        }
        assert(prev.push(bytes.last()) =~= bytes);
    }
}

/// Checks with `std::str::from_utf8` whether the bytes are well-formed
/// UTF-8.
#[verifier::external_body]
fn is_utf8(bytes: &[u8]) -> (r: bool)
    ensures
        r == valid_utf8(bytes@),
{
    std::str::from_utf8(bytes).is_ok()
}

/// The tap on one upstream stream.
pub struct StreamUsageCollector {
    request_id: String,
    user_token: String,
    route_config: RouteConfig,
    counts: TokenCounts,
    buffer: Vec<u8>,
    reported: bool,
}

impl View for StreamUsageCollector {
    type V = CollectorView;

    closed spec fn view(&self) -> CollectorView {
        CollectorView {
            request_id: self.request_id@,
            user_token: self.user_token@,
            route: self.route_config@,
            counts: self.counts,
            buffer: self.buffer@,
            reported: self.reported,
        }
    }
}

fn count_in(u: &Json, key: &str) -> (r: Option<i32>)
    ensures
        r == count_at(u@, key@),
{
    match u.get_i64(key) {
        Some(n) => Some(low_i32_of(n)),
        None => None,
    }
}

fn count_in_either(u: &Json, first: &str, second: &str) -> (r: Option<i32>)
    ensures
        r == count_at_either(u@, first@, second@),
{
    if u.get(first).is_some() {
        count_in(u, first)
    } else {
        count_in(u, second)
    }
}

fn keep(new: Option<i32>, old: Option<i32>) -> (r: Option<i32>)
    ensures
        r == or_keep(new, old),
{
    match new {
        Some(n) => Some(n),
        None => old,
    }
}

fn kind_is(d: &Json, name: &str) -> (r: bool)
    ensures
        r == (d@.member("type"@).as_str() == Some(name@)),
{
    match d.get_str("type") {
        Some(s) => same_text(s.as_str(), name),
        None => false,
    }
}

/// Reads the counts of an Anthropic event.
pub fn usage_from_anthropic(t: TokenCounts, d: &Json) -> (r: (TokenCounts, bool))
    ensures
        r == after_anthropic(t, d@),
{
    if kind_is(d, "message_start") {
        let found: Option<i32> = match d.get("message") {
            Some(m) => match m.get("usage") {
                Some(u) => count_in(u, "input_tokens"),
                None => None,
            },
            None => None,
        };
        (TokenCounts { input: keep(found, t.input), output: t.output }, false)
    } else if kind_is(d, "message_delta") {
        let found: Option<i32> = match d.get("usage") {
            Some(u) => count_in(u, "output_tokens"),
            None => None,
        };
        (TokenCounts { input: t.input, output: keep(found, t.output) }, false)
    } else if kind_is(d, "message_stop") {
        (t, true)
    } else {
        (t, false)
    }
}

/// Reads the counts of an OpenAI chunk.
pub fn usage_from_openai(t: TokenCounts, d: &Json) -> (r: (TokenCounts, bool))
    ensures
        r == after_openai(t, d@),
{
    if kind_is(d, "response.completed") || kind_is(d, "response.done") {
        let usage: Option<&Json> = match d.get("response") {
            Some(resp) => resp.get("usage"),
            None => None,
        };
        match usage {
            Some(u) => (
                TokenCounts {
                    input: keep(count_in(u, "input_tokens"), t.input),
                    output: keep(count_in(u, "output_tokens"), t.output),
                },
                true,
            ),
            None => (t, false),
        }
    } else {
        match d.get("usage") {
            Some(u) => {
                let output = count_in_either(u, "completion_tokens", "output_tokens");
                let input = count_in_either(u, "prompt_tokens", "input_tokens");
                (
                    TokenCounts { input: keep(input, t.input), output: keep(output, t.output) },
                    output.is_some(),
                )
            },
            None => (t, false),
        }
    }
}

/// Joins the payload of a `data:` line onto the data gathered so far.
fn join_data_line(data: Option<Vec<u8>>, line: &Vec<u8>) -> (r: Option<Vec<u8>>)
    ensures
        match r {
            Some(d) => join_line(
                match data {
                    Some(x) => Some(x@),
                    None => None,
                },
                line@,
            ) == Some(d@),
            None => join_line(
                match data {
                    Some(x) => Some(x@),
                    None => None,
                },
                line@,
            ) is None,
        },
{
    if line.len() >= 5 && line[0] == 100 && line[1] == 97 && line[2] == 116 && line[3] == 97
        && line[4] == 58 {
        let mut out: Vec<u8> = match data {
            Some(d) => {
                let mut d = d;
                d.push(10u8);
                d
            },
            None => Vec::new(),
        };
        let ghost head = out@;
        let mut i: usize = 5;
        while i < line.len()
            invariant
                5 <= i <= line.len(),
                out@ == head + line@.subrange(5, i as int),
            decreases line.len() - i,
        {
            out.push(line[i]);
            assert(line@.subrange(5, i + 1) =~= line@.subrange(5, i as int).push(line@[i as int]));
            i += 1;
        }
        assert(line@.subrange(5, line.len() as int) =~= line@.skip(5));
        assert(Seq::<u8>::empty() + line@.skip(5) =~= line@.skip(5));
        Some(out)
    } else {
        data
    }
}

/// The data of an event: what follows `data:` on each of its lines, joined
/// by newlines.
pub fn data_of_event(event: &[u8]) -> (r: Option<Vec<u8>>)
    ensures
        match r {
            Some(d) => event_data(event@) == Some(d@),
            None => event_data(event@) is None,
        },
{
    let mut data: Option<Vec<u8>> = None;
    let mut line: Vec<u8> = Vec::new();
    let mut i: usize = 0;
    assert(event@.take(0) =~= Seq::empty());
    while i < event.len()
        invariant
            i <= event.len(),
            line@ == scan(event@.take(i as int)).line,
            match data {
                Some(d) => scan(event@.take(i as int)).data == Some(d@),
                None => scan(event@.take(i as int)).data is None,
            },
        decreases event.len() - i,
    {
        proof {
            assert(event@.take(i + 1).drop_last() =~= event@.take(i as int));
            assert(event@.take(i + 1).last() == event@[i as int]);
        }
        if event[i] == 10 {
            data = join_data_line(data, &line);
            line = Vec::new();
        } else {
            line.push(event[i]);
        }
        i += 1;
    }
    assert(event@.take(event.len() as int) =~= event@);
    join_data_line(data, &line)
}

impl StreamUsageCollector {
    /// A collector for one upstream stream of `route_config`, on behalf of
    /// the request `request_id` of `user_token`.
    pub fn new(request_id: String, user_token: String, route_config: RouteConfig) -> (r: Self)
        ensures
            r@ == (CollectorView {
                request_id: request_id@,
                user_token: user_token@,
                route: route_config@,
                counts: TokenCounts { input: None, output: None },
                buffer: Seq::empty(),
                reported: false,
            }),
    {
        StreamUsageCollector {
            request_id,
            user_token,
            route_config,
            counts: TokenCounts { input: None, output: None },
            buffer: Vec::new(),
            reported: false,
        }
    }

    /// The counts seen so far.
    pub fn counts(&self) -> (r: TokenCounts)
        ensures
            r == self@.counts,
    {
        self.counts
    }

    /// Number of bytes held for the event that is not yet complete.
    pub fn buffered(&self) -> (r: usize)
        ensures
            r == self@.buffer.len(),
    {
        self.buffer.len()
    }

    /// Hands out the usage event if both counts are known and it has not
    /// gone out before.  Called when a document makes the counts final, and
    /// once more when the stream ends.
    pub fn report_usage(&mut self) -> (r: Option<UsageEvent>)
        ensures
            final(self)@ == old(self)@.report().0,
            match r {
                Some(e) => old(self)@.report().1 == Some(e@),
                None => old(self)@.report().1 is None,
            },
    {
        if self.reported {
            return None;
        }
        match (self.counts.input, self.counts.output) {
            (Some(input), Some(output)) => {
                self.reported = true;
                Some(
                    UsageEvent {
                        request_id: self.request_id.clone(),
                        token: self.user_token.clone(),
                        model: self.route_config.model.clone(),
                        api: self.route_config.api_endpoint.clone(),
                        input_tokens: input,
                        output_tokens: output,
                        model_id: self.route_config.model_id.clone(),
                        provider_id: self.route_config.provider_id.clone(),
                        provider_token_id: self.route_config.provider_token_id.clone(),
                    },
                )
            },
            _ => None,
        }
    }

    /// Takes the counts of one JSON document, read in the shape of the
    /// upstream's protocol, and reports if the document makes them final.
    pub fn extract_usage_from_json(&mut self, d: &Json) -> (r: Option<UsageEvent>)
        ensures
            final(self)@ == old(self)@.document(d@).0,
            match r {
                Some(e) => old(self)@.document(d@).1 == Some(e@),
                None => old(self)@.document(d@).1 is None,
            },
    {
        let (counts, last) = match &self.route_config.protocol {
            TargetProtocol::Anthropic => usage_from_anthropic(self.counts, d),
            _ => usage_from_openai(self.counts, d),
        };
        self.counts = counts;
        if last {
            self.report_usage()
        } else {
            None
        }
    }

    /// Takes one complete event, without the blank line that ends it.
    pub fn parse_and_process_sse_event(&mut self, event: &[u8]) -> (r: Option<UsageEvent>)
        ensures
            final(self)@ == old(self)@.event(event@).0,
            match r {
                Some(e) => old(self)@.event(event@).1 == Some(e@),
                None => old(self)@.event(event@).1 is None,
            },
    {
        match data_of_event(event) {
            Some(data) => match Json::parse(data.as_slice()) {
                Ok(d) => self.extract_usage_from_json(&d),
                Err(_) => None,
            },
            None => None,
        }
    }

    /// Shows the collector the next chunk of the stream.  The chunk itself
    /// is not changed; the usage event is handed out if this chunk made the
    /// counts final.
    pub fn process_chunk(&mut self, chunk: &[u8]) -> (r: Option<UsageEvent>)
        ensures
            final(self)@ == old(self)@.chunk(chunk@).0,
            match r {
                Some(e) => old(self)@.chunk(chunk@).1 == Some(e@),
                None => old(self)@.chunk(chunk@).1 is None,
            },
            old(self)@.within_cap() ==> final(self)@.within_cap(),
    {
        if !is_utf8(chunk) {
            return None;
        }
        let mut found: Option<UsageEvent> = None;
        let mut i: usize = 0;
        assert(chunk@.take(0) =~= Seq::empty());
        while i < chunk.len()
            invariant
                i <= chunk.len(),
                self@ == old(self)@.feed(chunk@.take(i as int)).0,
                match found {
                    Some(e) => old(self)@.feed(chunk@.take(i as int)).1 == Some(e@),
                    None => old(self)@.feed(chunk@.take(i as int)).1 is None,
                },
            decreases chunk.len() - i,
        {
            let b: u8 = chunk[i];
            let ghost before = self@;
            proof {
                assert(chunk@.take(i + 1).drop_last() =~= chunk@.take(i as int));
                assert(chunk@.take(i + 1).last() == b);
            }
            let n: usize = self.buffer.len();
            if b == 10 && n > 0 && self.buffer[n - 1] == 10 {
                let mut event: Vec<u8> = Vec::new();
                std::mem::swap(&mut event, &mut self.buffer);
                event.truncate(n - 1);
                assert(self@ == before.with_buffer(Seq::empty()));
                assert(event@ == before.buffer.take(n - 1));
                let e = self.parse_and_process_sse_event(event.as_slice());
                if found.is_none() {
                    found = e;
                }
            } else {
                self.buffer.push(b);
                assert(self@ == before.with_buffer(before.buffer.push(b)));
            }
            i += 1;
        }
        assert(chunk@.take(chunk.len() as int) =~= chunk@);
        if self.buffer.len() > MAX_BUFFER {
            self.buffer.clear();
            assert(self@ == old(self)@.feed(chunk@).0.with_buffer(Seq::empty()));
        }
        found
    }
}

} // verus!
