//! What is reported to the business backend: where each report goes and
//! what it holds.  Posting is left to the caller, who does not wait for the
//! outcome: a lost report must not touch the request it is about.

use crate::json::json_text;
use crate::models::{encode_error_event, encode_usage_event, ErrorEvent, UsageEvent};
use vstd::prelude::*;
use vstd::string::StringExecFns;
use vstd::utf8::encode_utf8;

verus! {

/// Limit on a telemetry request: 5 s.
pub const TELEMETRY_TIMEOUT_MS: u64 = 5000;

/// A report ready to be posted.
#[derive(Debug)]
pub struct TelemetryPost {
    pub url: String,
    /// The report as JSON.
    pub body: Vec<u8>,
}

/// The reporter.
#[derive(Debug)]
pub struct TelemetryModule {
    business_api_url: String,
}

impl TelemetryModule {
    /// The base URL of the business backend.
    pub closed spec fn base(&self) -> Seq<char> {
        self.business_api_url@
    }

    pub fn new(business_api_url: String) -> (r: TelemetryModule)
        ensures
            r.base() == business_api_url@,
    {
        TelemetryModule { business_api_url }
    }

    /// The post that reports a failed upstream attempt.
    pub fn report_error(&self, event: &ErrorEvent) -> (r: TelemetryPost)
        ensures
            r.url@ == self.base() + "/v1/telemetry/errors"@,
            r.body@ == encode_utf8(json_text(encode_error_event(event@))),
    {
        TelemetryPost {
            url: self.business_api_url.clone().concat("/v1/telemetry/errors"),
            body: event.to_json().to_text().as_str().as_bytes_vec(),
        }
    }

    /// The post that reports token usage.
    pub fn report_usage(&self, event: &UsageEvent) -> (r: TelemetryPost)
        ensures
            r.url@ == self.base() + "/v1/telemetry/usage"@,
            r.body@ == encode_utf8(json_text(encode_usage_event(event@))),
    {
        TelemetryPost {
            url: self.business_api_url.clone().concat("/v1/telemetry/usage"),
            body: event.to_json().to_text().as_str().as_bytes_vec(),
        }
    }
}

} // verus!
