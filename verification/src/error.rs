//! The gateway's error type.

use vstd::prelude::*;
use vstd::string::StringExecFns;

verus! {

/// What went wrong, without the detail text.
#[derive(Debug, Clone, Copy, PartialEq, Eq, Structural)]
pub enum ErrorKind {
    Config,
    Protocol,
    Routing,
    Proxy,
    Cache,
    Telemetry,
    Http,
    Serialization,
    Io,
    Unknown,
}

/// An error with its detail text.
///
/// `Protocol` is a failed rewrite or validation of a body, `Routing` a
/// failure of the business backend, `Proxy` an upstream HTTP failure whose
/// text embeds the status, `Http` a transport failure, `Serialization` a body
/// that is no JSON of the expected shape.
#[derive(Debug)]
pub enum Error {
    Config(String),
    Protocol(String),
    Routing(String),
    Proxy(String),
    Cache(String),
    Telemetry(String),
    Http(String),
    Serialization(String),
    Io(String),
    Unknown(String),
}

/// The mathematical value of an `Error`.
pub struct ErrorView {
    pub kind: ErrorKind,
    pub detail: Seq<char>,
}

impl View for Error {
    type V = ErrorView;

    open spec fn view(&self) -> ErrorView {
        match self {
            Error::Config(d) => ErrorView { kind: ErrorKind::Config, detail: d@ },
            Error::Protocol(d) => ErrorView { kind: ErrorKind::Protocol, detail: d@ },
            Error::Routing(d) => ErrorView { kind: ErrorKind::Routing, detail: d@ },
            Error::Proxy(d) => ErrorView { kind: ErrorKind::Proxy, detail: d@ },
            Error::Cache(d) => ErrorView { kind: ErrorKind::Cache, detail: d@ },
            Error::Telemetry(d) => ErrorView { kind: ErrorKind::Telemetry, detail: d@ },
            Error::Http(d) => ErrorView { kind: ErrorKind::Http, detail: d@ },
            Error::Serialization(d) => ErrorView { kind: ErrorKind::Serialization, detail: d@ },
            Error::Io(d) => ErrorView { kind: ErrorKind::Io, detail: d@ },
            Error::Unknown(d) => ErrorView { kind: ErrorKind::Unknown, detail: d@ },
        }
    }
}

/// The words that introduce the detail in an error's message.
pub open spec fn kind_prefix(kind: ErrorKind) -> Seq<char> {
    match kind {
        ErrorKind::Config => "Configuration error: "@,
        ErrorKind::Protocol => "Protocol error: "@,
        ErrorKind::Routing => "Routing error: "@,
        ErrorKind::Proxy => "Proxy error: "@,
        ErrorKind::Cache => "Cache error: "@,
        ErrorKind::Telemetry => "Telemetry error: "@,
        ErrorKind::Http => "HTTP error: "@,
        ErrorKind::Serialization => "Serialization error: "@,
        ErrorKind::Io => "IO error: "@,
        ErrorKind::Unknown => "Unknown error: "@,
    }
}

impl ErrorView {
    /// The full message: the kind's words, then the detail.
    pub open spec fn message(self) -> Seq<char> {
        kind_prefix(self.kind) + self.detail
    }
}

fn prefix_of(kind: ErrorKind) -> (r: &'static str)
    ensures
        r@ == kind_prefix(kind),
{
    match kind {
        ErrorKind::Config => "Configuration error: ",
        ErrorKind::Protocol => "Protocol error: ",
        ErrorKind::Routing => "Routing error: ",
        ErrorKind::Proxy => "Proxy error: ",
        ErrorKind::Cache => "Cache error: ",
        ErrorKind::Telemetry => "Telemetry error: ",
        ErrorKind::Http => "HTTP error: ",
        ErrorKind::Serialization => "Serialization error: ",
        ErrorKind::Io => "IO error: ",
        ErrorKind::Unknown => "Unknown error: ",
    }
}

impl Error {
    pub fn kind(&self) -> (r: ErrorKind)
        ensures
            r == self@.kind,
    {
        match self {
            Error::Config(_) => ErrorKind::Config,
            Error::Protocol(_) => ErrorKind::Protocol,
            Error::Routing(_) => ErrorKind::Routing,
            Error::Proxy(_) => ErrorKind::Proxy,
            Error::Cache(_) => ErrorKind::Cache,
            Error::Telemetry(_) => ErrorKind::Telemetry,
            Error::Http(_) => ErrorKind::Http,
            Error::Serialization(_) => ErrorKind::Serialization,
            Error::Io(_) => ErrorKind::Io,
            Error::Unknown(_) => ErrorKind::Unknown,
        }
    }

    pub fn detail(&self) -> (r: &String)
        ensures
            r@ == self@.detail,
    {
        match self {
            Error::Config(d) => d,
            Error::Protocol(d) => d,
            Error::Routing(d) => d,
            Error::Proxy(d) => d,
            Error::Cache(d) => d,
            Error::Telemetry(d) => d,
            Error::Http(d) => d,
            Error::Serialization(d) => d,
            Error::Io(d) => d,
            Error::Unknown(d) => d,
        }
    }

    /// The message shown to people and sent with error reports.
    pub fn message(&self) -> (r: String)
        ensures
            r@ == self@.message(),
    {
        prefix_of(self.kind()).to_owned().concat(self.detail().as_str())
    }
}

} // verus!
