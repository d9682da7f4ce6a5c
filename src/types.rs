//! The data model shared by the request and response sides of a relay call.
use vstd::prelude::*;

verus! {

/// A query parameter as an editor shows it: a key, a display name and a value.
#[derive(Debug, Clone)]
pub struct ParameterSchema {
    pub id: String,
    pub name: String,
    pub value: String,
}

/// A header entry: `id` is the lower-cased key used for lookup, `name` keeps the
/// name as it was written, `value` its value.
#[derive(Debug, Clone)]
pub struct HeaderSchema {
    pub id: String,
    pub name: String,
    pub value: String,
}

/// The body that a caller supplies with a request.
#[derive(Debug, Clone)]
pub struct RequestBody {
    pub content_type: Option<String>,
    pub content: Option<String>,
}

/// The kinds of authorization a request description can name.
#[derive(Debug, Clone, Copy, PartialEq, Eq)]
pub enum AuthorizationType {
    NoAuth,
    Basic,
    Bearer,
    ApiKey,
    OAuth2,
    Custom,
}

/// Authorization data of a request description; the relay does not read it.
#[derive(Debug, Clone)]
pub enum Authorization {
    NoAuth,
    Basic { username: String, password: String },
    Bearer { token: String },
    ApiKey { key: String },
    OAuth2 { token: String },
    Custom { token: String },
}

/// The request methods the relay knows.
#[allow(clippy::upper_case_acronyms)]
#[derive(Debug, Clone, Copy, PartialEq, Eq, Structural)]
pub enum RequestMethod {
    GET,
    POST,
    PUT,
    DELETE,
    PATCH,
    OPTIONS,
    HEAD,
}

/// Methods that never carry a request body.
pub open spec fn bodyless(m: RequestMethod) -> bool {
    m == RequestMethod::GET || m == RequestMethod::HEAD || m == RequestMethod::OPTIONS
}

pub open spec fn method_name(m: RequestMethod) -> Seq<char> {
    match m {
        RequestMethod::GET => "GET"@,
        RequestMethod::POST => "POST"@,
        RequestMethod::PUT => "PUT"@,
        RequestMethod::DELETE => "DELETE"@,
        RequestMethod::PATCH => "PATCH"@,
        RequestMethod::OPTIONS => "OPTIONS"@,
        RequestMethod::HEAD => "HEAD"@,
    }
}

impl RequestMethod {
    /// The method's token as it goes on the wire.
    pub fn as_str(&self) -> (r: &'static str)
        ensures
            r@ == method_name(*self),
    {
        match self {
            RequestMethod::GET => "GET",
            RequestMethod::POST => "POST",
            RequestMethod::PUT => "PUT",
            RequestMethod::DELETE => "DELETE",
            RequestMethod::PATCH => "PATCH",
            RequestMethod::OPTIONS => "OPTIONS",
            RequestMethod::HEAD => "HEAD",
        }
    }

    /// Whether a request with this method may carry a body.
    pub fn allows_body(&self) -> (r: bool)
        ensures
            r == !bodyless(*self),
    {
        !matches!(self, RequestMethod::GET | RequestMethod::HEAD | RequestMethod::OPTIONS)
    }
}

/// A scalar value from a caller's header or parameter map: a string, a number
/// held by its decimal text, a boolean, or any other value held by its text.
#[derive(Debug, Clone)]
pub enum ScalarValue {
    Text(String),
    Number(String),
    Bool(bool),
    Other(String),
}

/// The text form of a scalar value.
pub open spec fn scalar_text(v: ScalarValue) -> Seq<char> {
    match v {
        ScalarValue::Text(s) => s@,
        ScalarValue::Number(s) => s@,
        ScalarValue::Bool(b) => if b {
            "true"@
        } else {
            "false"@
        },
        ScalarValue::Other(s) => s@,
    }
}

impl ScalarValue {
    /// The text form of the value, as it goes into a query string.
    pub fn to_text(&self) -> (r: String)
        ensures
            r@ == scalar_text(*self),
    {
        match self {
            ScalarValue::Text(s) => s.clone(),
            ScalarValue::Number(s) => s.clone(),
            ScalarValue::Bool(b) => if *b {
                String::from_str("true")
            } else {
                String::from_str("false")
            },
            ScalarValue::Other(s) => s.clone(),
        }
    }
}

/// A request description: the target URL, the method, the caller's headers and
/// query parameters in the order given, and the body.
#[derive(Debug, Clone)]
pub struct Request {
    pub url: String,
    pub method: RequestMethod,
    pub headers: Vec<(String, ScalarValue)>,
    pub body: RequestBody,
    pub params: Vec<(String, ScalarValue)>,
}

/// The timing of one relay call, in microseconds, and what was transferred.
#[derive(Debug, Clone)]
pub struct ResponsePerformance {
    pub duration: u64,
    pub latency: u64,
    pub processing_time: u64,
    pub transfer_time: u64,
    pub transfer_size: usize,
    pub transfer_encoding: String,
}

/// A relayed response: headers keyed by lower-cased name, the content type
/// without parameters, the status code, the body text and the timing.
#[derive(Debug, Clone)]
pub struct Response {
    pub headers: Vec<HeaderSchema>,
    pub content_type: Option<String>,
    pub status_code: u16,
    pub content: String,
    pub performance: ResponsePerformance,
}

/// The envelope handed back for every relay call: `status` is `success` with a
/// response, or `error` with a message; `timestamp` is the completion time.
#[derive(Debug, Clone)]
pub struct RelayResponse {
    pub status: String,
    pub response: Option<Response>,
    pub message: Option<String>,
    pub timestamp: String,
}

} // verus!
