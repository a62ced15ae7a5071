//! The connection handler: it classifies a request by method and path and
//! turns requests and stream events into replies and actions. The owner of
//! the transport performs the actions and reports the events.

use vstd::prelude::*;
use vstd::utf8::encode_utf8;
use vstd::utf8::encode_utf8_decode_utf8;
use crate::codec::decimal;
use crate::codec::push_bytes;
use crate::codec::push_decimal;
use crate::codec::ContentKind;
use crate::error::SseError;

verus! {

/// The request methods that the broker tells apart.
#[derive(Clone, Copy, Debug, PartialEq, Eq, Structural)]
pub enum Method {
    Get,
    Post,
    Other,
}

/// How the transport delivers a request body.
#[derive(Clone, Copy, Debug, PartialEq, Eq, Structural)]
pub enum Body {
    /// With its length announced.
    Len(u64),
    /// As a stream of chunks.
    Chunked,
}

/// What a request asks for.
#[derive(Clone, Copy, Debug, PartialEq, Eq, Structural)]
pub enum Route {
    NotFound,
    Index,
    Subscribe,
    Publish(Body),
    Stats,
}

/// The body kind that goes with an announced length, or with none.
pub open spec fn body_kind(content_length: Option<u64>) -> Body {
    match content_length {
        Some(n) => Body::Len(n),
        None => Body::Chunked,
    }
}

/// The route of a method and a path.
pub open spec fn route_spec(method: Method, path: Seq<char>, content_length: Option<u64>) -> Route {
    match method {
        Method::Get => if path == "/"@ {
            Route::Index
        } else if path == "/subscribe"@ {
            Route::Subscribe
        } else if path == "/stats"@ {
            Route::Stats
        } else {
            Route::NotFound
        },
        Method::Post => if path == "/publish"@ {
            Route::Publish(body_kind(content_length))
        } else {
            Route::NotFound
        },
        Method::Other => Route::NotFound,
    }
}

fn same_bytes(x: &[u8], y: &[u8]) -> (same: bool)
    ensures
        same == (x@ == y@),
{
    if x.len() != y.len() {
        return false;
    }
    let n = x.len();
    let mut i: usize = 0;
    while i < n
        invariant
            i <= n,
            n == x@.len(),
            n == y@.len(),
            forall|j: int| 0 <= j < i ==> x@[j] == y@[j],
        decreases n - i,
    {
        if x[i] != y[i] {
            return false;
        }
        i += 1;
    }
    proof {
        assert(x@ =~= y@);
    }
    true
}

fn same_text(a: &str, b: &str) -> (same: bool)
    ensures
        same == (a@ == b@),
{
    proof {
        encode_utf8_decode_utf8(a@);
        encode_utf8_decode_utf8(b@);
    }
    same_bytes(a.as_bytes(), b.as_bytes())
}

/// Classifies a request by its method and path.
pub fn route(method: Method, path: &str, content_length: Option<u64>) -> (r: Route)
    ensures
        r == route_spec(method, path@, content_length),
{
    match method {
        Method::Get => {
            if same_text(path, "/") {
                Route::Index
            } else if same_text(path, "/subscribe") {
                Route::Subscribe
            } else if same_text(path, "/stats") {
                Route::Stats
            } else {
                Route::NotFound
            }
        },
        Method::Post => {
            if same_text(path, "/publish") {
                match content_length {
                    Some(n) => Route::Publish(Body::Len(n)),
                    None => Route::Publish(Body::Chunked),
                }
            } else {
                Route::NotFound
            }
        },
        Method::Other => Route::NotFound,
    }
}

/// The head of the answer that opens an event stream; its body is what is
/// written to the stream afterwards.
#[derive(Clone, Copy, Debug, PartialEq, Eq, Structural)]
pub struct StreamHead {
    pub status: u16,
    pub content_type: ContentKind,
}

/// The head of every event stream: status 200, `text/event-stream`.
pub open spec fn event_stream_head() -> StreamHead {
    StreamHead { status: 200, content_type: ContentKind::EventStream }
}

impl StreamHead {
    /// The head of every event stream.
    pub fn event_stream() -> (head: StreamHead)
        ensures
            head == event_stream_head(),
    {
        StreamHead { status: 200, content_type: ContentKind::EventStream }
    }
}

/// A response that is sent in one piece.
#[derive(Debug)]
pub struct Response {
    pub status: u16,
    pub content_type: ContentKind,
    pub body: Vec<u8>,
}

/// A response as plain values.
pub struct ResponseView {
    pub status: u16,
    pub content_type: ContentKind,
    pub body: Seq<u8>,
}

impl View for Response {
    type V = ResponseView;

    open spec fn view(&self) -> ResponseView {
        ResponseView { status: self.status, content_type: self.content_type, body: self.body@ }
    }
}

/// The index page.
pub open spec fn index_view() -> ResponseView {
    ResponseView {
        status: 200,
        content_type: ContentKind::Html,
        body: encode_utf8("<a href=\"test.html\">test.html</a>"@),
    }
}

/// The answer to a request that has no route.
pub open spec fn not_found_view() -> ResponseView {
    ResponseView { status: 404, content_type: ContentKind::Text, body: encode_utf8("Not Found"@) }
}

/// The answer to a publish request with an unusable body.
pub open spec fn bad_request_view() -> ResponseView {
    ResponseView {
        status: 400,
        content_type: ContentKind::Text,
        body: encode_utf8("Bad Request"@),
    }
}

/// The answer to a publish request without the right secret.
pub open spec fn unauthorized_view() -> ResponseView {
    ResponseView {
        status: 401,
        content_type: ContentKind::Text,
        body: encode_utf8("Unauthorized"@),
    }
}

/// The answer where the broker itself is at fault.
pub open spec fn internal_error_view() -> ResponseView {
    ResponseView {
        status: 500,
        content_type: ContentKind::Text,
        body: encode_utf8("Internal Server Error"@),
    }
}

/// The statistics as JSON text.
pub open spec fn stats_text(subscribers: nat, published: nat) -> Seq<u8> {
    encode_utf8("{\"subscribers\":"@) + decimal(subscribers) + encode_utf8(",\"published\":"@)
        + decimal(published) + encode_utf8("}"@)
}

/// The answer to a request for the statistics.
pub open spec fn stats_view(subscribers: nat, published: nat) -> ResponseView {
    ResponseView {
        status: 200,
        content_type: ContentKind::Json,
        body: stats_text(subscribers, published),
    }
}

/// The answer to a publish request that was carried out: the body as it was
/// broadcast.
pub open spec fn published_view(text: Seq<char>) -> ResponseView {
    ResponseView { status: 200, content_type: ContentKind::Json, body: encode_utf8(text) }
}

fn plain(status: u16, content_type: ContentKind, text: &str) -> (response: Response)
    ensures
        response@ == (ResponseView { status, content_type, body: encode_utf8(text@) }),
{
    let mut body: Vec<u8> = Vec::new();
    push_bytes(&mut body, text.as_bytes());
    proof {
        assert(body@ =~= encode_utf8(text@));
    }
    Response { status, content_type, body }
}

impl Response {
    /// The index page.
    pub fn index() -> (response: Response)
        ensures
            response@ == index_view(),
    {
        plain(200, ContentKind::Html, "<a href=\"test.html\">test.html</a>")
    }

    /// The answer to a request that has no route.
    pub fn not_found() -> (response: Response)
        ensures
            response@ == not_found_view(),
    {
        plain(404, ContentKind::Text, "Not Found")
    }

    /// The answer to a publish request with an unusable body.
    pub fn bad_request() -> (response: Response)
        ensures
            response@ == bad_request_view(),
    {
        plain(400, ContentKind::Text, "Bad Request")
    }

    /// The answer to a publish request without the right secret.
    pub fn unauthorized() -> (response: Response)
        ensures
            response@ == unauthorized_view(),
    {
        plain(401, ContentKind::Text, "Unauthorized")
    }

    /// The answer where the broker itself is at fault.
    pub fn internal_error() -> (response: Response)
        ensures
            response@ == internal_error_view(),
    {
        plain(500, ContentKind::Text, "Internal Server Error")
    }

    /// The statistics: the number of subscribers and of published messages.
    pub fn stats(subscribers: usize, published: u64) -> (response: Response)
        ensures
            response@ == stats_view(subscribers as nat, published as nat),
    {
        let mut body: Vec<u8> = Vec::new();
        push_bytes(&mut body, "{\"subscribers\":".as_bytes());
        push_decimal(&mut body, subscribers as u64);
        push_bytes(&mut body, ",\"published\":".as_bytes());
        push_decimal(&mut body, published);
        push_bytes(&mut body, "}".as_bytes());
        proof {
            assert(body@ =~= stats_text(subscribers as nat, published as nat));
        }
        Response { status: 200, content_type: ContentKind::Json, body }
    }

    /// The answer to a publish request that was carried out.
    pub fn published(text: &str) -> (response: Response)
        ensures
            response@ == published_view(text@),
    {
        plain(200, ContentKind::Json, text)
    }

    /// The answer that reports an error of the publish path: 400 for a
    /// payload that failed validation, 401 for unusable credentials, 500 for
    /// the rest.
    pub fn for_error(error: &SseError) -> (response: Response)
        ensures
            response@ == error_view(*error),
    {
        match error {
            SseError::ParseError => Response::bad_request(),
            SseError::PayloadTooLarge => Response::bad_request(),
            SseError::Pbkdf2Error { .. } => Response::unauthorized(),
            SseError::CredentialError => Response::unauthorized(),
            SseError::ConnectionError => Response::internal_error(),
            SseError::InternalError => Response::internal_error(),
        }
    }
}

/// The answer that reports an error.
pub open spec fn error_view(error: SseError) -> ResponseView {
    match error {
        SseError::ParseError => bad_request_view(),
        SseError::PayloadTooLarge => bad_request_view(),
        SseError::Pbkdf2Error { .. } => unauthorized_view(),
        SseError::CredentialError => unauthorized_view(),
        SseError::ConnectionError => internal_error_view(),
        SseError::InternalError => internal_error_view(),
    }
}

} // verus!
