//! The edge entry points: where an inbound request goes, what it is answered
//! with before it gets there, and how the host's request becomes request parts.

use crate::extract::{
    is_provider_name, law_path_of_provider, provider_and_rest, RequestParts,
    RequestUri,
};
use crate::headers::{
    add_header, all_texts, check_header_value, has_room, header_fields, is_header_value,
    lemma_parsed_header_name, no_headers, pair_views, parse_header_name, parsed_header_name,
    text_headers, texts_of, token_char, values_under, HeaderFields, REQUEST_ID_HEADER,
};
use crate::responses_ws::{
    is_plain_frame, is_responses_websocket_path, is_scoped_responses_websocket_path,
    is_websocket_path, plain_frame, websocket_provider, PipelineFailure,
};
use crate::text::{begins_with, decimal, decimal_text, same_text, starts_with};
use http::{HeaderMap, Method, Uri};
use vstd::prelude::*;
use vstd::utf8::encode_utf8;

verus! {

/// What a request is answered with before the edge has been set up.
pub const NOT_INITIALISED: &'static str = "GPROXY edge not initialised: call init() first";

/// What a realtime session is answered with.
pub const REALTIME_UNSUPPORTED: &'static str =
    "OpenAI Realtime WebSocket passthrough is not supported on edge";

/// A response that is handed to the host.
#[derive(Debug)]
pub struct EdgeResponse {
    pub status: u16,
    /// Names and values, in the order in which they are added.
    pub headers: Vec<(String, String)>,
    pub body: Vec<u8>,
}

impl EdgeResponse {
    /// Whether the response has the given parts.
    pub open spec fn says(
        &self,
        status: u16,
        headers: Seq<(Seq<char>, Seq<char>)>,
        body: Seq<u8>,
    ) -> bool {
        &&& self.status == status
        &&& pair_views(self.headers@) == headers
        &&& self.body@ == body
    }

    /// Whether the response carries the correlation id, once.
    pub open spec fn carries(&self, request_id: Seq<char>) -> bool {
        texts_of(pair_views(self.headers@), REQUEST_ID_HEADER@) == seq![request_id]
    }
}

/// A copy of some bytes.
fn copy_bytes(bytes: &[u8]) -> (r: Vec<u8>)
    ensures
        r@ == bytes@,
{
    let mut out: Vec<u8> = Vec::new();
    out.extend_from_slice(bytes);
    assert(out@ =~= bytes@);
    out
}

/// A response with a body of the given type.
pub fn text_response(status: u16, content_type: &str, body: &[u8]) -> (r: EdgeResponse)
    ensures
        r.says(status, seq![("content-type"@, content_type@)], body@),
{
    let mut headers: Vec<(String, String)> = Vec::new();
    headers.push(("content-type".to_owned(), content_type.to_owned()));
    assert(pair_views(headers@) =~= seq![("content-type"@, content_type@)]);
    EdgeResponse { status, headers, body: copy_bytes(body) }
}

/// A response with a body of the given type that carries the correlation id.
pub fn text_response_with_request_id(
    status: u16,
    content_type: &str,
    body: &[u8],
    request_id: &str,
) -> (r: EdgeResponse)
    ensures
        r.says(
            status,
            seq![("content-type"@, content_type@), (REQUEST_ID_HEADER@, request_id@)],
            body@,
        ),
        r.carries(request_id@),
{
    let mut headers: Vec<(String, String)> = Vec::new();
    headers.push(("content-type".to_owned(), content_type.to_owned()));
    headers.push((REQUEST_ID_HEADER.to_owned(), request_id.to_owned()));
    assert(pair_views(headers@) =~= seq![
        ("content-type"@, content_type@),
        (REQUEST_ID_HEADER@, request_id@),
    ]);
    proof {
        lemma_carries(content_type@, request_id@, None);
    }
    EdgeResponse { status, headers, body: copy_bytes(body) }
}

/// The response for a request that came before the edge was set up.
pub fn service_unavailable(message: &str, request_id: &str) -> (r: EdgeResponse)
    ensures
        r.says(
            503,
            seq![("content-type"@, "text/plain"@), (REQUEST_ID_HEADER@, request_id@)],
            encode_utf8(message@),
        ),
        r.carries(request_id@),
{
    text_response_with_request_id(503, "text/plain", message.as_bytes(), request_id)
}

/// The response for an operational endpoint without the right to it.
pub fn unauthorized() -> (r: EdgeResponse)
    ensures
        r.says(401, seq![("content-type"@, "text/plain"@)], encode_utf8("unauthorized"@)),
{
    text_response(401, "text/plain", "unauthorized".as_bytes())
}

/// The headers of a response for an error.
pub open spec fn error_headers(request_id: Seq<char>, retry_after_secs: Option<u64>) -> Seq<
    (Seq<char>, Seq<char>),
> {
    let base = seq![("content-type"@, "application/json"@), (REQUEST_ID_HEADER@, request_id)];
    match retry_after_secs {
        Some(secs) => base.push(("retry-after"@, decimal(secs as nat))),
        None => base,
    }
}

/// The response for an error of the pipeline.
pub fn error_to_ws(error: &PipelineFailure, request_id: &str) -> (r: EdgeResponse)
    ensures
        r.says(
            error.status,
            error_headers(request_id@, error.retry_after_secs),
            encode_utf8(error.error_json@),
        ),
        r.carries(request_id@),
{
    let mut headers: Vec<(String, String)> = Vec::new();
    headers.push(("content-type".to_owned(), "application/json".to_owned()));
    headers.push((REQUEST_ID_HEADER.to_owned(), request_id.to_owned()));
    match error.retry_after_secs {
        Some(secs) => {
            headers.push(("retry-after".to_owned(), decimal_text(secs)));
        },
        None => {},
    }
    assert(pair_views(headers@) =~= error_headers(request_id@, error.retry_after_secs));
    proof {
        lemma_carries("application/json"@, request_id@, error.retry_after_secs);
    }
    EdgeResponse {
        status: error.status,
        headers,
        body: copy_bytes(error.error_json.as_str().as_bytes()),
    }
}

proof fn lemma_carries(content_type: Seq<char>, request_id: Seq<char>, retry_after_secs: Option<u64>)
    ensures
        ({
            let base = seq![("content-type"@, content_type), (REQUEST_ID_HEADER@, request_id)];
            let all = match retry_after_secs {
                Some(secs) => base.push(("retry-after"@, decimal(secs as nat))),
                None => base,
            };
            texts_of(all, REQUEST_ID_HEADER@) == seq![request_id]
        }),
{
    reveal_strlit("content-type");
    reveal_strlit("x-gproxy-request-id");
    reveal_strlit("retry-after");
    assert("content-type"@.len() == 12 && "x-gproxy-request-id"@.len() == 19 && "retry-after"@.len()
        == 11);
    let first = seq![("content-type"@, content_type)];
    let base = seq![("content-type"@, content_type), (REQUEST_ID_HEADER@, request_id)];
    assert(first.drop_last() =~= Seq::empty());
    assert(first.last().0 != REQUEST_ID_HEADER@);
    assert(texts_of(first, REQUEST_ID_HEADER@) =~= Seq::empty()) by {
        reveal_with_fuel(texts_of, 2);
    }
    assert(base.drop_last() =~= first);
    assert(texts_of(base, REQUEST_ID_HEADER@) =~= seq![request_id]);
    if let Some(secs) = retry_after_secs {
        let all = base.push(("retry-after"@, decimal(secs as nat)));
        assert(all.drop_last() =~= base);
    }
}

/// The response with a status, those headers whose values are text, and a body.
pub fn resp_to_ws(status: u16, headers: &HeaderMap, body: Vec<u8>) -> (r: EdgeResponse)
    ensures
        r.status == status,
        r.body == body,
        forall|name: Seq<char>| #[trigger]
            texts_of(pair_views(r.headers@), name) == all_texts(
                values_under(header_fields(*headers), name),
            ),
{
    EdgeResponse { status, headers: text_headers(headers), body }
}

/// The operational endpoints.
#[derive(Clone, Copy, PartialEq, Eq, Debug, Structural)]
pub enum OpsEndpoint {
    Healthz,
    Version,
    Metrics,
}

/// The operational endpoint at a path.
pub open spec fn ops_endpoint(path: Seq<char>) -> Option<OpsEndpoint> {
    if path == "/healthz"@ {
        Some(OpsEndpoint::Healthz)
    } else if path == "/version"@ {
        Some(OpsEndpoint::Version)
    } else if path == "/metrics"@ {
        Some(OpsEndpoint::Metrics)
    } else {
        None
    }
}

/// Whether a path belongs to the control plane or the user portal.
pub open spec fn is_admin_path(path: Seq<char>) -> bool {
    begins_with(path, "/admin/"@) || begins_with(path, "/user/"@)
}

/// Whether a gateway path names no provider.
pub open spec fn is_aggregated_path(path: Seq<char>) -> bool {
    ||| path == "/v1"@
    ||| begins_with(path, "/v1/"@)
    ||| path == "/v1beta"@
    ||| begins_with(path, "/v1beta/"@)
}

/// Where a request goes.
#[derive(Clone, Copy, PartialEq, Eq, Debug, Structural)]
pub enum Destination {
    /// Nowhere: the edge has not been set up.
    NotInitialised,
    /// Nowhere: realtime sessions are not served.
    Realtime,
    /// To an operational endpoint, which asks for an administrator.
    Ops(OpsEndpoint),
    /// To the control plane and the user portal.
    Admin,
    /// To the gateway, with or without a provider in the path.
    Gateway { scoped: bool },
}

/// Where a request for a path goes.
pub open spec fn destination(initialised: bool, realtime: bool, path: Seq<char>) -> Destination {
    if !initialised {
        Destination::NotInitialised
    } else if realtime {
        Destination::Realtime
    } else {
        match ops_endpoint(path) {
            Some(endpoint) => Destination::Ops(endpoint),
            None => if is_admin_path(path) {
                Destination::Admin
            } else {
                Destination::Gateway { scoped: !is_aggregated_path(path) }
            },
        }
    }
}

/// What is done with a request.
pub enum FetchPlan {
    /// It is answered at once, and the error is logged.
    Reply { response: EdgeResponse, error: String },
    /// It is handed to an operational endpoint.
    Ops(OpsEndpoint),
    /// It is handed to the control plane, and is unknown where that does not
    /// handle it.
    Admin,
    /// It is handed to the gateway.
    Gateway { scoped: bool },
}

/// The operational endpoint at a path.
fn find_ops_endpoint(path: &str) -> (r: Option<OpsEndpoint>)
    ensures
        r == ops_endpoint(path@),
{
    if same_text(path, "/healthz") {
        Some(OpsEndpoint::Healthz)
    } else if same_text(path, "/version") {
        Some(OpsEndpoint::Version)
    } else if same_text(path, "/metrics") {
        Some(OpsEndpoint::Metrics)
    } else {
        None
    }
}

/// Whether a gateway path names no provider.
fn check_aggregated_path(path: &str) -> (r: bool)
    ensures
        r == is_aggregated_path(path@),
{
    same_text(path, "/v1") || starts_with(path, "/v1/") || same_text(path, "/v1beta")
        || starts_with(path, "/v1beta/")
}

/// Decides on a request. `realtime` says whether its path is that of a realtime
/// session.
pub fn plan_fetch(initialised: bool, realtime: bool, path: &str, request_id: &str) -> (r: FetchPlan)
    ensures
        match destination(initialised, realtime, path@) {
            Destination::NotInitialised => {
                &&& r matches FetchPlan::Reply { response, error }
                &&& response.says(
                    503,
                    seq![("content-type"@, "text/plain"@), (REQUEST_ID_HEADER@, request_id@)],
                    encode_utf8(NOT_INITIALISED@),
                )
                &&& response.carries(request_id@)
                &&& error@ == "edge not initialised"@
            },
            Destination::Realtime => {
                &&& r matches FetchPlan::Reply { response, error }
                &&& response.says(
                    501,
                    seq![("content-type"@, "text/plain"@), (REQUEST_ID_HEADER@, request_id@)],
                    encode_utf8(REALTIME_UNSUPPORTED@),
                )
                &&& response.carries(request_id@)
                &&& error@ == "realtime websocket unsupported on edge"@
            },
            Destination::Ops(endpoint) => r == FetchPlan::Ops(endpoint),
            Destination::Admin => r is Admin,
            Destination::Gateway { scoped } => r == (FetchPlan::Gateway { scoped }),
        },
{
    if !initialised {
        return FetchPlan::Reply {
            response: service_unavailable(NOT_INITIALISED, request_id),
            error: "edge not initialised".to_owned(),
        };
    }
    if realtime {
        return FetchPlan::Reply {
            response: text_response_with_request_id(
                501,
                "text/plain",
                REALTIME_UNSUPPORTED.as_bytes(),
                request_id,
            ),
            error: "realtime websocket unsupported on edge".to_owned(),
        };
    }
    match find_ops_endpoint(path) {
        Some(endpoint) => FetchPlan::Ops(endpoint),
        None => {
            if starts_with(path, "/admin/") || starts_with(path, "/user/") {
                FetchPlan::Admin
            } else {
                FetchPlan::Gateway { scoped: !check_aggregated_path(path) }
            }
        },
    }
}

/// What is done with a request for an operational endpoint.
pub enum OpsPlan {
    /// It is refused.
    Refuse(EdgeResponse),
    /// The endpoint answers.
    Serve(OpsEndpoint),
}

/// Decides on a request for an operational endpoint: none is public.
pub fn plan_ops(endpoint: OpsEndpoint, is_admin: bool) -> (r: OpsPlan)
    ensures
        is_admin ==> r == OpsPlan::Serve(endpoint),
        !is_admin ==> (r matches OpsPlan::Refuse(response) && response.says(
            401,
            seq![("content-type"@, "text/plain"@)],
            encode_utf8("unauthorized"@),
        )),
{
    if is_admin {
        OpsPlan::Serve(endpoint)
    } else {
        OpsPlan::Refuse(unauthorized())
    }
}

/// What is done with one inbound frame of a WebSocket.
pub enum EdgeFramePlan {
    /// It is answered with one message.
    Reply(String),
    /// It is executed, with or without a provider in the path.
    Execute { scoped: bool },
}

/// Decides on one inbound frame of a WebSocket. `realtime` says whether its path
/// is that of a realtime session.
pub fn plan_websocket_frame(initialised: bool, realtime: bool, path: &str) -> (r: EdgeFramePlan)
    ensures
        if !initialised {
            r matches EdgeFramePlan::Reply(frame) && is_plain_frame(frame@, 503, NOT_INITIALISED@)
        } else if realtime {
            r matches EdgeFramePlan::Reply(frame) && is_plain_frame(
                frame@,
                501,
                REALTIME_UNSUPPORTED@,
            )
        } else if !is_websocket_path(path@) {
            r matches EdgeFramePlan::Reply(frame) && is_plain_frame(
                frame@,
                404,
                "unsupported path"@,
            )
        } else {
            r == (EdgeFramePlan::Execute { scoped: websocket_provider(path@) is Some })
        },
{
    if !initialised {
        EdgeFramePlan::Reply(plain_frame(503, NOT_INITIALISED))
    } else if realtime {
        EdgeFramePlan::Reply(plain_frame(501, REALTIME_UNSUPPORTED))
    } else if !is_responses_websocket_path(path) {
        EdgeFramePlan::Reply(plain_frame(404, "unsupported path"))
    } else {
        EdgeFramePlan::Execute { scoped: is_scoped_responses_websocket_path(path) }
    }
}

/// A path of the control plane or the user portal never reaches the gateway,
/// and no more does an operational endpoint.
pub proof fn law_admin_paths_stay_out_of_gateway(initialised: bool, realtime: bool, path: Seq<char>)
    ensures
        is_admin_path(path) || ops_endpoint(path) is Some ==> !(destination(
            initialised,
            realtime,
            path,
        ) is Gateway),
{
}

/// Every path below `/v1/` and `/v1beta/` goes to the gateway without a
/// provider.
pub proof fn law_aggregated_paths(rest: Seq<char>)
    ensures
        destination(true, false, "/v1/"@ + rest) == (Destination::Gateway { scoped: false }),
        destination(true, false, "/v1beta/"@ + rest) == (Destination::Gateway { scoped: false }),
{
    lemma_route_literals();
    let a = "/v1/"@ + rest;
    let b = "/v1beta/"@ + rest;
    assert(a.take(4) =~= "/v1/"@);
    assert(b.take(8) =~= "/v1beta/"@);
    assert(a[1] == 'v' && a[2] == '1' && b[1] == 'v' && b[2] == '1');
    lemma_not_admin(a);
    lemma_not_admin(b);
}

/// Every path that starts with a provider goes to the gateway with that
/// provider, unless it belongs to the control plane or the user portal.
pub proof fn law_scoped_paths(name: Seq<char>, rest: Seq<char>)
    requires
        is_provider_name(name),
        name != "admin"@,
        name != "user"@,
    ensures
        ({
            let path = "/"@ + name + "/"@ + rest;
            &&& destination(true, false, path) == (Destination::Gateway { scoped: true })
            &&& provider_and_rest(path) == Some((name, rest))
        }),
{
    lemma_route_literals();
    reveal_strlit("/");
    let path = "/"@ + name + "/"@ + rest;
    let n = name.len() as int;
    assert(path =~= seq!['/'] + name + seq!['/'] + rest);
    law_path_of_provider(name, rest);
    lemma_segment(name, rest, "admin"@, "/admin/"@);
    lemma_segment(name, rest, "user"@, "/user/"@);
    lemma_segment(name, rest, "v1"@, "/v1/"@);
    lemma_segment(name, rest, "v1beta"@, "/v1beta/"@);
    assert(path[n + 1] == '/');
    assert(ops_endpoint(path) is None);
    assert(path != "/v1"@ && path != "/v1beta"@);
}

/// A path that starts with one segment does not start with another.
proof fn lemma_segment(name: Seq<char>, rest: Seq<char>, other: Seq<char>, prefix: Seq<char>)
    requires
        is_provider_name(name),
        name != other,
        prefix == seq!['/'] + other + seq!['/'],
        forall|i: int| 0 <= i < other.len() ==> other[i] != '/',
    ensures
        !begins_with(seq!['/'] + name + seq!['/'] + rest, prefix),
{
    let path = seq!['/'] + name + seq!['/'] + rest;
    let n = name.len() as int;
    let m = other.len() as int;
    if begins_with(path, prefix) {
        let head = path.take(prefix.len() as int);
        assert(path[n + 1] == '/');
        assert(prefix[m + 1] == '/');
        assert(head[m + 1] == path[m + 1]);
        if n < m {
            assert(head[n + 1] == path[n + 1]);
            assert(prefix[n + 1] == other[n]);
        } else if m < n {
            assert(path[m + 1] == name[m]);
        } else {
            assert forall|i: int| 0 <= i < name.len() implies name[i] == other[i] by {
                assert(head[i + 1] == path[i + 1]);
                assert(prefix[i + 1] == other[i]);
            }
            assert(name =~= other);
        }
    }
}

/// What follows `/v` in a path keeps it apart from the other prefixes.
proof fn lemma_not_admin(path: Seq<char>)
    requires
        path.len() > 3,
        path[1] == 'v',
        path[2] == '1',
    ensures
        !is_admin_path(path),
        ops_endpoint(path) is None,
{
    lemma_route_literals();
    if begins_with(path, "/admin/"@) {
        assert(path.take(7)[1] == path[1]);
    }
    if begins_with(path, "/user/"@) {
        assert(path.take(6)[1] == path[1]);
    }
}

proof fn lemma_route_literals()
    ensures
        "/admin/"@ == seq!['/'] + "admin"@ + seq!['/'],
        "/user/"@ == seq!['/'] + "user"@ + seq!['/'],
        "/v1/"@ == seq!['/'] + "v1"@ + seq!['/'],
        "/v1beta/"@ == seq!['/'] + "v1beta"@ + seq!['/'],
        "/admin/"@.len() == 7 && "/admin/"@[1] == 'a',
        "/user/"@.len() == 6 && "/user/"@[1] == 'u',
        "/v1/"@.len() == 4,
        "/v1beta/"@.len() == 8,
        "/v1/"@ =~= seq!['/', 'v', '1', '/'],
        "/v1beta/"@[0] == '/' && "/v1beta/"@[1] == 'v' && "/v1beta/"@[2] == '1',
        "/healthz"@.len() == 8 && "/healthz"@[1] == 'h',
        "/version"@.len() == 8 && "/version"@[2] == 'e',
        "/metrics"@.len() == 8 && "/metrics"@[1] == 'm',
        forall|i: int| 1 <= i < 8 ==> "/healthz"@[i] != '/',
        forall|i: int| 1 <= i < 8 ==> "/version"@[i] != '/',
        forall|i: int| 1 <= i < 8 ==> "/metrics"@[i] != '/',
        "/v1"@.len() == 3,
        "/v1beta"@.len() == 7,
        forall|i: int| 1 <= i < 3 ==> "/v1"@[i] != '/',
        forall|i: int| 1 <= i < 7 ==> "/v1beta"@[i] != '/',
        forall|i: int| 0 <= i < "admin"@.len() ==> "admin"@[i] != '/',
        forall|i: int| 0 <= i < "user"@.len() ==> "user"@[i] != '/',
        forall|i: int| 0 <= i < "v1"@.len() ==> "v1"@[i] != '/',
        forall|i: int| 0 <= i < "v1beta"@.len() ==> "v1beta"@[i] != '/',
{
    reveal_strlit("/admin/");
    reveal_strlit("/user/");
    reveal_strlit("/v1/");
    reveal_strlit("/v1beta/");
    reveal_strlit("/healthz");
    reveal_strlit("/version");
    reveal_strlit("/metrics");
    reveal_strlit("/v1");
    reveal_strlit("/v1beta");
    reveal_strlit("admin");
    reveal_strlit("user");
    reveal_strlit("v1");
    reveal_strlit("v1beta");
    assert("/admin/"@ =~= seq!['/'] + "admin"@ + seq!['/']);
    assert("/user/"@ =~= seq!['/'] + "user"@ + seq!['/']);
    assert("/v1/"@ =~= seq!['/'] + "v1"@ + seq!['/']);
    assert("/v1beta/"@ =~= seq!['/'] + "v1beta"@ + seq!['/']);
}

/// What parsing a request target gives: its path and query, or the error as it
/// is shown for debugging.
pub type UriResult = Result<(Seq<char>, Option<Seq<char>>), Seq<char>>;

/// What `str::parse::<Uri>` makes of a text.
pub uninterp spec fn uri_parsed(text: Seq<char>) -> UriResult;

/// The view of a request target.
pub open spec fn uri_view(uri: RequestUri) -> (Seq<char>, Option<Seq<char>>) {
    (
        uri.path@,
        match uri.query {
            Some(query) => Some(query@),
            None => None,
        },
    )
}

/// Whether a text is a request method: a token.
pub open spec fn is_method(s: Seq<char>) -> bool {
    s.len() > 0 && forall|i: int| 0 <= i < s.len() ==> token_char(#[trigger] s[i])
}

/// `Method::from_bytes`: any token is a method and is kept as it is written.
#[verifier::external_body]
fn parse_method(s: &str) -> (r: Option<String>)
    ensures
        match r {
            Some(method) => is_method(s@) && method@ == s@,
            None => !is_method(s@),
        },
{
    Method::from_bytes(s.as_bytes()).ok().map(|m| m.as_str().to_owned())
}

/// `str::parse::<Uri>`, with `Uri::path` and `Uri::query` of what it gives, or
/// the error as it is shown for debugging.
#[verifier::external_body]
fn parse_uri(text: &str) -> (r: Result<RequestUri, String>)
    ensures
        match r {
            Ok(uri) => uri_parsed(text@) == UriResult::Ok(uri_view(uri)),
            Err(reason) => uri_parsed(text@) == UriResult::Err(reason@),
        },
{
    let uri: Uri = text.parse().map_err(|e| format!("{e:?}"))?;
    Ok(RequestUri { path: uri.path().to_owned(), query: uri.query().map(|q| q.to_owned()) })
}

/// The path in a request target that has been parsed, or none where it could
/// not be.
pub fn path_of_parsed(parsed: Result<RequestUri, String>) -> (r: String)
    ensures
        match parsed {
            Ok(uri) => r == uri.path,
            Err(_) => r@ == ""@,
        },
{
    match parsed {
        Ok(uri) => uri.path,
        Err(_) => "".to_owned(),
    }
}

/// The path that a request is logged with.
pub fn inbound_path(url: &str) -> (r: String)
    ensures
        r@ == match uri_parsed(url@) {
            Ok((path, _)) => path,
            Err(_) => ""@,
        },
{
    path_of_parsed(parse_uri(url))
}

/// Why the host's request cannot be taken over.
#[derive(Debug)]
pub enum PartsError {
    /// The method is no token.
    Method,
    /// The target cannot be parsed.
    Target { reason: String },
    /// A header's value holds a control character.
    HeaderValue,
    /// The header map takes no further name.
    HeadersFull,
}

impl PartsError {
    /// What the host is told.
    pub open spec fn shown(&self) -> Seq<char> {
        match self {
            PartsError::Method => "InvalidMethod"@,
            PartsError::Target { reason } => reason@,
            PartsError::HeaderValue => "http::Error(InvalidHeaderValue)"@,
            PartsError::HeadersFull => "http::Error(MaxSizeReached)"@,
        }
    }

    /// What the host is told.
    pub fn debug_text(&self) -> (r: String)
        ensures
            r@ == self.shown(),
    {
        match self {
            PartsError::Method => "InvalidMethod".to_owned(),
            PartsError::Target { reason } => reason.clone(),
            PartsError::HeaderValue => "http::Error(InvalidHeaderValue)".to_owned(),
            PartsError::HeadersFull => "http::Error(MaxSizeReached)".to_owned(),
        }
    }
}

/// The headers that a host's list of names and values stands for. Names that are
/// no header names are left out.
pub open spec fn inbound_fields(entries: Seq<(Seq<char>, Seq<char>)>) -> HeaderFields
    decreases entries.len(),
{
    if entries.len() == 0 {
        HeaderFields::empty()
    } else {
        let fields = inbound_fields(entries.drop_last());
        match parsed_header_name(entries.last().0) {
            Some(name) => fields.insert(
                name,
                values_under(fields, name).push(encode_utf8(entries.last().1)),
            ),
            None => fields,
        }
    }
}

/// Whether an entry has a header name, but a value that no header can have.
pub open spec fn is_bad_entry(entry: (Seq<char>, Seq<char>)) -> bool {
    parsed_header_name(entry.0) is Some && !is_header_value(encode_utf8(entry.1))
}

/// Whether a host's list holds a value that no header can have.
pub open spec fn has_bad_value(entries: Seq<(Seq<char>, Seq<char>)>) -> bool {
    exists|i: int| 0 <= i < entries.len() && is_bad_entry(#[trigger] entries[i])
}

/// More entries name no fewer headers.
proof fn lemma_inbound_names(entries: Seq<(Seq<char>, Seq<char>)>, n: int)
    requires
        0 <= n <= entries.len(),
    ensures
        inbound_fields(entries).dom().finite(),
        inbound_fields(entries.take(n)).dom().subset_of(inbound_fields(entries).dom()),
        inbound_fields(entries.take(n)).dom().len() <= inbound_fields(entries).dom().len(),
    decreases entries.len(),
{
    if n == entries.len() {
        assert(entries.take(n) =~= entries);
        if n > 0 {
            lemma_inbound_names(entries.drop_last(), n - 1);
        }
    } else {
        assert(entries.take(n) =~= entries.drop_last().take(n));
        lemma_inbound_names(entries.drop_last(), n);
        vstd::set_lib::lemma_len_subset(
            inbound_fields(entries.take(n)).dom(),
            inbound_fields(entries).dom(),
        );
    }
}

/// The headers that a host's list of names and values stands for. An entry whose
/// name is no header name is skipped, so that it cannot spoil the request; a
/// value that no header can have does.
pub fn inbound_headers(entries: &Vec<(String, String)>) -> (r: Result<HeaderMap, PartsError>)
    ensures
        r matches Ok(headers) ==> header_fields(headers) == inbound_fields(pair_views(entries@)),
        r is Ok ==> !has_bad_value(pair_views(entries@)),
        r matches Err(e) ==> e is HeaderValue || e is HeadersFull,
        r matches Err(e) && e is HeaderValue ==> has_bad_value(pair_views(entries@)),
        has_room(inbound_fields(pair_views(entries@)), 1) ==> !(r matches Err(e)
            && e is HeadersFull),
{
    let ghost views = pair_views(entries@);
    let mut headers = no_headers();
    for i in 0..entries.len()
        invariant
            views == pair_views(entries@),
            header_fields(headers) == inbound_fields(views.take(i as int)),
            forall|j: int| 0 <= j < i ==> !is_bad_entry(#[trigger] views[j]),
    {
        let (name, value) = &entries[i];
        proof {
            assert(views[i as int] == (name@, value@));
            assert(views.take(i + 1).drop_last() =~= views.take(i as int));
            assert(views.take(i + 1).last() == views[i as int]);
            lemma_parsed_header_name(name@);
            lemma_inbound_names(views, i as int);
            lemma_inbound_names(views.take(i as int), i as int);
        }
        match parse_header_name(name.as_str()) {
            Some(parsed) => {
                if !check_header_value(value.as_str()) {
                    assert(is_bad_entry(views[i as int]));
                    return Err(PartsError::HeaderValue);
                }
                if !add_header(&mut headers, parsed.as_str(), value.as_str()) {
                    return Err(PartsError::HeadersFull);
                }
            },
            None => {},
        }
    }
    assert(views.take(views.len() as int) =~= views);
    Ok(headers)
}

/// The parts of a host's request: its method, its target and its headers.
pub fn request_parts(method: &str, url: &str, entries: &Vec<(String, String)>) -> (r: Result<
    RequestParts,
    PartsError,
>)
    ensures
        r matches Err(e) && e is Method <==> !is_method(method@),
        r matches Err(PartsError::Target { reason }) ==> uri_parsed(url@) == UriResult::Err(
            reason@,
        ),
        r matches Err(e) && e is Target <==> is_method(method@) && uri_parsed(url@) is Err,
        r matches Ok(parts) ==> {
            &&& parts.method@ == method@
            &&& uri_parsed(url@) == UriResult::Ok(uri_view(parts.uri))
            &&& header_fields(parts.headers) == inbound_fields(pair_views(entries@))
            &&& !has_bad_value(pair_views(entries@))
        },
        r matches Err(e) && e is HeaderValue ==> has_bad_value(pair_views(entries@)),
        has_room(inbound_fields(pair_views(entries@)), 1) ==> !(r matches Err(e)
            && e is HeadersFull),
{
    match parse_method(method) {
        Some(method) => match parse_uri(url) {
            Ok(uri) => match inbound_headers(entries) {
                Ok(headers) => Ok(RequestParts { method, uri, headers }),
                Err(e) => Err(e),
            },
            Err(reason) => Err(PartsError::Target { reason }),
        },
        None => Err(PartsError::Method),
    }
}

/// A header is what the entries of its name say, whatever else the host's list
/// holds: an entry under another name changes nothing about it.
pub proof fn law_inbound_headers(entries: Seq<(Seq<char>, Seq<char>)>, name: Seq<char>)
    ensures
        values_under(inbound_fields(entries), name) == texts_of(
            canonical(entries),
            name,
        ).map_values(|t: Seq<char>| encode_utf8(t)),
    decreases entries.len(),
{
    let texts = texts_of(canonical(entries), name);
    if entries.len() == 0 {
        assert(texts.map_values(|t: Seq<char>| encode_utf8(t)) =~= Seq::empty());
    } else {
        let front = entries.drop_last();
        law_inbound_headers(front, name);
        if let Some(n) = parsed_header_name(entries.last().0) {
            let c = canonical(entries);
            assert(c.drop_last() =~= canonical(front));
            assert(c.last() == (n, entries.last().1));
            let before = texts_of(canonical(front), name);
            if n == name {
                assert(texts == before.push(entries.last().1));
                assert(texts.map_values(|t: Seq<char>| encode_utf8(t)) =~= before.map_values(
                    |t: Seq<char>| encode_utf8(t),
                ).push(encode_utf8(entries.last().1)));
            }
        }
    }
}

/// The entries whose names are header names, under the names that a header map
/// keeps.
pub open spec fn canonical(entries: Seq<(Seq<char>, Seq<char>)>) -> Seq<(Seq<char>, Seq<char>)>
    decreases entries.len(),
{
    if entries.len() == 0 {
        Seq::empty()
    } else {
        match parsed_header_name(entries.last().0) {
            Some(name) => canonical(entries.drop_last()).push((name, entries.last().1)),
            None => canonical(entries.drop_last()),
        }
    }
}

} // verus!
