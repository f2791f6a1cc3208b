//! The internal request that a WebSocket frame becomes.

use super::routing::{lemma_segment_alone, lemma_segment_named, slashes};
use super::terms::is_own_error;
use crate::extract::{RequestCtx, RequestParts, RoutingMode};
use crate::headers::header_fields;
use crate::responses_ws::{
    gproxy_error, gproxy_error_body, internal_post_parts, is_upgrade_header, plan_frame, FramePlan, HeadersFull,
    ResponsesWsRequestBase,
};
use http::HeaderMap;
use vstd::prelude::*;
use vstd::utf8::encode_utf8;

verus! {

/// Whether a header of the internal request is what the client's headers make it:
/// the seven of the handshake are gone, three are set, and every other one is
/// there with all its values in order, or is not there, as with the client.
pub open spec fn is_passed_on(
    from: HeaderMap,
    to: HeaderMap,
    mark: Seq<char>,
    name: Seq<char>,
) -> bool {
    let client = header_fields(from);
    let sent = header_fields(to);
    if name == mark {
        sent.dom().contains(name) && sent[name] == seq![encode_utf8("1"@)]
    } else if name == "accept"@ {
        sent.dom().contains(name) && sent[name] == seq![encode_utf8("text/event-stream"@)]
    } else if name == "content-type"@ {
        sent.dom().contains(name) && sent[name] == seq![encode_utf8("application/json"@)]
    } else if name == "connection"@ || name == "upgrade"@ || name == "sec-websocket-accept"@ || name
        == "sec-websocket-extensions"@ || name == "sec-websocket-key"@ || name
        == "sec-websocket-protocol"@ || name == "sec-websocket-version"@ {
        !sent.dom().contains(name)
    } else {
        &&& sent.dom().contains(name) <==> client.dom().contains(name)
        &&& client.dom().contains(name) ==> sent[name] == client[name]
    }
}

/// The base of a WebSocket is the target and the headers of its request.
pub proof fn law_websocket_base(parts: &RequestParts, base: ResponsesWsRequestBase)
    requires
        call_ensures(ResponsesWsRequestBase::from_parts, (parts,), base),
    ensures
        base.uri == parts.uri,
        header_fields(base.headers) == header_fields(parts.headers),
{
}

/// The internal request posts to the target of the WebSocket. It keeps, value by
/// value, every header of the client whose name is none of the handshake's seven
/// and none of the three that it sets. It is owed wherever the client's headers
/// have at most 6551 names.
pub proof fn law_internal_request(
    base: &ResponsesWsRequestBase,
    mark: &str,
    r: Result<RequestParts, HeadersFull>,
    name: Seq<char>,
)
    requires
        call_ensures(internal_post_parts, (base, mark), r),
    ensures
        r matches Ok(parts) ==> {
            &&& parts.method@ == "POST"@
            &&& parts.uri == base.uri
            &&& is_passed_on(base.headers, parts.headers, mark@, name)
        },
        header_fields(base.headers).dom().len() <= 6551 ==> r is Ok,
{
    lemma_header_names();
}

/// The names of the headers that the request sets are none of the handshake's.
proof fn lemma_header_names()
    ensures
        "content-type"@ != "accept"@,
        !is_upgrade_header("content-type"@),
        !is_upgrade_header("accept"@),
{
    reveal_strlit("connection");
    reveal_strlit("upgrade");
    reveal_strlit("sec-websocket-accept");
    reveal_strlit("sec-websocket-extensions");
    reveal_strlit("sec-websocket-key");
    reveal_strlit("sec-websocket-protocol");
    reveal_strlit("sec-websocket-version");
    reveal_strlit("content-type");
    reveal_strlit("accept");
    assert("content-type"@.len() == 12 && "accept"@.len() == 6);
    assert("connection"@.len() == 10 && "upgrade"@.len() == 7);
    assert("sec-websocket-accept"@.len() == 20 && "sec-websocket-extensions"@.len() == 24);
    assert("sec-websocket-key"@.len() == 17 && "sec-websocket-protocol"@.len() == 22);
    assert("sec-websocket-version"@.len() == 21);
}

/// A frame that is no valid request is rejected with 422 and the reason.
pub proof fn law_invalid_frame<I, O>(
    base: &ResponsesWsRequestBase,
    mark: &str,
    scoped: bool,
    frame: &str,
    reason: String,
    request_id: String,
    r: FramePlan<I, O>,
)
    requires
        call_ensures(
            plan_frame::<I, O>,
            (base, mark, scoped, frame, Err(reason), request_id),
            r,
        ),
    ensures
        r matches FramePlan::Reject(e) && is_own_error(e, 422, reason@),
{
    assert(gproxy_error(reason@)->Object_0 =~= super::terms::own_error(reason@)->Object_0);
    assert(gproxy_error_body(reason@)->Object_0 =~= super::terms::own_error_body(
        reason@,
    )->Object_0);
}

/// Whether a context is the internal request for a frame, but for its route.
pub open spec fn is_posted_frame<I, O>(
    ctx: RequestCtx<I, O>,
    base: ResponsesWsRequestBase,
    mark: Seq<char>,
    frame: Seq<char>,
    request_id: String,
) -> bool {
    &&& ctx.method@ == "POST"@
    &&& ctx.request_id == request_id
    &&& ctx.query == base.uri.query
    &&& ctx.body@ == encode_utf8(frame)
    &&& forall|name: Seq<char>| #[trigger]
        is_passed_on(base.headers, ctx.headers, mark, name)
    &&& ctx.identity is None && ctx.op is None && !ctx.stream
    &&& ctx.body_model is None && ctx.route_name is None && ctx.pending_micros == 0
}

/// A valid frame of a WebSocket without a provider is posted to the path of the
/// WebSocket, with its bytes as the body. Nothing but full headers prevents it.
pub proof fn law_aggregated_frame<I, O>(
    base: &ResponsesWsRequestBase,
    mark: &str,
    frame: &str,
    request_id: String,
    r: FramePlan<I, O>,
)
    requires
        call_ensures(
            plan_frame::<I, O>,
            (base, mark, false, frame, Ok(()), request_id),
            r,
        ),
    ensures
        r is Execute || r is HeadersFull,
        header_fields(base.headers).dom().len() <= 6551 ==> r is Execute,
        r matches FramePlan::Execute(ctx) ==> {
            &&& ctx.mode is Aggregated && ctx.path@ == base.uri.path@
            &&& is_posted_frame(ctx, *base, mark@, frame@, request_id)
        },
{
    lemma_header_names();
    if let FramePlan::Execute(ctx) = r {
        assert forall|name: Seq<char>| #[trigger]
            is_passed_on(base.headers, ctx.headers, mark@, name) by {}
    }
}

/// A valid frame of a provider's WebSocket is posted to that provider, under the
/// path behind its name.
pub proof fn law_scoped_frame<I, O>(
    k: nat,
    provider: Seq<char>,
    rest: Seq<char>,
    base: &ResponsesWsRequestBase,
    mark: &str,
    frame: &str,
    request_id: String,
    r: FramePlan<I, O>,
)
    requires
        call_ensures(
            plan_frame::<I, O>,
            (base, mark, true, frame, Ok(()), request_id),
            r,
        ),
        base.uri.path@ == slashes(k) + provider + seq!['/'] + rest,
        provider.len() > 0,
        forall|i: int| 0 <= i < provider.len() ==> #[trigger] provider[i] != '/',
        provider != "v1"@,
        provider != "v1beta"@,
        provider != "console"@,
    ensures
        r is Execute || r is HeadersFull,
        header_fields(base.headers).dom().len() <= 6551 ==> r is Execute,
        r matches FramePlan::Execute(ctx) ==> {
            &&& ctx.mode matches RoutingMode::Named { name } && name@ == provider
            &&& ctx.path@ == seq!['/'] + rest
            &&& is_posted_frame(ctx, *base, mark@, frame@, request_id)
        },
{
    lemma_header_names();
    lemma_segment_named(k, provider, rest);
    reveal_strlit("/");
    assert("/"@ =~= seq!['/']);
    if let FramePlan::Execute(ctx) = r {
        assert forall|name: Seq<char>| #[trigger]
            is_passed_on(base.headers, ctx.headers, mark@, name) by {}
    }
}

/// A valid frame is never executed for a provider that its path does not name.
pub proof fn law_scoped_frame_without_provider<I, O>(
    k: nat,
    segment: Seq<char>,
    rest: Seq<char>,
    base: &ResponsesWsRequestBase,
    mark: &str,
    frame: &str,
    request_id: String,
    r: FramePlan<I, O>,
)
    requires
        call_ensures(
            plan_frame::<I, O>,
            (base, mark, true, frame, Ok(()), request_id),
            r,
        ),
        base.uri.path@ == slashes(k) + segment && (forall|i: int|
            0 <= i < segment.len() ==> #[trigger] segment[i] != '/') || base.uri.path@ == slashes(k)
            + segment + seq!['/'] + rest && (segment == "v1"@ || segment == "v1beta"@ || segment
            == "console"@),
    ensures
        r is UnsupportedPath || r is HeadersFull,
        header_fields(base.headers).dom().len() <= 6551 ==> r is UnsupportedPath,
{
    reveal_strlit("v1");
    reveal_strlit("v1beta");
    reveal_strlit("console");
    if base.uri.path@ == slashes(k) + segment && (forall|i: int|
        0 <= i < segment.len() ==> #[trigger] segment[i] != '/') {
        lemma_segment_alone(k, segment);
    } else {
        lemma_segment_named(k, segment, rest);
    }
}

} // verus!
