//! Where a request goes, by its path.

use crate::extract::{
    build_ctx_with_request_id, provider_and_rest, ExtractError, RequestCtx, RequestParts,
    RoutingMode,
};
use crate::responses_ws::{
    is_responses_websocket_path, is_scoped_responses_websocket_path, scoped_provider,
};
use crate::text::{drop_leading, lemma_first_index_unique};
use vstd::prelude::*;

verus! {

/// A run of slashes.
pub open spec fn slashes(k: nat) -> Seq<char> {
    Seq::new(k, |i: int| '/')
}

/// Slashes in front are dropped down to the first other character.
proof fn lemma_slashes_dropped(k: nat, t: Seq<char>)
    requires
        t.len() > 0 ==> t[0] != '/',
    ensures
        drop_leading(slashes(k) + t, '/') == t,
    decreases k,
{
    let path = slashes(k) + t;
    if k == 0 {
        assert(path =~= t);
    } else {
        assert(path[0] == '/');
        assert(path.drop_first() =~= slashes((k - 1) as nat) + t);
        lemma_slashes_dropped((k - 1) as nat, t);
    }
}

/// A path of slashes, a segment, a slash and more names the segment, unless it
/// is one of three.
pub(crate) proof fn lemma_segment_named(k: nat, name: Seq<char>, rest: Seq<char>)
    requires
        name.len() > 0,
        forall|i: int| 0 <= i < name.len() ==> #[trigger] name[i] != '/',
    ensures
        provider_and_rest(slashes(k) + name + seq!['/'] + rest) == if name == "v1"@ || name
            == "v1beta"@ || name == "console"@ {
            None
        } else {
            Some((name, rest))
        },
{
    let t = name + seq!['/'] + rest;
    assert(slashes(k) + name + seq!['/'] + rest =~= slashes(k) + t);
    assert(t[0] == name[0]);
    lemma_slashes_dropped(k, t);
    lemma_first_index_unique(t, '/', name.len() as int);
    assert(t.take(name.len() as int) =~= name);
    assert(t.skip(name.len() as int + 1) =~= rest);
}

/// A path of slashes and one segment names nothing.
pub(crate) proof fn lemma_segment_alone(k: nat, segment: Seq<char>)
    requires
        forall|i: int| 0 <= i < segment.len() ==> #[trigger] segment[i] != '/',
    ensures
        provider_and_rest(slashes(k) + segment) is None,
{
    lemma_slashes_dropped(k, segment);
    lemma_first_index_unique(segment, '/', segment.len() as int);
}

/// Whatever stands between leading slashes and the next slash is the provider of
/// a scoped request, whatever characters it is made of and whatever follows,
/// unless it is `v1`, `v1beta` or `console`. The request goes on with a slash and
/// what follows, and everything else of it is kept.
pub proof fn law_scoped_request<I, O>(
    k: nat,
    name: Seq<char>,
    rest: Seq<char>,
    parts: RequestParts,
    body: Vec<u8>,
    request_id: String,
    r: Result<RequestCtx<I, O>, ExtractError>,
)
    requires
        call_ensures(build_ctx_with_request_id::<I, O>, (parts, body, true, request_id), r),
        parts.uri.path@ == slashes(k) + name + seq!['/'] + rest,
        name.len() > 0,
        forall|i: int| 0 <= i < name.len() ==> #[trigger] name[i] != '/',
        name != "v1"@,
        name != "v1beta"@,
        name != "console"@,
    ensures
        r matches Ok(ctx) && {
            &&& ctx.mode matches RoutingMode::Named { name: n } && n@ == name
            &&& ctx.path@ == seq!['/'] + rest
            &&& ctx.request_id == request_id
            &&& ctx.method == parts.method
            &&& ctx.query == parts.uri.query
            &&& ctx.headers == parts.headers
            &&& ctx.body == body
            &&& ctx.identity is None && ctx.op is None && !ctx.stream
            &&& ctx.body_model is None && ctx.route_name is None && ctx.pending_micros == 0
        },
{
    lemma_segment_named(k, name, rest);
    reveal_strlit("/");
    assert("/"@ =~= seq!['/']);
}

/// A scoped request is refused where its path holds no slash behind its first
/// segment.
pub proof fn law_scoped_request_without_provider<I, O>(
    k: nat,
    segment: Seq<char>,
    parts: RequestParts,
    body: Vec<u8>,
    request_id: String,
    r: Result<RequestCtx<I, O>, ExtractError>,
)
    requires
        call_ensures(build_ctx_with_request_id::<I, O>, (parts, body, true, request_id), r),
        parts.uri.path@ == slashes(k) + segment,
        forall|i: int| 0 <= i < segment.len() ==> #[trigger] segment[i] != '/',
    ensures
        r is Err,
{
    lemma_segment_alone(k, segment);
}

/// A scoped request is refused where its first segment is `v1`, `v1beta` or
/// `console`.
pub proof fn law_scoped_request_of_reserved_segment<I, O>(
    k: nat,
    name: Seq<char>,
    rest: Seq<char>,
    parts: RequestParts,
    body: Vec<u8>,
    request_id: String,
    r: Result<RequestCtx<I, O>, ExtractError>,
)
    requires
        call_ensures(build_ctx_with_request_id::<I, O>, (parts, body, true, request_id), r),
        parts.uri.path@ == slashes(k) + name + seq!['/'] + rest,
        name == "v1"@ || name == "v1beta"@ || name == "console"@,
    ensures
        r is Err,
{
    reveal_strlit("v1");
    reveal_strlit("v1beta");
    reveal_strlit("console");
    lemma_segment_named(k, name, rest);
}

/// An aggregated request always goes on, with its path and everything else as
/// they are.
pub proof fn law_aggregated_request<I, O>(
    parts: RequestParts,
    body: Vec<u8>,
    request_id: String,
    r: Result<RequestCtx<I, O>, ExtractError>,
)
    requires
        call_ensures(build_ctx_with_request_id::<I, O>, (parts, body, false, request_id), r),
    ensures
        r matches Ok(ctx) && {
            &&& ctx.mode is Aggregated
            &&& ctx.path@ == parts.uri.path@
            &&& ctx.request_id == request_id
            &&& ctx.method == parts.method
            &&& ctx.query == parts.uri.query
            &&& ctx.headers == parts.headers
            &&& ctx.body == body
            &&& ctx.identity is None && ctx.op is None && !ctx.stream
            &&& ctx.body_model is None && ctx.route_name is None && ctx.pending_micros == 0
        },
{
}

/// Of the paths that start with a segment and a slash, those serve WebSockets of
/// the segment that go on with `v1/responses`, unless the segment is `v1`,
/// `v1beta` or `console`. The one path that serves those of all providers is
/// `/v1/responses`.
pub proof fn law_websocket_path_of_segment(
    k: nat,
    name: Seq<char>,
    rest: Seq<char>,
    path: &str,
    provider: Option<&str>,
    scoped: bool,
    served: bool,
)
    requires
        call_ensures(scoped_provider, (path,), provider),
        call_ensures(is_scoped_responses_websocket_path, (path,), scoped),
        call_ensures(is_responses_websocket_path, (path,), served),
        path@ == slashes(k) + name + seq!['/'] + rest,
        name.len() > 0,
        forall|i: int| 0 <= i < name.len() ==> #[trigger] name[i] != '/',
    ensures
        provider is Some <==> rest == "v1/responses"@ && name != "v1"@ && name != "v1beta"@ && name
            != "console"@,
        provider matches Some(p) ==> p@ == name,
        scoped == (provider is Some),
        served == (provider is Some || path@ == "/v1/responses"@),
{
    lemma_segment_named(k, name, rest);
}

/// A path without a slash behind its first segment serves no WebSockets.
pub proof fn law_websocket_path_without_provider(
    k: nat,
    segment: Seq<char>,
    path: &str,
    provider: Option<&str>,
    scoped: bool,
    served: bool,
)
    requires
        call_ensures(scoped_provider, (path,), provider),
        call_ensures(is_scoped_responses_websocket_path, (path,), scoped),
        call_ensures(is_responses_websocket_path, (path,), served),
        path@ == slashes(k) + segment,
        forall|i: int| 0 <= i < segment.len() ==> #[trigger] segment[i] != '/',
    ensures
        provider is None,
        !scoped,
        !served,
{
    lemma_segment_alone(k, segment);
    reveal_strlit("/v1/responses");
    let all = "/v1/responses"@;
    if path@ == all {
        assert(all.len() == 13 && all[1] == 'v' && all[3] == '/');
        if k <= 3 {
            assert(path@[3] == segment[3 - k]);
        } else {
            assert(path@[1] == '/');
        }
    }
}

} // verus!
