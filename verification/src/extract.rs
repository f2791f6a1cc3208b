//! Inbound request to [`RequestCtx`]: the routing mode and the path that the
//! rest of the gateway sees.

use crate::text::{cut, cut_once, drop_leading, join3, lemma_drop_leading, lemma_first_index,
    lemma_first_index_unique, same_text, trim_leading};
use http::HeaderMap;
use vstd::prelude::*;

verus! {

/// The parts of a request target that routing reads.
#[derive(Debug)]
pub struct RequestUri {
    pub path: String,
    pub query: Option<String>,
}

/// A request without its body.
#[derive(Debug)]
pub struct RequestParts {
    pub method: String,
    pub uri: RequestUri,
    pub headers: HeaderMap,
}

/// How the upstream of a request is chosen.
#[derive(Debug)]
pub enum RoutingMode {
    /// By the requested model's name.
    Aggregated,
    /// By the provider named in the path.
    Named { name: String },
}

/// A request on its way through the pipeline. The later stages fill in the
/// caller's identity `I` and the classified operation `O`.
pub struct RequestCtx<I, O> {
    pub request_id: String,
    pub method: String,
    pub path: String,
    pub query: Option<String>,
    pub headers: HeaderMap,
    pub body: Vec<u8>,
    pub mode: RoutingMode,
    pub identity: Option<I>,
    pub op: Option<O>,
    pub stream: bool,
    pub body_model: Option<String>,
    pub route_name: Option<String>,
    pub pending_micros: i64,
}

/// Why a request cannot enter the pipeline.
#[derive(Clone, Copy, PartialEq, Eq, Debug, Structural)]
pub enum ExtractError {
    /// The path names no provider where it has to.
    UnsupportedPath,
}

impl RequestUri {
    /// The same target.
    pub fn copy(&self) -> (r: Self)
        ensures
            r == *self,
    {
        RequestUri { path: self.path.clone(), query: self.query.clone() }
    }
}

/// The first path segments that never name a provider.
pub open spec fn is_reserved(segment: Seq<char>) -> bool {
    segment == "v1"@ || segment == "v1beta"@ || segment == "console"@
}

/// Whether a text can stand in a path as a provider's name.
pub open spec fn is_provider_name(name: Seq<char>) -> bool {
    name.len() > 0 && !is_reserved(name) && forall|i: int|
        0 <= i < name.len() ==> #[trigger] name[i] != '/'
}

/// The provider that a path names with its first segment, and what follows the
/// slash behind it.
pub open spec fn provider_and_rest(path: Seq<char>) -> Option<(Seq<char>, Seq<char>)> {
    match cut(drop_leading(path, '/'), '/') {
        Some((provider, rest)) => if provider.len() == 0 || is_reserved(provider) {
            None
        } else {
            Some((provider, rest))
        },
        None => None,
    }
}

/// Whether the routing mode and path are those of a request for `path`.
pub open spec fn is_routed(mode: RoutingMode, to: Seq<char>, path: Seq<char>, scoped: bool) -> bool {
    if scoped {
        &&& provider_and_rest(path) matches Some((provider, rest))
        &&& mode matches RoutingMode::Named { name }
        &&& name@ == provider
        &&& to == "/"@ + rest
    } else {
        mode is Aggregated && to == path
    }
}

impl<I, O> RequestCtx<I, O> {
    /// Whether no stage of the pipeline has added anything yet.
    pub open spec fn is_fresh(&self) -> bool {
        &&& self.identity is None
        &&& self.op is None
        &&& !self.stream
        &&& self.body_model is None
        &&& self.route_name is None
        &&& self.pending_micros == 0
    }
}

/// Whether a path segment is reserved.
fn check_reserved(segment: &str) -> (r: bool)
    ensures
        r == is_reserved(segment@),
{
    same_text(segment, "v1") || same_text(segment, "v1beta") || same_text(segment, "console")
}

/// The provider that a path names, and what follows the slash behind it.
pub(crate) fn split_provider(path: &str) -> (r: Option<(&str, &str)>)
    ensures
        match r {
            Some((provider, rest)) => provider_and_rest(path@) == Some((provider@, rest@)),
            None => provider_and_rest(path@) is None,
        },
{
    let trimmed = trim_leading(path, '/');
    match cut_once(trimmed, '/') {
        Some((provider, rest)) => {
            if provider.is_empty() || check_reserved(provider) {
                None
            } else {
                Some((provider, rest))
            }
        },
        None => None,
    }
}

/// Builds the context of a request from its parts and its body, with the id
/// that the boundary gave it. In scoped mode the leading provider segment is
/// taken off, so that the path starts alike in both modes.
pub fn build_ctx_with_request_id<I, O>(
    parts: RequestParts,
    body: Vec<u8>,
    scoped: bool,
    request_id: String,
) -> (r: Result<RequestCtx<I, O>, ExtractError>)
    ensures
        r is Err <==> scoped && provider_and_rest(parts.uri.path@) is None,
        r matches Ok(ctx) ==> {
            &&& is_routed(ctx.mode, ctx.path@, parts.uri.path@, scoped)
            &&& ctx.request_id == request_id
            &&& ctx.method == parts.method
            &&& ctx.query == parts.uri.query
            &&& ctx.headers == parts.headers
            &&& ctx.body == body
            &&& ctx.is_fresh()
        },
{
    let (mode, path) = if scoped {
        match split_provider(parts.uri.path.as_str()) {
            Some((provider, rest)) => {
                let path = join3("/", rest, "");
                proof {
                    reveal_strlit("");
                    assert(path@ =~= "/"@ + rest@);
                }
                (RoutingMode::Named { name: provider.to_owned() }, path)
            },
            None => {
                return Err(ExtractError::UnsupportedPath);
            },
        }
    } else {
        (RoutingMode::Aggregated, parts.uri.path.clone())
    };
    Ok(
        RequestCtx {
            request_id,
            method: parts.method,
            path,
            query: parts.uri.query,
            headers: parts.headers,
            body,
            mode,
            identity: None,
            op: None,
            stream: false,
            body_model: None,
            route_name: None,
            pending_micros: 0,
        },
    )
}

/// A provider that a path names is never a reserved segment, and the path is
/// some slashes, the provider, a slash and the rest.
pub proof fn law_provider_of_path(path: Seq<char>)
    ensures
        provider_and_rest(path) matches Some((provider, rest)) ==> {
            &&& is_provider_name(provider)
            &&& exists|n: int|
                0 <= n <= path.len() && (forall|i: int| 0 <= i < n ==> path[i] == '/')
                    && #[trigger] path.skip(n) == provider + seq!['/'] + rest
        },
{
    let t = drop_leading(path, '/');
    lemma_drop_leading(path, '/');
    lemma_first_index(t, '/');
    if let Some((provider, rest)) = provider_and_rest(path) {
        let n = path.len() - t.len();
        lemma_leading_run(path, '/');
        assert(path.skip(n) =~= provider + seq!['/'] + rest);
    }
}

proof fn lemma_leading_run(s: Seq<char>, c: char)
    ensures
        forall|i: int| 0 <= i < s.len() - drop_leading(s, c).len() ==> s[i] == c,
    decreases s.len(),
{
    if s.len() > 0 && s[0] == c {
        lemma_leading_run(s.drop_first(), c);
        let t = s.drop_first();
        assert forall|i: int| 0 <= i < s.len() - drop_leading(s, c).len() implies s[i] == c by {
            if i > 0 {
                assert(t[i - 1] == s[i]);
            }
        }
    }
}

/// Every name that can stand in a path names its provider there, whatever
/// follows.
pub proof fn law_path_of_provider(name: Seq<char>, rest: Seq<char>)
    requires
        is_provider_name(name),
    ensures
        provider_and_rest(seq!['/'] + name + seq!['/'] + rest) == Some((name, rest)),
{
    let path = seq!['/'] + name + seq!['/'] + rest;
    let t = name + seq!['/'] + rest;
    assert(path.drop_first() =~= t);
    assert(t[0] == name[0]);
    assert(drop_leading(t, '/') == t);
    assert(drop_leading(path, '/') == t);
    lemma_first_index_unique(t, '/', name.len() as int);
    assert(t.take(name.len() as int) =~= name);
    assert(t.skip(name.len() as int + 1) =~= rest);
}

/// A scoped request goes to the provider that its path names, with the rest of
/// the path, and an aggregated request keeps its path: both see the same path.
pub proof fn law_both_modes_see_one_path(
    name: Seq<char>,
    rest: Seq<char>,
    scoped: RoutingMode,
    scoped_to: Seq<char>,
    aggregated: RoutingMode,
    aggregated_to: Seq<char>,
)
    requires
        is_provider_name(name),
        is_routed(scoped, scoped_to, seq!['/'] + name + seq!['/'] + rest, true),
        is_routed(aggregated, aggregated_to, seq!['/'] + rest, false),
    ensures
        scoped matches RoutingMode::Named { name: n } && n@ == name,
        aggregated is Aggregated,
        scoped_to == aggregated_to,
        scoped_to == seq!['/'] + rest,
{
    reveal_strlit("/");
    law_path_of_provider(name, rest);
    assert("/"@ =~= seq!['/']);
}

/// A path whose first segment is reserved names no provider.
pub proof fn law_reserved_path(segment: Seq<char>, rest: Seq<char>)
    requires
        is_reserved(segment),
    ensures
        provider_and_rest(seq!['/'] + segment + seq!['/'] + rest) is None,
{
    reveal_strlit("v1");
    reveal_strlit("v1beta");
    reveal_strlit("console");
    let path = seq!['/'] + segment + seq!['/'] + rest;
    let t = segment + seq!['/'] + rest;
    assert(path.drop_first() =~= t);
    assert(t[0] == segment[0]);
    assert(drop_leading(t, '/') == t);
    assert(drop_leading(path, '/') == t);
    lemma_first_index_unique(t, '/', segment.len() as int);
    assert(t.take(segment.len() as int) =~= segment);
}

} // verus!
