//! What the edge entry points decide, and how a host's request is taken over.

use super::frames::lemma_own_errors;
use super::terms::{chars_of_bytes, is_numeral, is_text, lemma_is_text, lemma_numeral, says_own_error};
use crate::edge::{
    error_to_ws, inbound_fields, inbound_headers, inbound_path, is_bad_entry, path_of_parsed,
    plan_fetch, plan_ops, plan_websocket_frame, request_parts, resp_to_ws, service_unavailable,
    text_response, text_response_with_request_id, unauthorized, uri_parsed, EdgeFramePlan,
    EdgeResponse, FetchPlan, OpsEndpoint, OpsPlan, PartsError,
};
use crate::extract::{RequestParts, RequestUri};
use crate::headers::{
    all_texts, header_fields, is_header_value, lower_char, pair_views, parsed_header_name,
    text_headers, texts_of, token_char, values_under, HeaderFields,
};
use crate::responses_ws::{
    is_responses_websocket_path, is_scoped_responses_websocket_path, PipelineFailure,
};
use crate::text::{begins_with, decimal};
use http::HeaderMap;
use vstd::prelude::*;
use vstd::utf8::encode_utf8;

verus! {

/// Whether a response has the given status, a content type, the correlation id
/// as its last header where there is one, and the given body.
pub open spec fn is_plain_response(
    r: EdgeResponse,
    status: u16,
    content_type: Seq<char>,
    request_id: Option<Seq<char>>,
    body: Seq<u8>,
) -> bool {
    &&& r.status == status && r.body@ == body
    &&& r.headers@.len() == if request_id is Some {
        2nat
    } else {
        1nat
    }
    &&& r.headers@[0].0@ == "content-type"@ && r.headers@[0].1@ == content_type
    &&& request_id matches Some(id) ==> r.headers@[1].0@ == "x-gproxy-request-id"@
        && r.headers@[1].1@ == id
}

/// Plain responses are what they were asked to be: the given status, type and
/// body, with the correlation id where one is given.
pub proof fn law_plain_responses(
    status: u16,
    content_type: &str,
    body: &[u8],
    message: &str,
    request_id: &str,
    plain: EdgeResponse,
    with_id: EdgeResponse,
    unavailable: EdgeResponse,
    refused: EdgeResponse,
)
    requires
        call_ensures(text_response, (status, content_type, body), plain),
        call_ensures(
            text_response_with_request_id,
            (status, content_type, body, request_id),
            with_id,
        ),
        call_ensures(service_unavailable, (message, request_id), unavailable),
        call_ensures(unauthorized, (), refused),
    ensures
        is_plain_response(plain, status, content_type@, None, body@),
        is_plain_response(with_id, status, content_type@, Some(request_id@), body@),
        is_plain_response(
            unavailable,
            503,
            "text/plain"@,
            Some(request_id@),
            encode_utf8(message@),
        ),
        is_plain_response(refused, 401, "text/plain"@, None, encode_utf8("unauthorized"@)),
{
    lemma_pairs(plain);
    lemma_pairs(with_id);
    lemma_pairs(unavailable);
    lemma_pairs(refused);
    assert(pair_views(plain.headers@)[0] == ("content-type"@, content_type@));
    assert(pair_views(refused.headers@)[0] == ("content-type"@, "text/plain"@));
}

proof fn lemma_pairs(r: EdgeResponse)
    ensures
        pair_views(r.headers@).len() == r.headers@.len(),
        forall|i: int|
            0 <= i < r.headers@.len() ==> #[trigger] pair_views(r.headers@)[i] == (
                r.headers@[i].0@,
                r.headers@[i].1@,
            ),
{
}

/// An error of the pipeline is answered with its status and its JSON, the
/// correlation id, and the wait before another attempt where there is one.
pub proof fn law_error_response(error: &PipelineFailure, request_id: &str, r: EdgeResponse)
    requires
        call_ensures(error_to_ws, (error, request_id), r),
    ensures
        r.status == error.status && r.body@ == encode_utf8(error.error_json@),
        r.headers@.len() == if error.retry_after_secs is Some {
            3nat
        } else {
            2nat
        },
        r.headers@[0].0@ == "content-type"@ && r.headers@[0].1@ == "application/json"@,
        r.headers@[1].0@ == "x-gproxy-request-id"@ && r.headers@[1].1@ == request_id@,
        error.retry_after_secs matches Some(secs) ==> r.headers@[2].0@ == "retry-after"@
            && is_numeral(r.headers@[2].1@, secs as int),
{
    lemma_pairs(r);
    if let Some(secs) = error.retry_after_secs {
        lemma_numeral(secs as nat);
        assert(pair_views(r.headers@)[2].0 == "retry-after"@);
        assert(pair_views(r.headers@)[2].1 == decimal(secs as nat));
    }
    assert(pair_views(r.headers@)[0].0 == "content-type"@);
    assert(pair_views(r.headers@)[1].0 == "x-gproxy-request-id"@);
}

/// The values that a list of pairs gives a name, in order.
pub open spec fn listed(pairs: Seq<(String, String)>, name: Seq<char>) -> Seq<Seq<char>> {
    pairs.filter(|p: (String, String)| p.0@ == name).map_values(|p: (String, String)| p.1@)
}

/// Those of some values that are text, in order.
pub open spec fn text_values(values: Seq<Seq<u8>>) -> Seq<Seq<char>> {
    values.filter(|v: Seq<u8>| is_text(v)).map_values(|v: Seq<u8>| chars_of_bytes(v))
}

proof fn lemma_listed(pairs: Seq<(String, String)>, name: Seq<char>)
    ensures
        texts_of(pair_views(pairs), name) == listed(pairs, name),
    decreases pairs.len(),
{
    reveal(Seq::filter);
    if pairs.len() == 0 {
        assert(listed(pairs, name) =~= Seq::empty());
    } else {
        let front = pairs.drop_last();
        lemma_listed(front, name);
        assert(pair_views(pairs).drop_last() =~= pair_views(front));
        assert(pair_views(pairs).last() == (pairs.last().0@, pairs.last().1@));
        if pairs.last().0@ == name {
            assert(listed(pairs, name) =~= listed(front, name).push(pairs.last().1@));
        } else {
            assert(listed(pairs, name) =~= listed(front, name));
        }
    }
}

proof fn lemma_text_values(values: Seq<Seq<u8>>)
    ensures
        all_texts(values) == text_values(values),
    decreases values.len(),
{
    reveal(Seq::filter);
    if values.len() == 0 {
        assert(text_values(values) =~= Seq::empty());
    } else {
        let front = values.drop_last();
        lemma_text_values(front);
        lemma_is_text(values.last());
        if is_text(values.last()) {
            assert(text_values(values) =~= text_values(front).push(chars_of_bytes(values.last())));
        } else {
            assert(text_values(values) =~= text_values(front));
        }
    }
}

/// A response is handed on with its status and its body, and of each header just
/// the values that are text, in order.
pub proof fn law_handed_on(
    status: u16,
    headers: &HeaderMap,
    body: Vec<u8>,
    r: EdgeResponse,
    pairs: Vec<(String, String)>,
    name: Seq<char>,
)
    requires
        call_ensures(resp_to_ws, (status, headers, body), r),
        call_ensures(text_headers, (headers,), pairs),
    ensures
        r.status == status && r.body@ == body@,
        ({
            let fields = header_fields(*headers);
            let expected = if fields.dom().contains(name) {
                text_values(fields[name])
            } else {
                Seq::empty()
            };
            listed(r.headers@, name) == expected && listed(pairs@, name) == expected
        }),
{
    reveal(Seq::filter);
    lemma_listed(r.headers@, name);
    lemma_listed(pairs@, name);
    let values = values_under(header_fields(*headers), name);
    lemma_text_values(values);
    assert(text_values(Seq::empty()) =~= Seq::empty());
}

/// Whether a text starts with another.
pub open spec fn has_prefix(s: Seq<char>, prefix: Seq<char>) -> bool {
    s.len() >= prefix.len() && forall|i: int| 0 <= i < prefix.len() ==> s[i] == #[trigger] prefix[i]
}

proof fn lemma_prefix(s: Seq<char>, prefix: Seq<char>)
    ensures
        begins_with(s, prefix) == has_prefix(s, prefix),
{
    if begins_with(s, prefix) {
        assert forall|i: int| 0 <= i < prefix.len() implies s[i] == #[trigger] prefix[i] by {
            assert(s.take(prefix.len() as int)[i] == s[i]);
        }
    }
    if has_prefix(s, prefix) {
        assert(s.take(prefix.len() as int) =~= prefix);
    }
}

/// Nothing is served before the edge is set up, and no realtime session after.
/// Three paths are operational endpoints, everything below `/admin/` and `/user/`
/// belongs to the control plane, and all else to the gateway: without a provider
/// just at and below `/v1` and `/v1beta`.
pub proof fn law_fetch(
    initialised: bool,
    realtime: bool,
    path: &str,
    request_id: &str,
    r: FetchPlan,
)
    requires
        call_ensures(plan_fetch, (initialised, realtime, path, request_id), r),
    ensures
        ({
            let p = path@;
            let serving = initialised && !realtime;
            let ops = p == "/healthz"@ || p == "/version"@ || p == "/metrics"@;
            let admin = has_prefix(p, "/admin/"@) || has_prefix(p, "/user/"@);
            let aggregated = p == "/v1"@ || has_prefix(p, "/v1/"@) || p == "/v1beta"@ || has_prefix(
                p,
                "/v1beta/"@,
            );
            &&& !initialised ==> (r matches FetchPlan::Reply { response, error }
                && is_plain_response(
                response,
                503,
                "text/plain"@,
                Some(request_id@),
                encode_utf8("GPROXY edge not initialised: call init() first"@),
            ) && error@ == "edge not initialised"@)
            &&& initialised && realtime ==> (r matches FetchPlan::Reply { response, error }
                && is_plain_response(
                response,
                501,
                "text/plain"@,
                Some(request_id@),
                encode_utf8("OpenAI Realtime WebSocket passthrough is not supported on edge"@),
            ) && error@ == "realtime websocket unsupported on edge"@)
            &&& serving && p == "/healthz"@ ==> r == FetchPlan::Ops(OpsEndpoint::Healthz)
            &&& serving && p == "/version"@ ==> r == FetchPlan::Ops(OpsEndpoint::Version)
            &&& serving && p == "/metrics"@ ==> r == FetchPlan::Ops(OpsEndpoint::Metrics)
            &&& serving && !ops && admin ==> r is Admin
            &&& serving && !ops && !admin ==> r == (FetchPlan::Gateway { scoped: !aggregated })
        }),
{
    lemma_prefix(path@, "/admin/"@);
    lemma_prefix(path@, "/user/"@);
    lemma_prefix(path@, "/v1/"@);
    lemma_prefix(path@, "/v1beta/"@);
    if let FetchPlan::Reply { response, error } = r {
        lemma_pairs(response);
    }
    reveal_strlit("/healthz");
    reveal_strlit("/version");
    reveal_strlit("/metrics");
    assert("/healthz"@[1] == 'h' && "/version"@[1] == 'v' && "/metrics"@[1] == 'm');
}

/// An operational endpoint answers an administrator and nobody else.
pub proof fn law_ops(endpoint: OpsEndpoint, is_admin: bool, r: OpsPlan)
    requires
        call_ensures(plan_ops, (endpoint, is_admin), r),
    ensures
        is_admin ==> r == OpsPlan::Serve(endpoint),
        !is_admin ==> (r matches OpsPlan::Refuse(response) && is_plain_response(
            response,
            401,
            "text/plain"@,
            None,
            encode_utf8("unauthorized"@),
        )),
{
    if let OpsPlan::Refuse(response) = r {
        lemma_pairs(response);
        if !is_admin {
            assert(pair_views(response.headers@)[0] == ("content-type"@, "text/plain"@));
        }
    }
}

/// A frame is executed just where the edge is set up and the path serves
/// Responses WebSockets, and is answered with one error anywhere else.
pub proof fn law_edge_frame(
    initialised: bool,
    realtime: bool,
    path: &str,
    served: bool,
    of_provider: bool,
    r: EdgeFramePlan,
)
    requires
        call_ensures(is_responses_websocket_path, (path,), served),
        call_ensures(is_scoped_responses_websocket_path, (path,), of_provider),
        call_ensures(plan_websocket_frame, (initialised, realtime, path), r),
    ensures
        !initialised ==> (r matches EdgeFramePlan::Reply(f) && says_own_error(
            f@,
            503,
            "GPROXY edge not initialised: call init() first"@,
        )),
        initialised && realtime ==> (r matches EdgeFramePlan::Reply(f) && says_own_error(
            f@,
            501,
            "OpenAI Realtime WebSocket passthrough is not supported on edge"@,
        )),
        initialised && !realtime && !served ==> (r matches EdgeFramePlan::Reply(f)
            && says_own_error(f@, 404, "unsupported path"@)),
        initialised && !realtime && served ==> r == (EdgeFramePlan::Execute {
            scoped: of_provider,
        }),
{
    lemma_own_errors(503, "GPROXY edge not initialised: call init() first"@);
    lemma_own_errors(501, "OpenAI Realtime WebSocket passthrough is not supported on edge"@);
    lemma_own_errors(404, "unsupported path"@);
}

/// Whether a character may stand in a token.
pub open spec fn is_token_char(c: char) -> bool {
    ||| 'a' <= c <= 'z'
    ||| 'A' <= c <= 'Z'
    ||| '0' <= c <= '9'
    ||| c == '!' || c == '#' || c == '$' || c == '%' || c == '&' || c == '\'' || c == '*'
    ||| c == '+' || c == '-' || c == '.' || c == '^' || c == '_' || c == '`' || c == '|' || c == '~'
}

/// Whether a text is a token.
pub open spec fn is_token(s: Seq<char>) -> bool {
    s.len() > 0 && forall|i: int| 0 <= i < s.len() ==> is_token_char(#[trigger] s[i])
}

/// A text with its ASCII letters in lower case.
pub open spec fn in_lower_case(s: Seq<char>) -> Seq<char> {
    Seq::new(
        s.len(),
        |i: int|
            if 'A' <= s[i] <= 'Z' {
                (s[i] as u32 + 32) as char
            } else {
                s[i]
            },
    )
}

/// Whether a text can be a header's value: no control characters but the tab.
pub open spec fn is_value(s: Seq<char>) -> bool {
    let v = encode_utf8(s);
    forall|i: int| 0 <= i < v.len() ==> #[trigger] v[i] == 9 || (v[i] >= 32 && v[i] != 127)
}

/// Whether a text names a header.
pub open spec fn names_header(s: Seq<char>) -> bool {
    is_token(s) && s.len() <= 65535
}

proof fn lemma_token_char(c: char)
    ensures
        token_char(c) == is_token_char(c),
{
}

pub(crate) proof fn lemma_names_header(s: Seq<char>)
    ensures
        parsed_header_name(s) is Some <==> names_header(s),
        parsed_header_name(s) matches Some(n) ==> n == in_lower_case(s),
{
    assert forall|i: int| 0 <= i < s.len() implies token_char(#[trigger] s[i]) == is_token_char(
        s[i],
    ) by {
        lemma_token_char(s[i]);
    }
    if is_token(s) {
        assert forall|i: int| 0 <= i < s.len() implies token_char(#[trigger] s[i]) by {
            assert(is_token_char(s[i]));
        }
    }
    if parsed_header_name(s) is Some {
        assert forall|i: int| 0 <= i < s.len() implies is_token_char(#[trigger] s[i]) by {
            assert(token_char(s[i]));
        }
    }
    assert(s.map_values(|c: char| lower_char(c)) =~= in_lower_case(s));
}

/// No entries make no headers. One more entry adds its value behind those that
/// its name has, in lower case, where it names a header, and changes nothing
/// where it does not.
pub proof fn law_inbound_entry(
    before: &Vec<(String, String)>,
    after: &Vec<(String, String)>,
    of_before: Result<HeaderMap, PartsError>,
    of_after: Result<HeaderMap, PartsError>,
)
    requires
        call_ensures(inbound_headers, (before,), of_before),
        call_ensures(inbound_headers, (after,), of_after),
        after@.len() > 0,
        before@ == after@.drop_last(),
    ensures
        before@.len() == 0 ==> (of_before matches Ok(h) && forall|name: Seq<char>|
            !(#[trigger] header_fields(h).dom().contains(name))),
        of_before matches Ok(a) ==> of_after matches Ok(b) ==> {
            let name = after@.last().0@;
            let value = encode_utf8(after@.last().1@);
            let key = in_lower_case(name);
            let x = header_fields(a);
            let y = header_fields(b);
            if names_header(name) {
                &&& is_value(after@.last().1@)
                &&& y == x.insert(
                    key,
                    if x.dom().contains(key) {
                        x[key].push(value)
                    } else {
                        seq![value]
                    },
                )
            } else {
                y == x
            }
        },
{
    let p = pair_views(before@);
    let q = pair_views(after@);
    let name = after@.last().0@;
    lemma_names_header(name);
    assert(q.drop_last() =~= p);
    assert(q.last() == (name, after@.last().1@));
    if before@.len() == 0 {
        assert(p =~= Seq::empty());
        assert(inbound_fields(p) == HeaderFields::empty());
        lemma_inbound_count(before);
    }
    if let Ok(b) = of_after {
        if names_header(name) {
            assert(!is_bad_entry(q[q.len() - 1]));
            lemma_is_value(after@.last().1@);
            let key = in_lower_case(name);
            let x = inbound_fields(p);
            if !x.dom().contains(key) {
                assert(Seq::<Seq<u8>>::empty().push(encode_utf8(after@.last().1@)) =~= seq![
                    encode_utf8(after@.last().1@),
                ]);
            }
        }
    }
}

proof fn lemma_is_value(s: Seq<char>)
    ensures
        is_header_value(encode_utf8(s)) == is_value(s),
{
}

proof fn lemma_inbound_count(entries: &Vec<(String, String)>)
    ensures
        inbound_fields(pair_views(entries@)).dom().finite(),
        inbound_fields(pair_views(entries@)).dom().len() <= entries@.len(),
{
    lemma_count(pair_views(entries@));
}

proof fn lemma_count(entries: Seq<(Seq<char>, Seq<char>)>)
    ensures
        inbound_fields(entries).dom().finite(),
        inbound_fields(entries).dom().len() <= entries.len(),
    decreases entries.len(),
{
    if entries.len() > 0 {
        lemma_count(entries.drop_last());
    }
}

/// Headers are taken over unless an entry that names one has a value that no
/// header can have, or there are more names than fit. Up to 6553 entries always
/// fit.
pub proof fn law_inbound_errors(
    entries: &Vec<(String, String)>,
    r: Result<HeaderMap, PartsError>,
)
    requires
        call_ensures(inbound_headers, (entries,), r),
    ensures
        ({
            let bad = exists|i: int|
                0 <= i < entries@.len() && names_header((#[trigger] entries@[i]).0@) && !is_value(
                    entries@[i].1@,
                );
            &&& r is Ok ==> !bad
            &&& r matches Err(e) ==> (e is HeaderValue && bad) || e is HeadersFull
            &&& entries@.len() <= 6553 ==> r is Ok || (r matches Err(e) && e is HeaderValue)
        }),
{
    let q = pair_views(entries@);
    lemma_inbound_count(entries);
    assert forall|i: int| 0 <= i < entries@.len() implies is_bad_entry(q[i]) == (names_header(
        (#[trigger] entries@[i]).0@,
    ) && !is_value(entries@[i].1@)) by {
        lemma_names_header(entries@[i].0@);
        lemma_is_value(entries@[i].1@);
        assert(q[i] == (entries@[i].0@, entries@[i].1@));
    }
    if exists|i: int|
        0 <= i < entries@.len() && names_header((#[trigger] entries@[i]).0@) && !is_value(
            entries@[i].1@,
        ) {
        let i = choose|i: int|
            0 <= i < entries@.len() && names_header((#[trigger] entries@[i]).0@) && !is_value(
                entries@[i].1@,
            );
        assert(is_bad_entry(q[i]));
    }
    if r matches Err(e) && e is HeaderValue {
        let i = choose|i: int| 0 <= i < q.len() && is_bad_entry(#[trigger] q[i]);
        assert(names_header(entries@[i].0@));
    }
}

/// However many entries there are, they fit where they name at most 6553 headers
/// in all.
pub proof fn law_inbound_names_fit(
    entries: &Vec<(String, String)>,
    names: Set<Seq<char>>,
    r: Result<HeaderMap, PartsError>,
)
    requires
        call_ensures(inbound_headers, (entries,), r),
        names.finite(),
        names.len() <= 6553,
        forall|i: int|
            0 <= i < entries@.len() && names_header((#[trigger] entries@[i]).0@) ==> names.contains(
                in_lower_case(entries@[i].0@),
            ),
    ensures
        !(r matches Err(e) && e is HeadersFull),
{
    lemma_inbound_count(entries);
    lemma_inbound_names(entries@, names);
    vstd::set_lib::lemma_len_subset(inbound_fields(pair_views(entries@)).dom(), names);
}

proof fn lemma_inbound_names(entries: Seq<(String, String)>, names: Set<Seq<char>>)
    requires
        forall|i: int|
            0 <= i < entries.len() && names_header((#[trigger] entries[i]).0@) ==> names.contains(
                in_lower_case(entries[i].0@),
            ),
    ensures
        inbound_fields(pair_views(entries)).dom().subset_of(names),
    decreases entries.len(),
{
    if entries.len() > 0 {
        let front = entries.drop_last();
        assert forall|i: int| 0 <= i < front.len() && names_header(
            (#[trigger] front[i]).0@,
        ) implies names.contains(in_lower_case(front[i].0@)) by {
            assert(front[i] == entries[i]);
        }
        lemma_inbound_names(front, names);
        assert(pair_views(entries).drop_last() =~= pair_views(front));
        let n = entries.len() - 1;
        assert(pair_views(entries).last() == (entries[n].0@, entries[n].1@));
        lemma_names_header(entries[n].0@);
    }
}

/// A host's request is taken over with its method, the path and query of its
/// target, and its headers. A method that is no token, a target that cannot be
/// parsed and a header's value that is none are errors, and the first of them is
/// reported as the host is shown it.
pub proof fn law_host_request(
    method: &str,
    url: &str,
    entries: &Vec<(String, String)>,
    headers: Result<HeaderMap, PartsError>,
    r: Result<RequestParts, PartsError>,
)
    requires
        call_ensures(inbound_headers, (entries,), headers),
        call_ensures(request_parts, (method, url, entries), r),
    ensures
        !is_token(method@) ==> (r matches Err(e) && e is Method),
        is_token(method@) && uri_parsed(url@) is Err ==> (r matches Err(PartsError::Target {
            reason,
        }) && uri_parsed(url@) == Result::<(Seq<char>, Option<Seq<char>>), Seq<char>>::Err(
            reason@,
        )),
        is_token(method@) && uri_parsed(url@) is Ok ==> (r matches Err(e) ==> (e is HeaderValue
            && !(headers is Ok)) || e is HeadersFull),
        entries@.len() <= 6553 ==> !(r matches Err(e) && e is HeadersFull),
        headers matches Err(e) && e is HeaderValue ==> !(r is Ok),
        r matches Ok(parts) ==> {
            &&& parts.method@ == method@
            &&& uri_parsed(url@) matches Ok((path, query))
            &&& parts.uri.path@ == path
            &&& match query {
                Some(q) => parts.uri.query matches Some(s) && s@ == q,
                None => parts.uri.query is None,
            }
            &&& headers matches Ok(h) ==> header_fields(parts.headers) == header_fields(h)
        },
{
    lemma_method(method@);
    lemma_inbound_count(entries);
}

proof fn lemma_method(s: Seq<char>)
    ensures
        crate::edge::is_method(s) == is_token(s),
{
    assert forall|i: int| 0 <= i < s.len() implies token_char(#[trigger] s[i]) == is_token_char(
        s[i],
    ) by {
        lemma_token_char(s[i]);
    }
    if is_token(s) {
        assert forall|i: int| 0 <= i < s.len() implies token_char(#[trigger] s[i]) by {
            assert(is_token_char(s[i]));
        }
    }
    if crate::edge::is_method(s) {
        assert forall|i: int| 0 <= i < s.len() implies is_token_char(#[trigger] s[i]) by {
            assert(token_char(s[i]));
        }
    }
}

/// A request is logged with the path of its target, or with none where the target
/// cannot be parsed.
pub proof fn law_logged_path(
    url: &str,
    r: String,
    parsed: Result<RequestUri, String>,
    of_parsed: String,
)
    requires
        call_ensures(inbound_path, (url,), r),
        call_ensures(path_of_parsed, (parsed,), of_parsed),
    ensures
        uri_parsed(url@) matches Ok((path, _)) ==> r@ == path,
        uri_parsed(url@) is Err ==> r@.len() == 0,
        parsed matches Ok(uri) ==> of_parsed@ == uri.path@,
        parsed is Err ==> of_parsed@.len() == 0,
{
    reveal_strlit("");
}

/// What the host is told of a request that cannot be taken over.
pub proof fn law_parts_error_text(error: &PartsError, r: String)
    requires
        call_ensures(PartsError::debug_text, (error,), r),
    ensures
        error is Method ==> r@ == "InvalidMethod"@,
        *error matches PartsError::Target { reason } ==> r@ == reason@,
        error is HeaderValue ==> r@ == "http::Error(InvalidHeaderValue)"@,
        error is HeadersFull ==> r@ == "http::Error(MaxSizeReached)"@,
{
}

} // verus!
