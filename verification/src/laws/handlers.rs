//! What the native handlers decide.

use super::frames::lemma_own_errors;
use super::routing::{lemma_segment_alone, lemma_segment_named, slashes};
use super::terms::{says_own_error, views};
use crate::extract::{RequestCtx, RequestParts, RoutingMode};
use crate::gateway::{
    looks_like_websocket, on_socket_event, on_stream_batch, on_stream_piece, overload_reply,
    plan_body, plan_relay, plan_request, plan_websocket, BodyPlan, EarlyReply, RelayPlan,
    RequestPlan, SocketAction, SocketEvent, StreamDemand, StreamStep, WebsocketPlan,
};
use crate::headers::{header_fields, is_header_text};
use crate::responses_ws::{
    is_responses_websocket_path, is_scoped_responses_websocket_path, texts, Batch, Chunk,
};
use crate::text::{ascii_lower, ascii_lowered, has_run, run_at};
use vstd::prelude::*;
use vstd::utf8::{encode_utf8, valid_utf8};

verus! {

/// Whether a byte is a lower-case character, or the same letter in upper case.
pub open spec fn is_letter(b: u8, c: char) -> bool {
    b as int == c as int || ('a' <= c <= 'z' && b as int + 32 == c as int)
}

/// Whether bytes spell a lower-case word, in any case of letters.
pub open spec fn spells(v: Seq<u8>, word: Seq<char>) -> bool {
    v.len() == word.len() && forall|i: int|
        0 <= i < v.len() ==> is_letter(#[trigger] v[i], word[i])
}

/// Whether bytes hold a lower-case word somewhere, in any case of letters.
pub open spec fn holds_word(v: Seq<u8>, word: Seq<char>) -> bool {
    exists|i: int| #[trigger] spells_at(v, word, i)
}

/// Whether bytes hold a lower-case word at a position, in any case of letters.
pub open spec fn spells_at(v: Seq<u8>, word: Seq<char>, i: int) -> bool {
    0 <= i && i + word.len() <= v.len() && spells(v.subrange(i, i + word.len()), word)
}

/// Whether a value is printable ASCII, with spaces and tabs.
pub open spec fn is_printable(v: Seq<u8>) -> bool {
    forall|i: int| 0 <= i < v.len() ==> (32 <= #[trigger] v[i] && v[i] <= 126) || v[i] == 9
}

/// Whether a reply has the given parts.
pub open spec fn is_reply(
    reply: EarlyReply,
    status: u16,
    body: Seq<char>,
    error: Seq<char>,
) -> bool {
    reply.status == status && reply.body@ == body && (reply.error matches Some(e) && e@ == error)
}

proof fn lemma_spells(v: Seq<u8>, word: Seq<char>)
    requires
        forall|i: int| 0 <= i < word.len() ==> 'a' <= #[trigger] word[i] <= 'z',
    ensures
        ascii_lowered(v) == encode_utf8(word) <==> spells(v, word),
        encode_utf8(word).len() == word.len(),
{
    assert(vstd::utf8::is_ascii_chars(word));
    vstd::utf8::is_ascii_chars_encode_utf8(word);
    let low = ascii_lowered(v);
    let code = encode_utf8(word);
    assert(forall|i: int| 0 <= i < word.len() ==> word[i] as u8 == #[trigger] code[i]);
    if low == code {
        assert forall|i: int| 0 <= i < v.len() implies is_letter(#[trigger] v[i], word[i]) by {
            assert(low[i] == ascii_lower(v[i]));
            assert(code[i] == word[i] as u8);
            assert('a' <= word[i] <= 'z');
        }
    }
    if spells(v, word) {
        assert forall|i: int| 0 <= i < low.len() implies #[trigger] low[i] == code[i] by {
            assert(is_letter(v[i], word[i]));
            assert('a' <= word[i] <= 'z');
        }
        assert(low =~= code);
    }
}

proof fn lemma_holds_word(v: Seq<u8>, word: Seq<char>)
    requires
        forall|i: int| 0 <= i < word.len() ==> 'a' <= #[trigger] word[i] <= 'z',
    ensures
        has_run(ascii_lowered(v), encode_utf8(word)) <==> holds_word(v, word),
{
    let low = ascii_lowered(v);
    let code = encode_utf8(word);
    lemma_spells(v, word);
    assert forall|i: int| run_at(low, code, i) == #[trigger] spells_at(v, word, i) by {
        if 0 <= i && i + word.len() <= v.len() {
            let part = v.subrange(i, i + word.len());
            assert(low.subrange(i, i + word.len()) =~= ascii_lowered(part));
            lemma_spells(part, word);
        }
    }
    if has_run(low, code) {
        let i = choose|i: int| #[trigger] run_at(low, code, i);
        assert(spells_at(v, word, i));
    }
    if holds_word(v, word) {
        let i = choose|i: int| #[trigger] spells_at(v, word, i);
        assert(run_at(low, code, i));
    }
}

/// A request asks for a WebSocket just where the first value of its `Upgrade`
/// header spells `websocket`, and the first value of its `Connection` header is
/// text that holds `upgrade`, in any case of letters. No other header counts.
pub proof fn law_handshake(parts: &RequestParts, r: bool)
    requires
        call_ensures(looks_like_websocket, (parts,), r),
    ensures
        ({
            let fields = header_fields(parts.headers);
            r <==> {
                &&& fields.dom().contains("upgrade"@)
                &&& spells(fields["upgrade"@][0], "websocket"@)
                &&& fields.dom().contains("connection"@)
                &&& is_printable(fields["connection"@][0])
                &&& holds_word(fields["connection"@][0], "upgrade"@)
            }
        }),
{
    reveal_strlit("websocket");
    reveal_strlit("upgrade");
    let fields = header_fields(parts.headers);
    lemma_spells(fields["upgrade"@][0], "websocket"@);
    lemma_holds_word(fields["connection"@][0], "upgrade"@);
    assert(is_header_text(fields["connection"@][0]) == is_printable(fields["connection"@][0]));
}

/// Two requests with the same first `Upgrade` and `Connection` values are told
/// apart from ordinary ones alike, whatever else they carry.
pub proof fn law_handshake_depends_on_two_headers(
    a: &RequestParts,
    b: &RequestParts,
    of_a: bool,
    of_b: bool,
)
    requires
        call_ensures(looks_like_websocket, (a,), of_a),
        call_ensures(looks_like_websocket, (b,), of_b),
        ({
            let x = header_fields(a.headers);
            let y = header_fields(b.headers);
            &&& x.dom().contains("upgrade"@) == y.dom().contains("upgrade"@)
            &&& x.dom().contains("connection"@) == y.dom().contains("connection"@)
            &&& x.dom().contains("upgrade"@) ==> x["upgrade"@][0] == y["upgrade"@][0]
            &&& x.dom().contains("connection"@) ==> x["connection"@][0] == y["connection"@][0]
        }),
    ensures
        of_a == of_b,
{
    law_handshake(a, of_a);
    law_handshake(b, of_b);
}

/// An upgrade is always served as a WebSocket; without one a realtime path is
/// answered with 426, and any other request is read.
pub proof fn law_request_plan(upgrade: bool, realtime: bool, r: RequestPlan)
    requires
        call_ensures(plan_request, (upgrade, realtime), r),
    ensures
        upgrade ==> r is Websocket,
        !upgrade && !realtime ==> r is ReadBody,
        !upgrade && realtime ==> (r matches RequestPlan::Reply(reply) && is_reply(
            reply,
            426,
            "websocket upgrade required"@,
            "websocket upgrade required"@,
        )),
{
}

/// Whether a context holds everything of a request but its route.
pub open spec fn holds_request<I, O>(
    ctx: RequestCtx<I, O>,
    parts: RequestParts,
    body: Vec<u8>,
    request_id: String,
) -> bool {
    &&& ctx.request_id == request_id && ctx.method == parts.method && ctx.query == parts.uri.query
    &&& ctx.headers == parts.headers && ctx.body == body
    &&& ctx.identity is None && ctx.op is None && !ctx.stream
    &&& ctx.body_model is None && ctx.route_name is None && ctx.pending_micros == 0
}

/// A body that could not be read is answered with 400. Any other request is
/// executed: an aggregated one under its own path, and a scoped one for the
/// provider that its path names, under the path behind it.
pub proof fn law_body_plan<I, O>(
    k: nat,
    name: Seq<char>,
    rest: Seq<char>,
    parts: RequestParts,
    body: Option<Vec<u8>>,
    scoped: bool,
    request_id: String,
    r: BodyPlan<I, O>,
)
    requires
        call_ensures(plan_body::<I, O>, (parts, body, scoped, request_id), r),
        name.len() > 0,
        forall|i: int| 0 <= i < name.len() ==> #[trigger] name[i] != '/',
    ensures
        body is None ==> (r matches BodyPlan::Reply(reply) && is_reply(
            reply,
            400,
            "failed to read request body"@,
            "failed to read request body"@,
        )),
        body matches Some(bytes) ==> !scoped ==> (r matches BodyPlan::Execute(ctx) && ctx.mode
            is Aggregated && ctx.path@ == parts.uri.path@ && holds_request(
            ctx,
            parts,
            bytes,
            request_id,
        )),
        body matches Some(bytes) ==> scoped && parts.uri.path@ == slashes(k) + name + seq!['/']
            + rest ==> if name == "v1"@ || name == "v1beta"@ || name == "console"@ {
            r is UnsupportedPath
        } else {
            r matches BodyPlan::Execute(ctx) && (ctx.mode matches RoutingMode::Named { name: n }
                && n@ == name) && ctx.path@ == seq!['/'] + rest && holds_request(
                ctx,
                parts,
                bytes,
                request_id,
            )
        },
        body is Some && scoped && (parts.uri.path@ == slashes(k) + name || parts.uri.path@
            == slashes(k)) ==> r is UnsupportedPath,
{
    reveal_strlit("/");
    assert("/"@ =~= seq!['/']);
    lemma_segment_named(k, name, rest);
    lemma_segment_alone(k, name);
    lemma_segment_alone(k, Seq::empty());
    assert(slashes(k) + Seq::<char>::empty() =~= slashes(k));
}

/// An upgrade on a realtime path opens a session where path and route agree on a
/// provider; one on a Responses path is served where they agree; and any other
/// is answered with 404.
pub proof fn law_websocket_plan(
    path: &str,
    scoped: bool,
    realtime: Option<bool>,
    served: bool,
    of_provider: bool,
    r: WebsocketPlan,
)
    requires
        call_ensures(is_responses_websocket_path, (path,), served),
        call_ensures(is_scoped_responses_websocket_path, (path,), of_provider),
        call_ensures(plan_websocket, (path, scoped, realtime), r),
    ensures
        r is Realtime <==> realtime == Some(scoped),
        r is Responses <==> realtime is None && served && scoped == of_provider,
        !(r is Realtime) && !(r is Responses) ==> (r matches WebsocketPlan::Reply(reply)
            && is_reply(reply, 404, ""@, "unsupported websocket path"@)),
{
}

/// Text is relayed as it is, and binary frames as the text that they encode;
/// those that encode none are refused. Pings and pongs change nothing, and
/// whatever ends the socket ends the session.
pub proof fn law_socket_event(event: SocketEvent, r: SocketAction)
    requires
        call_ensures(on_socket_event, (event,), r),
    ensures
        match event {
            SocketEvent::Text(text) => r matches SocketAction::Relay(out) && out@ == text@,
            SocketEvent::Binary(bytes) => if valid_utf8(bytes@) {
                r matches SocketAction::Relay(out) && encode_utf8(out@) == bytes@
            } else {
                r matches SocketAction::Reply(out) && says_own_error(
                    out@,
                    422,
                    "binary websocket frame is not UTF-8 JSON"@,
                )
            },
            SocketEvent::Ping | SocketEvent::Pong => r is Wait,
            SocketEvent::Close | SocketEvent::Failed | SocketEvent::Ended => r is Stop,
        },
{
    lemma_own_errors(422, "binary websocket frame is not UTF-8 JSON"@);
    if let SocketEvent::Binary(bytes) = event {
        if valid_utf8(bytes@) {
            vstd::utf8::decode_utf8_encode_utf8(bytes@);
        }
    }
}

/// Just a streamed body with a status from 200 to 299 is sent piece by piece.
pub proof fn law_relay_plan(status: u16, streamed: bool, r: RelayPlan)
    requires
        call_ensures(plan_relay, (status, streamed), r),
    ensures
        r is Stream <==> 200 <= status <= 299 && streamed,
        r is Collect <==> !(200 <= status <= 299 && streamed),
{
}

/// A piece of a relayed body is decoded, and its end flushes the decoder. What
/// decoding gives is sent as it is and goes on. A piece that did not arrive, or
/// could not be read, is answered with one error, and nothing follows.
pub proof fn law_relay_step(
    piece: Option<Chunk>,
    demand: StreamDemand,
    batch: Batch,
    step: StreamStep,
)
    requires
        call_ensures(on_stream_piece, (piece,), demand),
        call_ensures(on_stream_batch, (batch,), step),
    ensures
        match piece {
            None => demand is Flush,
            Some(Ok(bytes)) => demand matches StreamDemand::Decode(out) && out@ == bytes@,
            Some(Err(reason)) => demand matches StreamDemand::Fail(out) && says_own_error(
                out@,
                502,
                reason@,
            ),
        },
        match batch {
            Ok(messages) => !step.stop && views(step.frames@) == views(messages@),
            Err(reason) => step.stop && step.frames@.len() == 1 && says_own_error(
                step.frames@[0]@,
                502,
                reason@,
            ),
        },
{
    if let Some(Err(reason)) = piece {
        lemma_own_errors(502, reason@);
    }
    match batch {
        Ok(messages) => {
            assert(texts(step.frames@) == texts(messages@));
            assert(views(step.frames@) =~= texts(step.frames@));
            assert(views(messages@) =~= texts(messages@));
        },
        Err(reason) => lemma_own_errors(502, reason@),
    }
}

/// A request that was shed is answered with 503, and one that the middleware
/// failed on for any other reason with 500.
pub proof fn law_overload_reply(overloaded: bool, r: EarlyReply)
    requires
        call_ensures(overload_reply, (overloaded,), r),
    ensures
        overloaded ==> is_reply(r, 503, "gateway overloaded"@, "gateway overloaded"@),
        !overloaded ==> is_reply(
            r,
            500,
            "gateway middleware failed"@,
            "gateway middleware failed"@,
        ),
{
}

} // verus!
