//! The decisions that the gateway's handlers take: what a request is answered
//! with before it reaches the pipeline, and what is done with the frames of a
//! WebSocket.
//!
//! The handlers read, execute and send; each hands what it found to a function
//! here and does what the answer says.

use crate::extract::{
    build_ctx_with_request_id, is_routed, provider_and_rest, RequestCtx, RequestParts,
};
use crate::fold::{joined, lemma_joined_from_front};
use crate::headers::{
    first_value, header_fields, is_header_text, leading_value, value_text, HeaderFields,
};
use crate::json::json_rendered;
use crate::responses_ws::{
    batch_view, is_plain_frame, is_responses_websocket_path,
    is_scoped_responses_websocket_path, is_success, is_websocket_path, outcome_kind, plain_frame,
    plain_frame_model, texts, websocket_provider, Batch, BatchView, Chunk, OutcomeKind,
};
use crate::text::{
    ascii_lowered, contains_bytes, has_run, same_bytes, string_from_utf8, to_ascii_lower,
};
use vstd::prelude::*;
use vstd::utf8::{decode_utf8, encode_utf8, valid_utf8};

verus! {

/// A response that is given without the pipeline.
#[derive(Debug)]
pub struct EarlyReply {
    pub status: u16,
    pub body: String,
    /// The error that is logged with the response.
    pub error: Option<String>,
}

impl EarlyReply {
    /// Whether the response has the given parts.
    pub open spec fn says(&self, status: u16, body: Seq<char>, error: Option<Seq<char>>) -> bool {
        &&& self.status == status
        &&& self.body@ == body
        &&& match error {
            Some(e) => self.error matches Some(mine) && mine@ == e,
            None => self.error is None,
        }
    }
}

/// Whether the headers of a request ask for a WebSocket.
pub open spec fn asks_for_websocket(fields: HeaderFields) -> bool {
    &&& leading_value(fields, "upgrade"@) matches Some(upgrade)
    &&& ascii_lowered(upgrade) == encode_utf8("websocket"@)
    &&& leading_value(fields, "connection"@) matches Some(connection)
    &&& is_header_text(connection)
    &&& has_run(ascii_lowered(connection), encode_utf8("upgrade"@))
}

/// Whether a request asks for a WebSocket: its first `Upgrade` header says
/// `websocket`, and its first `Connection` header mentions `upgrade`, both in
/// any case of letters.
pub fn looks_like_websocket(parts: &RequestParts) -> (r: bool)
    ensures
        r == asks_for_websocket(header_fields(parts.headers)),
{
    proof {
        reveal_strlit("upgrade");
        reveal_strlit("connection");
    }
    match first_value(&parts.headers, "upgrade") {
        Some(upgrade) => {
            if !same_bytes(to_ascii_lower(upgrade.as_slice()).as_slice(), "websocket".as_bytes()) {
                return false;
            }
        },
        None => {
            return false;
        },
    }
    match first_value(&parts.headers, "connection") {
        Some(connection) => {
            let lowered = to_ascii_lower(connection.as_slice());
            value_text(connection).is_some() && contains_bytes(
                lowered.as_slice(),
                "upgrade".as_bytes(),
            )
        },
        None => false,
    }
}

/// What is done with a request before its body is read.
pub enum RequestPlan {
    /// It is upgraded to a WebSocket.
    Websocket,
    /// It is answered at once.
    Reply(EarlyReply),
    /// Its body is read.
    ReadBody,
}

/// Decides on a request before its body is read. A realtime path serves nothing
/// but WebSockets.
pub fn plan_request(upgrade: bool, realtime_path: bool) -> (r: RequestPlan)
    ensures
        r is Websocket <==> upgrade,
        r is ReadBody <==> !upgrade && !realtime_path,
        r matches RequestPlan::Reply(reply) ==> reply.says(
            426,
            "websocket upgrade required"@,
            Some("websocket upgrade required"@),
        ),
{
    if upgrade {
        RequestPlan::Websocket
    } else if realtime_path {
        RequestPlan::Reply(
            EarlyReply {
                status: 426,
                body: "websocket upgrade required".to_owned(),
                error: Some("websocket upgrade required".to_owned()),
            },
        )
    } else {
        RequestPlan::ReadBody
    }
}

/// What is done with a request once its body is read.
pub enum BodyPlan<I, O> {
    /// It is answered at once.
    Reply(EarlyReply),
    /// Its path names no provider where it has to.
    UnsupportedPath,
    /// It is sent through the pipeline.
    Execute(RequestCtx<I, O>),
}

/// Decides on a request once its body is read, or could not be.
pub fn plan_body<I, O>(
    parts: RequestParts,
    body: Option<Vec<u8>>,
    scoped: bool,
    request_id: String,
) -> (r: BodyPlan<I, O>)
    ensures
        match body {
            None => r matches BodyPlan::Reply(reply) && reply.says(
                400,
                "failed to read request body"@,
                Some("failed to read request body"@),
            ),
            Some(bytes) => {
                &&& !(r is Reply)
                &&& r is UnsupportedPath <==> scoped && provider_and_rest(parts.uri.path@) is None
                &&& r matches BodyPlan::Execute(ctx) ==> {
                    &&& is_routed(ctx.mode, ctx.path@, parts.uri.path@, scoped)
                    &&& ctx.request_id == request_id
                    &&& ctx.method == parts.method
                    &&& ctx.query == parts.uri.query
                    &&& ctx.headers == parts.headers
                    &&& ctx.body == bytes
                    &&& ctx.is_fresh()
                }
            },
        },
{
    match body {
        None => BodyPlan::Reply(
            EarlyReply {
                status: 400,
                body: "failed to read request body".to_owned(),
                error: Some("failed to read request body".to_owned()),
            },
        ),
        Some(bytes) => match build_ctx_with_request_id::<I, O>(parts, bytes, scoped, request_id) {
            Ok(ctx) => BodyPlan::Execute(ctx),
            Err(_) => BodyPlan::UnsupportedPath,
        },
    }
}

/// What is done with a request for a WebSocket.
pub enum WebsocketPlan {
    /// It is answered at once.
    Reply(EarlyReply),
    /// A realtime session is opened and relayed.
    Realtime,
    /// The frames of a Responses WebSocket are served.
    Responses,
}

/// Decides on a request for a WebSocket that arrived on the scoped or the
/// aggregated route. `realtime` says of a realtime path whether it is scoped.
pub fn plan_websocket(path: &str, scoped: bool, realtime: Option<bool>) -> (r: WebsocketPlan)
    ensures
        r is Realtime <==> realtime == Some(scoped),
        r is Responses <==> realtime is None && is_websocket_path(path@) && scoped == (
        websocket_provider(path@) is Some),
        r matches WebsocketPlan::Reply(reply) ==> reply.says(
            404,
            ""@,
            Some("unsupported websocket path"@),
        ),
{
    let served = match realtime {
        Some(realtime_scoped) => {
            if scoped == realtime_scoped {
                return WebsocketPlan::Realtime;
            }
            false
        },
        None => is_responses_websocket_path(path) && scoped == is_scoped_responses_websocket_path(
            path,
        ),
    };
    if served {
        WebsocketPlan::Responses
    } else {
        WebsocketPlan::Reply(
            EarlyReply {
                status: 404,
                body: "".to_owned(),
                error: Some("unsupported websocket path".to_owned()),
            },
        )
    }
}

/// What a WebSocket yielded.
pub enum SocketEvent {
    Text(String),
    Binary(Vec<u8>),
    Ping,
    Pong,
    Close,
    /// The connection failed.
    Failed,
    /// There is nothing more to come.
    Ended,
}

/// What is done about it.
pub enum SocketAction {
    /// The text is relayed as a frame.
    Relay(String),
    /// The text is sent back, and the next event awaited.
    Reply(String),
    /// The next event is awaited.
    Wait,
    /// The socket is left.
    Stop,
}

/// Decides on what a WebSocket yielded. A binary frame counts as text where it
/// is UTF-8 and is refused where it is not.
pub fn on_socket_event(event: SocketEvent) -> (r: SocketAction)
    ensures
        match event {
            SocketEvent::Text(text) => r == SocketAction::Relay(text),
            SocketEvent::Binary(bytes) => if valid_utf8(bytes@) {
                r matches SocketAction::Relay(text) && text@ == decode_utf8(bytes@)
            } else {
                r matches SocketAction::Reply(frame) && is_plain_frame(
                    frame@,
                    422,
                    "binary websocket frame is not UTF-8 JSON"@,
                )
            },
            SocketEvent::Ping => r is Wait,
            SocketEvent::Pong => r is Wait,
            SocketEvent::Close => r is Stop,
            SocketEvent::Failed => r is Stop,
            SocketEvent::Ended => r is Stop,
        },
{
    match event {
        SocketEvent::Text(text) => SocketAction::Relay(text),
        SocketEvent::Binary(bytes) => match string_from_utf8(bytes) {
            Some(text) => SocketAction::Relay(text),
            None => SocketAction::Reply(
                plain_frame(422, "binary websocket frame is not UTF-8 JSON"),
            ),
        },
        SocketEvent::Ping | SocketEvent::Pong => SocketAction::Wait,
        SocketEvent::Close | SocketEvent::Failed | SocketEvent::Ended => SocketAction::Stop,
    }
}

/// How the outcome of a frame goes back to the client.
#[derive(Clone, Copy, PartialEq, Eq, Debug, Structural)]
pub enum RelayPlan {
    /// All its messages are gathered first.
    Collect,
    /// Each piece is sent on as it arrives.
    Stream,
}

/// Decides how the outcome of a frame goes back to the client. Nothing but a
/// streamed success is sent piece by piece.
pub fn plan_relay(status: u16, streamed: bool) -> (r: RelayPlan)
    ensures
        r is Stream <==> is_success(status) && streamed,
{
    match outcome_kind(status, streamed) {
        OutcomeKind::Stream => RelayPlan::Stream,
        OutcomeKind::Failure | OutcomeKind::Full => RelayPlan::Collect,
    }
}

/// The messages that one piece of a streamed response is relayed as.
pub open spec fn piece_frames(batch: BatchView) -> Seq<Seq<char>> {
    match batch {
        Ok(messages) => messages,
        Err(reason) => seq![json_rendered(plain_frame_model(502, reason))],
    }
}

/// The messages that a streamed response is relayed as, piece by piece: nothing
/// follows a piece that could not be read.
pub open spec fn relayed(batches: Seq<BatchView>) -> Seq<Seq<char>>
    decreases batches.len(),
{
    if batches.len() == 0 {
        Seq::empty()
    } else if batches[0] is Err {
        piece_frames(batches[0])
    } else {
        piece_frames(batches[0]) + relayed(batches.drop_first())
    }
}

/// What is sent for one piece of a streamed response.
pub struct StreamStep {
    pub frames: Vec<String>,
    /// Whether nothing of what follows is sent.
    pub stop: bool,
}

/// Decides on one piece of a streamed response: its messages are sent, and a
/// piece that could not be read ends the relay with one error message.
pub fn on_stream_batch(batch: Batch) -> (r: StreamStep)
    ensures
        texts(r.frames@) == piece_frames(batch_view(batch)),
        r.stop <==> batch is Err,
        batch matches Err(reason) ==> r.frames@.len() == 1 && is_plain_frame(
            r.frames@[0]@,
            502,
            reason@,
        ),
{
    match batch {
        Ok(messages) => StreamStep { frames: messages, stop: false },
        Err(reason) => {
            let mut frames: Vec<String> = Vec::new();
            frames.push(plain_frame(502, reason.as_str()));
            assert(texts(frames@) =~= piece_frames(BatchView::Err(reason@)));
            StreamStep { frames, stop: true }
        },
    }
}

/// What is to be done about a piece of a streamed response, or about its end.
pub enum StreamDemand {
    /// The piece is decoded, and what that gives is relayed.
    Decode(Vec<u8>),
    /// The decoder is asked for what it still holds, which is relayed last.
    Flush,
    /// The message is sent, and nothing follows.
    Fail(String),
}

/// Decides on a piece of a streamed response, or on its end: a piece that did
/// not arrive ends the relay with one error message.
pub fn on_stream_piece(piece: Option<Chunk>) -> (r: StreamDemand)
    ensures
        match piece {
            None => r is Flush,
            Some(Ok(bytes)) => r == StreamDemand::Decode(bytes),
            Some(Err(reason)) => r matches StreamDemand::Fail(frame) && is_plain_frame(
                frame@,
                502,
                reason@,
            ),
        },
{
    match piece {
        None => StreamDemand::Flush,
        Some(Ok(bytes)) => StreamDemand::Decode(bytes),
        Some(Err(reason)) => StreamDemand::Fail(plain_frame(502, reason.as_str())),
    }
}

/// Relaying piece by piece sends the messages that gathering all pieces first
/// gives. Where a piece cannot be read, the error that gathering gives comes
/// last, behind the messages of the pieces before it.
pub proof fn law_relayed_stream(batches: Seq<BatchView>)
    ensures
        match joined(batches) {
            Ok(messages) => relayed(batches) == messages,
            Err(reason) => exists|n: int|
                {
                    &&& 0 <= n < batches.len()
                    &&& batches[n] == BatchView::Err(reason)
                    &&& #[trigger] joined(batches.take(n)) matches Ok(messages)
                    &&& relayed(batches) == messages.push(
                        json_rendered(plain_frame_model(502, reason)),
                    )
                },
        },
    decreases batches.len(),
{
    if batches.len() > 0 {
        let rest = batches.drop_first();
        law_relayed_stream(rest);
        lemma_joined_from_front(batches);
        match batches[0] {
            Err(reason) => {
                let none = batches.take(0);
                assert(joined(none) == BatchView::Ok(Seq::empty()));
                assert(relayed(batches) =~= Seq::<Seq<char>>::empty().push(
                    json_rendered(plain_frame_model(502, reason)),
                ));
            },
            Ok(first) => match joined(rest) {
                Ok(messages) => {},
                Err(reason) => {
                    let n = choose|n: int|
                        {
                            &&& 0 <= n < rest.len()
                            &&& rest[n] == BatchView::Err(reason)
                            &&& #[trigger] joined(rest.take(n)) matches Ok(messages)
                            &&& relayed(rest) == messages.push(
                                json_rendered(plain_frame_model(502, reason)),
                            )
                        };
                    let head = batches.take(n + 1);
                    lemma_joined_from_front(head);
                    assert(head.drop_first() =~= rest.take(n));
                    assert(batches[n + 1] == rest[n]);
                    let messages = joined(rest.take(n))->Ok_0;
                    assert(joined(head) == BatchView::Ok(first + messages));
                    assert(relayed(batches) =~= (first + messages).push(
                        json_rendered(plain_frame_model(502, reason)),
                    ));
                },
            },
        }
    } else {
        assert(relayed(batches) =~= Seq::empty());
    }
}

/// The reply to a request that the gateway's middleware refused: shed under
/// load, or failed for any other reason.
pub fn overload_reply(overloaded: bool) -> (r: EarlyReply)
    ensures
        overloaded ==> r.says(503, "gateway overloaded"@, Some("gateway overloaded"@)),
        !overloaded ==> r.says(
            500,
            "gateway middleware failed"@,
            Some("gateway middleware failed"@),
        ),
{
    if overloaded {
        EarlyReply {
            status: 503,
            body: "gateway overloaded".to_owned(),
            error: Some("gateway overloaded".to_owned()),
        }
    } else {
        EarlyReply {
            status: 500,
            body: "gateway middleware failed".to_owned(),
            error: Some("gateway middleware failed".to_owned()),
        }
    }
}

} // verus!
