use gproxy::extract::{RequestParts, RequestUri, RoutingMode};
use gproxy::gateway::{
    looks_like_websocket, on_socket_event, on_stream_batch, on_stream_piece, overload_reply, plan_body, plan_relay,
    plan_request, plan_websocket, BodyPlan, EarlyReply, RelayPlan, RequestPlan, SocketAction,
    SocketEvent, StreamDemand, WebsocketPlan,
};
use gproxy::responses_ws::{collect_batches, messages_or_error, plain_frame, Batch};
use http::{HeaderMap, HeaderValue};

fn parts(path: &str) -> RequestParts {
    RequestParts {
        method: "GET".to_string(),
        uri: RequestUri {
            path: path.to_string(),
            query: None,
        },
        headers: HeaderMap::new(),
    }
}

fn asks(headers: &[(&'static str, &'static [u8])]) -> bool {
    let mut request = parts("/v1/responses");
    for (name, value) in headers {
        request
            .headers
            .append(*name, HeaderValue::from_bytes(value).unwrap());
    }
    looks_like_websocket(&request)
}

fn said(reply: &EarlyReply) -> (u16, &str, Option<&str>) {
    (reply.status, reply.body.as_str(), reply.error.as_deref())
}

#[test]
fn handshake_headers_ask_for_a_websocket() {
    assert!(asks(&[("upgrade", b"websocket"), ("connection", b"upgrade")]));
    assert!(asks(&[
        ("upgrade", b"WebSocket"),
        ("connection", b"keep-alive, Upgrade")
    ]));
    assert!(asks(&[("upgrade", b"WEBSOCKET"), ("connection", b"xUPGRADEx")]));
}

#[test]
fn half_a_handshake_asks_for_none() {
    assert!(!asks(&[]));
    assert!(!asks(&[("upgrade", b"websocket")]));
    assert!(!asks(&[("connection", b"upgrade")]));
    assert!(!asks(&[("upgrade", b"websocket"), ("connection", b"close")]));
    assert!(!asks(&[("upgrade", b"websockets"), ("connection", b"upgrade")]));
    assert!(!asks(&[("upgrade", b"h2c"), ("connection", b"upgrade")]));
    assert!(!asks(&[("upgrade", b"websocket"), ("connection", b"upgrad")]));
}

#[test]
fn only_the_first_handshake_header_counts() {
    assert!(!asks(&[
        ("upgrade", b"h2c"),
        ("upgrade", b"websocket"),
        ("connection", b"upgrade")
    ]));
    assert!(!asks(&[
        ("upgrade", b"websocket"),
        ("connection", b"close"),
        ("connection", b"upgrade")
    ]));
}

#[test]
fn connection_header_has_to_be_text() {
    assert!(!asks(&[
        ("upgrade", b"websocket"),
        ("connection", b"upgrade \xff")
    ]));
}

#[test]
fn realtime_path_needs_an_upgrade() {
    match plan_request(false, true) {
        RequestPlan::Reply(reply) => assert_eq!(
            said(&reply),
            (
                426,
                "websocket upgrade required",
                Some("websocket upgrade required")
            )
        ),
        _ => panic!("the request was not answered"),
    }
    assert!(matches!(plan_request(true, true), RequestPlan::Websocket));
    assert!(matches!(plan_request(true, false), RequestPlan::Websocket));
    assert!(matches!(plan_request(false, false), RequestPlan::ReadBody));
}

#[test]
fn unread_body_is_a_bad_request() {
    let plan: BodyPlan<(), ()> = plan_body(parts("/v1/x"), None, false, "req-1".to_string());
    match plan {
        BodyPlan::Reply(reply) => assert_eq!(
            said(&reply),
            (
                400,
                "failed to read request body",
                Some("failed to read request body")
            )
        ),
        _ => panic!("the request was not answered"),
    }
}

#[test]
fn read_body_is_executed() {
    let plan: BodyPlan<(), ()> = plan_body(
        parts("/openai/v1/x"),
        Some(b"hi".to_vec()),
        true,
        "req-1".to_string(),
    );
    match plan {
        BodyPlan::Execute(ctx) => {
            assert!(matches!(ctx.mode, RoutingMode::Named { name } if name == "openai"));
            assert_eq!(ctx.path, "/v1/x");
            assert_eq!(ctx.body, b"hi");
        }
        _ => panic!("the request was not executed"),
    }
    let refused: BodyPlan<(), ()> =
        plan_body(parts("/v1/x"), Some(vec![]), true, "req-1".to_string());
    assert!(matches!(refused, BodyPlan::UnsupportedPath));
}

#[test]
fn websocket_paths_have_to_match_their_route() {
    let served = |path: &str, scoped: bool| {
        matches!(plan_websocket(path, scoped, None), WebsocketPlan::Responses)
    };
    assert!(served("/v1/responses", false));
    assert!(served("/codex/v1/responses", true));
    assert!(!served("/v1/responses", true));
    assert!(!served("/codex/v1/responses", false));
    assert!(!served("/v1/chat/completions", false));
}

#[test]
fn realtime_paths_have_to_match_their_route() {
    assert!(matches!(
        plan_websocket("/v1/realtime", false, Some(false)),
        WebsocketPlan::Realtime
    ));
    assert!(matches!(
        plan_websocket("/p/v1/realtime", true, Some(true)),
        WebsocketPlan::Realtime
    ));
    for (scoped, realtime) in [(true, false), (false, true)] {
        match plan_websocket("/v1/responses", scoped, Some(realtime)) {
            WebsocketPlan::Reply(reply) => {
                assert_eq!(said(&reply), (404, "", Some("unsupported websocket path")));
            }
            _ => panic!("the path was served"),
        }
    }
}

#[test]
fn text_frames_are_relayed() {
    match on_socket_event(SocketEvent::Text("{}".to_string())) {
        SocketAction::Relay(text) => assert_eq!(text, "{}"),
        _ => panic!("the frame was not relayed"),
    }
}

#[test]
fn binary_frames_are_relayed_as_text() {
    match on_socket_event(SocketEvent::Binary("\u{e9}{}".as_bytes().to_vec())) {
        SocketAction::Relay(text) => assert_eq!(text, "\u{e9}{}"),
        _ => panic!("the frame was not relayed"),
    }
}

#[test]
fn binary_frames_that_are_no_text_are_refused() {
    match on_socket_event(SocketEvent::Binary(vec![0xff])) {
        SocketAction::Reply(frame) => assert_eq!(
            frame,
            plain_frame(422, "binary websocket frame is not UTF-8 JSON")
        ),
        _ => panic!("the frame was not refused"),
    }
}

#[test]
fn socket_is_left_when_it_closes() {
    assert!(matches!(
        on_socket_event(SocketEvent::Close),
        SocketAction::Stop
    ));
    assert!(matches!(
        on_socket_event(SocketEvent::Failed),
        SocketAction::Stop
    ));
    assert!(matches!(
        on_socket_event(SocketEvent::Ended),
        SocketAction::Stop
    ));
    assert!(matches!(
        on_socket_event(SocketEvent::Ping),
        SocketAction::Wait
    ));
    assert!(matches!(
        on_socket_event(SocketEvent::Pong),
        SocketAction::Wait
    ));
}

#[test]
fn only_streamed_success_is_sent_piece_by_piece() {
    assert_eq!(plan_relay(200, true), RelayPlan::Stream);
    assert_eq!(plan_relay(200, false), RelayPlan::Collect);
    assert_eq!(plan_relay(500, true), RelayPlan::Collect);
    assert_eq!(plan_relay(500, false), RelayPlan::Collect);
}

fn relay(batches: Vec<Batch>) -> Vec<String> {
    let mut sent = Vec::new();
    for batch in batches {
        let step = on_stream_batch(batch);
        sent.extend(step.frames);
        if step.stop {
            break;
        }
    }
    sent
}

#[test]
fn relayed_stream_sends_what_gathering_gives() {
    let batches = || -> Vec<Batch> {
        vec![
            Ok(vec!["a".to_string()]),
            Ok(vec![]),
            Ok(vec!["b".to_string(), "c".to_string()]),
        ]
    };
    assert_eq!(relay(batches()), collect_batches(&batches()).unwrap());
}

#[test]
fn relayed_stream_ends_with_the_error_that_gathering_gives() {
    let batches = || -> Vec<Batch> {
        vec![
            Ok(vec!["a".to_string()]),
            Err("broken".to_string()),
            Ok(vec!["never".to_string()]),
        ]
    };
    let sent = relay(batches());
    assert_eq!(sent, vec!["a".to_string(), plain_frame(502, "broken")]);
    assert_eq!(
        sent.last(),
        messages_or_error(collect_batches(&batches())).last()
    );
}

#[test]
fn shed_requests_are_told_apart() {
    assert_eq!(
        said(&overload_reply(true)),
        (503, "gateway overloaded", Some("gateway overloaded"))
    );
    assert_eq!(
        said(&overload_reply(false)),
        (
            500,
            "gateway middleware failed",
            Some("gateway middleware failed")
        )
    );
}

#[test]
fn streamed_pieces_are_decoded_and_flushed_at_their_end() {
    assert!(matches!(
        on_stream_piece(Some(Ok(vec![1, 2]))),
        StreamDemand::Decode(bytes) if bytes == vec![1, 2]
    ));
    assert!(matches!(on_stream_piece(None), StreamDemand::Flush));
    match on_stream_piece(Some(Err("reset".to_string()))) {
        StreamDemand::Fail(frame) => assert_eq!(frame, plain_frame(502, "reset")),
        _ => panic!("the piece did not arrive"),
    }
}
