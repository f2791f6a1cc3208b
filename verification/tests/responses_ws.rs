use gproxy::extract::{build_ctx_with_request_id, RequestCtx, RequestParts, RequestUri, RoutingMode};
use gproxy::responses_ws::{
    collect_batches, collect_body, error_of_parsed, error_value, headers_json, internal_post_parts,
    is_responses_websocket_path, is_scoped_responses_websocket_path, json_body_to_message,
    message_of_parsed, messages_or_error, outcome_kind, outcome_to_messages, plain_frame,
    plan_frame, scoped_provider, strip_websocket_upgrade_headers, succeeded, FramePlan,
    OutcomeKind, PipelineFailure, ReceivedOutcome, ResponsesWsRequestBase, WsFrameError,
};
use http::header::{
    HeaderName, ACCEPT, CONNECTION, CONTENT_TYPE, SEC_WEBSOCKET_ACCEPT, SEC_WEBSOCKET_EXTENSIONS,
    SEC_WEBSOCKET_KEY, SEC_WEBSOCKET_PROTOCOL, SEC_WEBSOCKET_VERSION, UPGRADE,
};
use http::{HeaderMap, HeaderValue};
use serde_json::Value;

const MARK: &str = "x-gproxy-internal-websocket";

fn uri(path: &str) -> RequestUri {
    RequestUri {
        path: path.to_string(),
        query: None,
    }
}

fn json(text: &str) -> Value {
    serde_json::from_str(text).unwrap()
}

fn strings(items: &[&str]) -> Vec<String> {
    items.iter().map(|s| s.to_string()).collect()
}

#[test]
fn path_match_is_exact_for_aggregated_and_scoped_responses() {
    assert!(is_responses_websocket_path("/v1/responses"));
    assert!(is_responses_websocket_path("/codex/v1/responses"));
    assert!(!is_responses_websocket_path("/v1/chat/completions"));
    assert!(!is_responses_websocket_path("/v1/v1/responses"));
    assert!(!is_responses_websocket_path("/console/v1/responses"));
}

#[test]
fn error_frame_uses_wrapped_websocket_shape() {
    let frame = WsFrameError::plain(422, "bad frame").to_frame();
    let value: Value = serde_json::from_str(&frame).unwrap();
    assert_eq!(value["type"], "error");
    assert_eq!(value["status"], 422);
    assert_eq!(value["status_code"], 422);
    assert_eq!(value["error"]["message"], "bad frame");
}

#[test]
fn internal_post_strips_websocket_upgrade_headers() {
    let mut headers = HeaderMap::new();
    headers.insert(CONNECTION, HeaderValue::from_static("upgrade"));
    headers.insert(UPGRADE, HeaderValue::from_static("websocket"));
    headers.insert(SEC_WEBSOCKET_KEY, HeaderValue::from_static("abc"));
    headers.insert("authorization", HeaderValue::from_static("Bearer key"));
    let base = ResponsesWsRequestBase::new(uri("/v1/responses"), headers);

    let parts = internal_post_parts(&base, MARK).unwrap();

    assert_eq!(parts.method, "POST");
    assert_eq!(parts.headers.get(CONNECTION), None);
    assert_eq!(parts.headers.get(UPGRADE), None);
    assert_eq!(parts.headers.get(SEC_WEBSOCKET_KEY), None);
    assert_eq!(
        parts.headers.get(CONTENT_TYPE),
        Some(&HeaderValue::from_static("application/json"))
    );
    assert_eq!(
        parts.headers.get(ACCEPT),
        Some(&HeaderValue::from_static("text/event-stream"))
    );
    assert_eq!(
        parts.headers.get("authorization"),
        Some(&HeaderValue::from_static("Bearer key"))
    );
}

#[test]
fn websocket_frame_enters_pipeline_as_streaming_http_responses() {
    let body = br#"{"type":"response.create","model":"m","input":"hi"}"#.to_vec();
    let base = ResponsesWsRequestBase::new(uri("/codex/v1/responses"), HeaderMap::new());
    let parts = internal_post_parts(&base, MARK).unwrap();
    let ctx: RequestCtx<(), ()> =
        build_ctx_with_request_id(parts, body.clone(), true, "req-1".to_string()).unwrap_or_else(
            |_| panic!("the path names a provider"),
        );

    assert_eq!(ctx.path, "/v1/responses");
    assert_eq!(ctx.method, "POST");
    assert_eq!(ctx.body, body);
    assert_eq!(ctx.headers.get(ACCEPT).unwrap(), "text/event-stream");
    assert_eq!(ctx.headers.get(MARK).unwrap(), "1");
}

#[test]
fn success_sse_body_becomes_plain_websocket_messages() {
    let outcome = ReceivedOutcome::Full {
        body: b"event: response.created\ndata: {\"type\":\"response.created\"}\n\ndata: [DONE]\n\n"
            .to_vec(),
        batches: vec![Ok(strings(&[r#"{"type":"response.created"}"#])), Ok(vec![])],
    };

    let messages = outcome_to_messages(outcome).unwrap();
    assert_eq!(messages, vec![r#"{"type":"response.created"}"#]);
}

#[test]
fn success_json_body_is_forwarded_as_one_message() {
    let outcome = ReceivedOutcome::Full {
        body: br#"{"type":"response.completed"}"#.to_vec(),
        batches: vec![Ok(vec![]), Ok(vec![])],
    };

    let messages = outcome_to_messages(outcome).unwrap();
    assert_eq!(messages, vec![r#"{"type":"response.completed"}"#]);
}

#[test]
fn scoped_paths_name_their_provider() {
    assert_eq!(scoped_provider("/codex/v1/responses"), Some("codex"));
    assert_eq!(scoped_provider("//codex/v1/responses"), Some("codex"));
    assert_eq!(scoped_provider("codex/v1/responses"), Some("codex"));
    assert_eq!(scoped_provider("/codex/v1/responses/"), None);
    assert_eq!(scoped_provider("/codex//v1/responses"), None);
    assert_eq!(scoped_provider("/v1beta/v1/responses"), None);
    assert_eq!(scoped_provider("/v1/responses"), None);
    assert_eq!(scoped_provider("/codex"), None);
    assert!(is_scoped_responses_websocket_path("/codex/v1/responses"));
    assert!(!is_scoped_responses_websocket_path("/v1/responses"));
}

#[test]
fn base_of_request_keeps_target_and_headers() {
    let mut headers = HeaderMap::new();
    headers.append("x-a", HeaderValue::from_static("1"));
    headers.append("x-a", HeaderValue::from_static("2"));
    let parts = RequestParts {
        method: "GET".to_string(),
        uri: RequestUri {
            path: "/v1/responses".to_string(),
            query: Some("q=1".to_string()),
        },
        headers,
    };
    let base = ResponsesWsRequestBase::from_parts(&parts).clone();
    assert_eq!(base.uri.path, "/v1/responses");
    assert_eq!(base.uri.query.as_deref(), Some("q=1"));
    assert_eq!(base.headers, parts.headers);
    let post = internal_post_parts(&base, MARK).unwrap();
    assert_eq!(post.uri.query.as_deref(), Some("q=1"));
    let values: Vec<&HeaderValue> = post.headers.get_all("x-a").iter().collect();
    assert_eq!(values, vec!["1", "2"]);
}

#[test]
fn every_handshake_header_is_stripped() {
    let mut headers = HeaderMap::new();
    for name in [
        CONNECTION,
        UPGRADE,
        SEC_WEBSOCKET_ACCEPT,
        SEC_WEBSOCKET_EXTENSIONS,
        SEC_WEBSOCKET_KEY,
        SEC_WEBSOCKET_PROTOCOL,
        SEC_WEBSOCKET_VERSION,
    ] {
        headers.append(name.clone(), HeaderValue::from_static("a"));
        headers.append(name, HeaderValue::from_static("b"));
    }
    headers.insert("sec-websocket-other", HeaderValue::from_static("kept"));
    strip_websocket_upgrade_headers(&mut headers);
    assert_eq!(headers.len(), 1);
    assert_eq!(headers.get("sec-websocket-other").unwrap(), "kept");
}

#[test]
fn internal_post_replaces_what_it_sets() {
    let mut headers = HeaderMap::new();
    headers.append(CONTENT_TYPE, HeaderValue::from_static("text/plain"));
    headers.append(ACCEPT, HeaderValue::from_static("a"));
    headers.append(ACCEPT, HeaderValue::from_static("b"));
    headers.append(MARK, HeaderValue::from_static("forged"));
    let base = ResponsesWsRequestBase::new(uri("/v1/responses"), headers);
    let parts = internal_post_parts(&base, MARK).unwrap();
    assert_eq!(parts.headers.len(), 3);
    assert_eq!(parts.headers.get(CONTENT_TYPE).unwrap(), "application/json");
    assert_eq!(parts.headers.get(ACCEPT).unwrap(), "text/event-stream");
    assert_eq!(parts.headers.get(MARK).unwrap(), "1");
}

#[test]
fn internal_post_fails_on_full_header_map() {
    let mut headers = HeaderMap::new();
    for i in 0..40000 {
        let name = HeaderName::try_from(format!("h{i}")).unwrap();
        if headers.try_insert(name, HeaderValue::from_static("v")).is_err() {
            break;
        }
    }
    let base = ResponsesWsRequestBase::new(uri("/v1/responses"), headers);
    assert!(internal_post_parts(&base, MARK).is_err());
    let plan: FramePlan<(), ()> =
        plan_frame(&base, MARK, false, "{}", Ok(()), "req-1".to_string());
    assert!(matches!(plan, FramePlan::HeadersFull));
}

#[test]
fn plain_frame_has_one_exact_text() {
    assert_eq!(
        plain_frame(404, "unsupported path"),
        r#"{"error":{"message":"unsupported path","type":"gproxy_error"},"status":404,"status_code":404,"type":"error"}"#
    );
}

#[test]
fn plain_error_body_is_readable() {
    let error = WsFrameError::plain(502, "quote \" and \\ and \u{4e2d}");
    assert_eq!(error.status, 502);
    let body = json(&error.body);
    assert_eq!(body["error"]["message"], "quote \" and \\ and \u{4e2d}");
    assert_eq!(body["error"]["type"], "gproxy_error");
    let frame = json(&error.to_frame());
    assert_eq!(frame["error"], body["error"]);
    assert!(frame.get("headers").is_none());
}

#[test]
fn pipeline_failure_keeps_retry_after() {
    let error = WsFrameError::from_pipeline(PipelineFailure {
        status: 429,
        error_json: r#"{"error":{"message":"slow down","code":7}}"#.to_string(),
        retry_after_secs: Some(120),
    });
    let frame = json(&error.to_frame());
    assert_eq!(frame["status"], 429);
    assert_eq!(frame["error"]["message"], "slow down");
    assert_eq!(frame["error"]["code"], 7);
    assert_eq!(frame["headers"]["retry-after"], "120");
}

#[test]
fn retry_after_renders_every_length() {
    for secs in [0u64, 9, 10, 3600, u64::MAX] {
        let error = WsFrameError::from_pipeline(PipelineFailure {
            status: 503,
            error_json: "{}".to_string(),
            retry_after_secs: Some(secs),
        });
        let frame = json(&error.to_frame());
        assert_eq!(frame["headers"]["retry-after"], secs.to_string());
    }
}

#[test]
fn header_of_upstream_replaces_retry_after() {
    let mut error = WsFrameError::from_pipeline(PipelineFailure {
        status: 503,
        error_json: "{}".to_string(),
        retry_after_secs: Some(1),
    });
    error
        .headers
        .insert("retry-after", HeaderValue::from_static("99"));
    error
        .headers
        .insert("x-other", HeaderValue::from_static("o"));
    let frame = json(&error.to_frame());
    assert_eq!(frame["headers"]["retry-after"], "99");
    assert_eq!(frame["headers"]["x-other"], "o");
}

#[test]
fn upstream_error_repeats_text_headers() {
    let mut headers = HeaderMap::new();
    headers.append("x-id", HeaderValue::from_static("first"));
    headers.append("x-id", HeaderValue::from_static("second"));
    headers.append("x-id", HeaderValue::from_bytes(b"\xff").unwrap());
    headers.append("x-bin", HeaderValue::from_bytes(b"\xfe").unwrap());
    let frame = json(&WsFrameError::upstream(500, "oops", &headers).to_frame());
    assert_eq!(frame["error"]["message"], "oops");
    assert_eq!(frame["error"]["type"], "gproxy_error");
    assert_eq!(frame["headers"]["x-id"], "second");
    assert!(frame["headers"].get("x-bin").is_none());
}

#[test]
fn frame_can_wrap_any_error_value() {
    let error = WsFrameError::upstream(418, "", &HeaderMap::new());
    let frame = json(&error.frame_with(json("[1,-2,null,{\"a\":true}]")));
    assert_eq!(frame["error"], json("[1,-2,null,{\"a\":true}]"));
    assert_eq!(frame["status"], 418);
}

#[test]
fn error_value_prefers_the_error_member() {
    assert_eq!(error_value(r#"{"error":"e"}"#), "e");
    assert_eq!(error_value(r#"{"error":null}"#), Value::Null);
    let whole = error_value(r#"{ "b" : 1.5, "a" : [ ] }"#);
    assert_eq!(whole["message"], r#"{"a":[],"b":1.5}"#);
    assert_eq!(whole["type"], "gproxy_error");
    let list = error_value("[1]");
    assert_eq!(list["message"], "[1]");
    let text = error_value("not json");
    assert_eq!(text["message"], "not json");
}

#[test]
fn error_of_parsed_goes_by_what_was_parsed() {
    let kept = error_of_parsed("ignored", Ok(json(r#"{"error":{"code":1}}"#)));
    assert_eq!(kept["code"], 1);
    let failed = error_of_parsed("the body", Err("reason".to_string()));
    assert_eq!(failed["message"], "the body");
}

#[test]
fn headers_json_is_empty_without_text() {
    let mut headers = HeaderMap::new();
    assert!(headers_json(&headers).is_empty());
    headers.insert("x-bin", HeaderValue::from_bytes(b"\xff").unwrap());
    assert!(headers_json(&headers).is_empty());
    headers.insert("x-text", HeaderValue::from_static("t"));
    let fields = headers_json(&headers);
    assert_eq!(fields.len(), 1);
    assert_eq!(fields["x-text"], "t");
}

#[test]
fn success_is_two_hundred_to_two_hundred_ninety_nine() {
    for status in 100u16..1000 {
        assert_eq!(succeeded(status), (200..300).contains(&status));
    }
    assert_eq!(outcome_kind(404, true), OutcomeKind::Failure);
    assert_eq!(outcome_kind(404, false), OutcomeKind::Failure);
    assert_eq!(outcome_kind(201, true), OutcomeKind::Stream);
    assert_eq!(outcome_kind(201, false), OutcomeKind::Full);
}

#[test]
fn batches_are_collected_in_order() {
    let batches = vec![
        Ok(strings(&["a", "b"])),
        Ok(vec![]),
        Ok(strings(&["c"])),
    ];
    assert_eq!(collect_batches(&batches).unwrap(), strings(&["a", "b", "c"]));
}

#[test]
fn first_unreadable_batch_is_the_error() {
    let batches = vec![
        Ok(strings(&["a"])),
        Err("first".to_string()),
        Err("second".to_string()),
    ];
    let error = collect_batches(&batches).err().unwrap();
    assert_eq!(error.status, 502);
    assert_eq!(json(&error.body)["error"]["message"], "first");
}

#[test]
fn body_is_gathered_in_order() {
    let chunks = vec![Ok(b"ab".to_vec()), Ok(vec![]), Ok(b"c".to_vec())];
    assert_eq!(collect_body(&chunks).unwrap(), b"abc".to_vec());
    let broken = vec![Ok(b"ab".to_vec()), Err("reset".to_string())];
    let error = collect_body(&broken).err().unwrap();
    assert_eq!(error.status, 502);
    assert_eq!(json(&error.body)["error"]["message"], "reset");
}

#[test]
fn failed_outcome_becomes_one_error_message() {
    let mut headers = HeaderMap::new();
    headers.insert("retry-after", HeaderValue::from_static("5"));
    let outcome = ReceivedOutcome::Failure {
        status: 429,
        headers,
        chunks: vec![Ok(b"{\"error\":".to_vec()), Ok(b"{\"code\":\"x\"}}".to_vec())],
    };
    let messages = outcome_to_messages(outcome).unwrap();
    assert_eq!(messages.len(), 1);
    let frame = json(&messages[0]);
    assert_eq!(frame["type"], "error");
    assert_eq!(frame["status"], 429);
    assert_eq!(frame["error"]["code"], "x");
    assert_eq!(frame["headers"]["retry-after"], "5");
}

#[test]
fn failed_outcome_with_broken_text_is_replaced() {
    let outcome = ReceivedOutcome::Failure {
        status: 500,
        headers: HeaderMap::new(),
        chunks: vec![Ok(b"a\xffb".to_vec())],
    };
    let messages = outcome_to_messages(outcome).unwrap();
    assert_eq!(json(&messages[0])["error"]["message"], "a\u{fffd}b");
}

#[test]
fn failed_outcome_that_breaks_off_is_a_bad_gateway() {
    let outcome = ReceivedOutcome::Failure {
        status: 500,
        headers: HeaderMap::new(),
        chunks: vec![Err("reset".to_string())],
    };
    let error = outcome_to_messages(outcome).err().unwrap();
    assert_eq!(error.status, 502);
}

#[test]
fn empty_success_has_no_messages() {
    let outcome = ReceivedOutcome::Full {
        body: vec![],
        batches: vec![Ok(vec![]), Ok(vec![])],
    };
    assert!(outcome_to_messages(outcome).unwrap().is_empty());
    let stream = ReceivedOutcome::Stream { batches: vec![] };
    assert!(outcome_to_messages(stream).unwrap().is_empty());
}

#[test]
fn body_that_is_neither_events_nor_json_is_refused() {
    let outcome = ReceivedOutcome::Full {
        body: b"plain words".to_vec(),
        batches: vec![Ok(vec![]), Ok(vec![])],
    };
    let error = outcome_to_messages(outcome).err().unwrap();
    assert_eq!(error.status, 502);
    let message = json(&error.body)["error"]["message"].clone();
    let text = message.as_str().unwrap();
    let reason = serde_json::from_slice::<Value>(b"plain words")
        .err()
        .unwrap()
        .to_string();
    assert_eq!(
        text,
        format!("upstream returned non-SSE websocket response: {reason}")
    );
}

#[test]
fn streamed_success_keeps_its_messages() {
    let stream = ReceivedOutcome::Stream {
        batches: vec![Ok(strings(&["1"])), Ok(strings(&["2", "3"]))],
    };
    assert_eq!(
        outcome_to_messages(stream).unwrap(),
        strings(&["1", "2", "3"])
    );
    let broken = ReceivedOutcome::Stream {
        batches: vec![Ok(strings(&["1"])), Err("bad event".to_string())],
    };
    assert_eq!(outcome_to_messages(broken).err().unwrap().status, 502);
}

#[test]
fn json_body_is_passed_on_as_written() {
    assert_eq!(
        json_body_to_message(b" { \"a\" : 1 } ").unwrap(),
        " { \"a\" : 1 } "
    );
    let body = "{\"k\u{e9}\":\"\u{4e2d}\\u00e9\"}".as_bytes();
    assert_eq!(json_body_to_message(body).unwrap().as_bytes(), body);
    assert!(json_body_to_message(b"{\"a\":\"\xff\"}").is_err());
    assert!(json_body_to_message(b"\"\xe4\\u00b8\xad\"").is_err());
    assert!(json_body_to_message(b"{").is_err());
    assert!(json_body_to_message(b"\xff").is_err());
    assert_eq!(
        message_of_parsed(b"as it is", Ok(Value::Null)).unwrap(),
        "as it is"
    );
    let error = message_of_parsed(b"x", Err("why".to_string())).err().unwrap();
    assert_eq!(
        json(&error.body)["error"]["message"],
        "upstream returned non-SSE websocket response: why"
    );
}

#[test]
fn error_takes_the_place_of_messages() {
    assert_eq!(
        messages_or_error(Ok(strings(&["a", "b"]))),
        strings(&["a", "b"])
    );
    let frames = messages_or_error(Err(WsFrameError::plain(502, "broken")));
    assert_eq!(frames, vec![plain_frame(502, "broken")]);
}

#[test]
fn invalid_frame_is_rejected() {
    let base = ResponsesWsRequestBase::new(uri("/v1/responses"), HeaderMap::new());
    let plan: FramePlan<(), ()> = plan_frame(
        &base,
        MARK,
        false,
        "{}",
        Err("missing type".to_string()),
        "req-1".to_string(),
    );
    match plan {
        FramePlan::Reject(error) => {
            assert_eq!(error.to_frame(), plain_frame(422, "missing type"));
        }
        _ => panic!("the frame was not rejected"),
    }
}

#[test]
fn valid_frame_becomes_internal_request() {
    let base = ResponsesWsRequestBase::new(uri("/codex/v1/responses"), HeaderMap::new());
    let plan: FramePlan<(), ()> = plan_frame(
        &base,
        MARK,
        true,
        "{\"a\":\"\u{e9}\"}",
        Ok(()),
        "req-7".to_string(),
    );
    match plan {
        FramePlan::Execute(ctx) => {
            assert!(matches!(ctx.mode, RoutingMode::Named { name } if name == "codex"));
            assert_eq!(ctx.request_id, "req-7");
            assert_eq!(ctx.path, "/v1/responses");
            assert_eq!(ctx.method, "POST");
            assert_eq!(ctx.body, "{\"a\":\"\u{e9}\"}".as_bytes());
            assert_eq!(ctx.headers.len(), 3);
        }
        _ => panic!("the frame was not executed"),
    }
}

#[test]
fn scoped_frame_needs_a_provider() {
    let base = ResponsesWsRequestBase::new(uri("/v1/responses"), HeaderMap::new());
    let plan: FramePlan<(), ()> =
        plan_frame(&base, MARK, true, "{}", Ok(()), "req-1".to_string());
    assert!(matches!(plan, FramePlan::UnsupportedPath));
}
