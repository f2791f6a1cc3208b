use gproxy::edge::{
    error_to_ws, inbound_headers, inbound_path, path_of_parsed, plan_fetch, plan_ops,
    plan_websocket_frame, request_parts, resp_to_ws, service_unavailable, text_response,
    text_response_with_request_id, unauthorized, EdgeFramePlan, EdgeResponse, FetchPlan,
    OpsEndpoint, OpsPlan, PartsError,
};
use gproxy::extract::{build_ctx_with_request_id, RequestCtx, RequestUri, RoutingMode};
use gproxy::responses_ws::{plain_frame, PipelineFailure};
use http::header::HeaderName;
use http::{HeaderMap, HeaderValue, Method, Uri};

fn pairs(items: &[(&str, &str)]) -> Vec<(String, String)> {
    items
        .iter()
        .map(|(n, v)| (n.to_string(), v.to_string()))
        .collect()
}

fn check(response: &EdgeResponse, status: u16, headers: &[(&str, &str)], body: &str) {
    assert_eq!(response.status, status);
    assert_eq!(response.headers, pairs(headers));
    assert_eq!(response.body, body.as_bytes());
}

fn goes_to_gateway(path: &str) -> Option<bool> {
    match plan_fetch(true, false, path, "req-1") {
        FetchPlan::Gateway { scoped } => Some(scoped),
        _ => None,
    }
}

#[test]
fn text_response_has_one_header() {
    check(
        &text_response(200, "text/html", b"<p>"),
        200,
        &[("content-type", "text/html")],
        "<p>",
    );
}

#[test]
fn text_response_can_carry_the_request_id() {
    check(
        &text_response_with_request_id(501, "text/plain", b"no", "req-1"),
        501,
        &[("content-type", "text/plain"), ("x-gproxy-request-id", "req-1")],
        "no",
    );
}

#[test]
fn service_unavailable_is_plain_text() {
    check(
        &service_unavailable("later", "req-1"),
        503,
        &[("content-type", "text/plain"), ("x-gproxy-request-id", "req-1")],
        "later",
    );
}

#[test]
fn unauthorized_is_plain_text() {
    check(
        &unauthorized(),
        401,
        &[("content-type", "text/plain")],
        "unauthorized",
    );
}

#[test]
fn pipeline_error_is_json() {
    let mut failure = PipelineFailure {
        status: 429,
        error_json: "{\"error\":{}}".to_string(),
        retry_after_secs: Some(30),
    };
    check(
        &error_to_ws(&failure, "req-1"),
        429,
        &[
            ("content-type", "application/json"),
            ("x-gproxy-request-id", "req-1"),
            ("retry-after", "30"),
        ],
        "{\"error\":{}}",
    );
    failure.retry_after_secs = None;
    check(
        &error_to_ws(&failure, "req-1"),
        429,
        &[
            ("content-type", "application/json"),
            ("x-gproxy-request-id", "req-1"),
        ],
        "{\"error\":{}}",
    );
}

#[test]
fn response_drops_headers_that_are_no_text() {
    let mut headers = HeaderMap::new();
    headers.append("x-a", HeaderValue::from_static("1"));
    headers.append("x-a", HeaderValue::from_bytes(b"\xff").unwrap());
    headers.append("x-a", HeaderValue::from_static("2"));
    let response = resp_to_ws(207, &headers, b"body".to_vec());
    check(&response, 207, &[("x-a", "1"), ("x-a", "2")], "body");
}

#[test]
fn nothing_is_served_before_init() {
    for path in ["/healthz", "/admin/x", "/v1/models", ""] {
        match plan_fetch(false, false, path, "req-1") {
            FetchPlan::Reply { response, error } => {
                check(
                    &response,
                    503,
                    &[("content-type", "text/plain"), ("x-gproxy-request-id", "req-1")],
                    "GPROXY edge not initialised: call init() first",
                );
                assert_eq!(error, "edge not initialised");
            }
            _ => panic!("{path} was served"),
        }
    }
}

#[test]
fn realtime_is_not_served() {
    match plan_fetch(true, true, "/v1/realtime", "req-1") {
        FetchPlan::Reply { response, error } => {
            check(
                &response,
                501,
                &[("content-type", "text/plain"), ("x-gproxy-request-id", "req-1")],
                "OpenAI Realtime WebSocket passthrough is not supported on edge",
            );
            assert_eq!(error, "realtime websocket unsupported on edge");
        }
        _ => panic!("realtime was served"),
    }
}

#[test]
fn ops_endpoints_are_exact() {
    for (path, endpoint) in [
        ("/healthz", OpsEndpoint::Healthz),
        ("/version", OpsEndpoint::Version),
        ("/metrics", OpsEndpoint::Metrics),
    ] {
        match plan_fetch(true, false, path, "req-1") {
            FetchPlan::Ops(found) => assert_eq!(found, endpoint),
            _ => panic!("{path} is an operational endpoint"),
        }
        let longer = format!("{path}/");
        assert_eq!(goes_to_gateway(&longer), Some(true));
    }
}

#[test]
fn ops_endpoints_ask_for_an_administrator() {
    match plan_ops(OpsEndpoint::Metrics, false) {
        OpsPlan::Refuse(response) => assert_eq!(response.status, 401),
        OpsPlan::Serve(_) => panic!("the endpoint was public"),
    }
    assert!(matches!(
        plan_ops(OpsEndpoint::Metrics, true),
        OpsPlan::Serve(OpsEndpoint::Metrics)
    ));
}

#[test]
fn admin_paths_never_reach_the_gateway() {
    for path in ["/admin/", "/admin/v1/x", "/user/", "/user/me"] {
        assert!(matches!(
            plan_fetch(true, false, path, "req-1"),
            FetchPlan::Admin
        ));
    }
    assert_eq!(goes_to_gateway("/admin"), Some(true));
    assert_eq!(goes_to_gateway("/users/v1/x"), Some(true));
}

#[test]
fn gateway_paths_are_aggregated_or_scoped() {
    for path in ["/v1", "/v1/", "/v1/models", "/v1beta", "/v1beta/models"] {
        assert_eq!(goes_to_gateway(path), Some(false), "{path}");
    }
    for path in ["/v1x/y", "/v1beta2/y", "/openai/v1/models", "/", "", "//v1/x"] {
        assert_eq!(goes_to_gateway(path), Some(true), "{path}");
    }
}

#[test]
fn scoped_gateway_path_names_its_provider() {
    let path = "/openai/v1/models";
    assert_eq!(goes_to_gateway(path), Some(true));
    let parts = request_parts("GET", "https://edge.example/openai/v1/models", &vec![])
        .ok()
        .unwrap();
    let ctx: RequestCtx<(), ()> =
        build_ctx_with_request_id(parts, vec![], true, "req-1".to_string())
            .ok()
            .unwrap();
    assert!(matches!(ctx.mode, RoutingMode::Named { name } if name == "openai"));
    assert_eq!(ctx.path, "/v1/models");
}

#[test]
fn websocket_frames_are_answered_before_init() {
    match plan_websocket_frame(false, false, "/v1/responses") {
        EdgeFramePlan::Reply(frame) => assert_eq!(
            frame,
            plain_frame(503, "GPROXY edge not initialised: call init() first")
        ),
        EdgeFramePlan::Execute { .. } => panic!("the frame was executed"),
    }
}

#[test]
fn websocket_frames_of_realtime_are_refused() {
    match plan_websocket_frame(true, true, "/v1/responses") {
        EdgeFramePlan::Reply(frame) => assert_eq!(
            frame,
            plain_frame(
                501,
                "OpenAI Realtime WebSocket passthrough is not supported on edge"
            )
        ),
        EdgeFramePlan::Execute { .. } => panic!("the frame was executed"),
    }
}

#[test]
fn websocket_frames_need_their_path() {
    match plan_websocket_frame(true, false, "/v1/chat/completions") {
        EdgeFramePlan::Reply(frame) => assert_eq!(frame, plain_frame(404, "unsupported path")),
        EdgeFramePlan::Execute { .. } => panic!("the frame was executed"),
    }
    assert!(matches!(
        plan_websocket_frame(true, false, "/v1/responses"),
        EdgeFramePlan::Execute { scoped: false }
    ));
    assert!(matches!(
        plan_websocket_frame(true, false, "/codex/v1/responses"),
        EdgeFramePlan::Execute { scoped: true }
    ));
}

#[test]
fn inbound_path_is_that_of_the_target() {
    assert_eq!(inbound_path("https://h:8080/v1/x?q=1"), "/v1/x");
    assert_eq!(inbound_path("https://h"), "/");
    assert_eq!(inbound_path("not a target"), "");
    assert_eq!(path_of_parsed(Err("why".to_string())), "");
    assert_eq!(
        path_of_parsed(Ok(RequestUri {
            path: "/p".to_string(),
            query: None
        })),
        "/p"
    );
}

#[test]
fn request_parts_take_everything_over() {
    let entries = pairs(&[
        ("Content-Type", "text/plain"),
        ("accept", "a"),
        ("Accept", "b"),
        ("", "nameless"),
        ("bad name", "x"),
    ]);
    let parts = request_parts("POST", "https://h/v1/x?a=b", &entries)
        .ok()
        .unwrap();
    assert_eq!(parts.method, "POST");
    assert_eq!(parts.uri.path, "/v1/x");
    assert_eq!(parts.uri.query.as_deref(), Some("a=b"));
    assert_eq!(parts.headers.len(), 3);
    assert_eq!(parts.headers.get("content-type").unwrap(), "text/plain");
    let accepted: Vec<&HeaderValue> = parts.headers.get_all("accept").iter().collect();
    assert_eq!(accepted, vec!["a", "b"]);
}

#[test]
fn request_methods_are_tokens() {
    for method in ["GET", "get", "PROPFIND", "M-SEARCH", "A-VERY-LONG-EXTENSION-METHOD"] {
        let parts = request_parts(method, "/x", &vec![]).ok().unwrap();
        assert_eq!(parts.method, method);
    }
    for method in ["", "GE T", "G\u{e9}T", "G/T"] {
        let error = request_parts(method, "/x", &vec![]).err().unwrap();
        assert!(matches!(error, PartsError::Method));
        let shown = Method::from_bytes(method.as_bytes()).err().unwrap();
        assert_eq!(error.debug_text(), format!("{shown:?}"));
    }
    for n in 0u32..=0x2ff {
        let method = format!("A{}", char::from_u32(n).unwrap());
        assert_eq!(
            request_parts(&method, "/x", &vec![]).is_ok(),
            Method::from_bytes(method.as_bytes()).is_ok()
        );
    }
}

#[test]
fn request_target_has_to_parse() {
    let error = request_parts("GET", "http://[", &vec![]).err().unwrap();
    let shown = "http://[".parse::<Uri>().err().unwrap();
    assert!(matches!(error, PartsError::Target { .. }));
    assert_eq!(error.debug_text(), format!("{shown:?}"));
}

#[test]
fn bad_header_value_spoils_the_request() {
    let entries = pairs(&[("x-a", "ok"), ("x-b", "line\nbreak"), ("x-c", "ok")]);
    let error = request_parts("GET", "/x", &entries).err().unwrap();
    assert!(matches!(error, PartsError::HeaderValue));
    let shown = http::Request::builder()
        .header("x-b", "line\nbreak")
        .body(())
        .err()
        .unwrap();
    assert_eq!(error.debug_text(), format!("{shown:?}"));
}

#[test]
fn bad_header_value_under_bad_name_is_skipped() {
    let entries = pairs(&[("x b", "line\nbreak"), ("x-c", "ok")]);
    let headers = inbound_headers(&entries).ok().unwrap();
    assert_eq!(headers.len(), 1);
}

#[test]
fn too_many_header_names_are_refused() {
    let mut entries = Vec::new();
    let mut builder = http::Request::builder();
    for i in 0..33000 {
        let name = format!("h{i}");
        builder = builder.header(HeaderName::try_from(name.as_str()).unwrap(), "v");
        entries.push((name, "v".to_string()));
    }
    let error = inbound_headers(&entries).err().unwrap();
    assert!(matches!(error, PartsError::HeadersFull));
    let shown = builder.body(()).err().unwrap();
    assert_eq!(error.debug_text(), format!("{shown:?}"));
}
