use gproxy::extract::{
    build_ctx_with_request_id, ExtractError, RequestCtx, RequestParts, RequestUri, RoutingMode,
};
use http::{HeaderMap, HeaderValue};

fn parts(path: &str) -> RequestParts {
    RequestParts {
        method: "GET".to_string(),
        uri: RequestUri {
            path: path.to_string(),
            query: None,
        },
        headers: HeaderMap::new(),
    }
}

fn build(path: &str, scoped: bool) -> Result<RequestCtx<(), ()>, ExtractError> {
    build_ctx_with_request_id(parts(path), Vec::new(), scoped, "req-1".to_string())
}

fn named(path: &str) -> Option<(String, String)> {
    match build(path, true) {
        Ok(ctx) => match ctx.mode {
            RoutingMode::Named { name } => Some((name, ctx.path)),
            RoutingMode::Aggregated => panic!("scoped request was aggregated"),
        },
        Err(_) => None,
    }
}

#[test]
fn scoped_v1beta_strips_provider_keeps_path() {
    let ctx = build("/geminicli/v1beta/models/m:generateContent", true)
        .ok()
        .unwrap();
    assert!(matches!(ctx.mode, RoutingMode::Named { name } if name == "geminicli"));
    assert_eq!(ctx.path, "/v1beta/models/m:generateContent");
}

#[test]
fn aggregated_v1beta_path_preserved() {
    let ctx = build("/v1beta/models", false).ok().unwrap();
    assert!(matches!(ctx.mode, RoutingMode::Aggregated));
    assert_eq!(ctx.path, "/v1beta/models");
}

#[test]
fn bare_v1beta_provider_rejected() {
    assert!(build("/v1beta/models", true).is_err());
}

#[test]
fn reserved_segments_name_no_provider() {
    for path in ["/v1/models", "/v1beta/models", "/console/v1/x", "//v1/models"] {
        assert!(matches!(
            build(path, true),
            Err(ExtractError::UnsupportedPath)
        ));
        assert!(build(path, false).is_ok());
    }
}

#[test]
fn path_without_second_slash_is_refused() {
    assert!(build("/openai", true).is_err());
    assert!(build("/", true).is_err());
    assert!(build("", true).is_err());
    assert!(build("///", true).is_err());
}

#[test]
fn leading_slashes_are_skipped() {
    assert_eq!(
        named("///openai//v1/x"),
        Some(("openai".to_string(), "//v1/x".to_string()))
    );
    assert_eq!(
        named("openai/"),
        Some(("openai".to_string(), "/".to_string()))
    );
    assert_eq!(
        named("/v1x/y"),
        Some(("v1x".to_string(), "/y".to_string()))
    );
    assert_eq!(
        named("/V1/y"),
        Some(("V1".to_string(), "/y".to_string()))
    );
}

#[test]
fn provider_names_need_not_be_ascii() {
    assert_eq!(
        named("/pr\u{f6}v/v1/\u{4e2d}"),
        Some(("pr\u{f6}v".to_string(), "/v1/\u{4e2d}".to_string()))
    );
}

#[test]
fn both_modes_see_one_path() {
    let scoped = build("/openai/v1/chat/completions", true).ok().unwrap();
    let aggregated = build("/v1/chat/completions", false).ok().unwrap();
    assert_eq!(scoped.path, aggregated.path);
}

#[test]
fn context_takes_everything_over() {
    let mut headers = HeaderMap::new();
    headers.insert("x-test", HeaderValue::from_static("1"));
    let request = RequestParts {
        method: "PATCH".to_string(),
        uri: RequestUri {
            path: "/p/v1/x".to_string(),
            query: Some("a=b&c".to_string()),
        },
        headers,
    };
    let ctx: RequestCtx<u8, u8> =
        build_ctx_with_request_id(request, vec![1, 2, 3], true, "req-9".to_string())
            .ok()
            .unwrap();
    assert_eq!(ctx.request_id, "req-9");
    assert_eq!(ctx.method, "PATCH");
    assert_eq!(ctx.path, "/v1/x");
    assert_eq!(ctx.query.as_deref(), Some("a=b&c"));
    assert_eq!(ctx.headers.get("x-test").unwrap(), "1");
    assert_eq!(ctx.body, vec![1, 2, 3]);
    assert!(ctx.identity.is_none());
    assert!(ctx.op.is_none());
    assert!(!ctx.stream);
    assert!(ctx.body_model.is_none());
    assert!(ctx.route_name.is_none());
    assert_eq!(ctx.pending_micros, 0);
}
