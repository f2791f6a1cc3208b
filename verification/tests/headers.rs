use gproxy::headers::{
    check_header_name, check_header_room, check_header_value, insert_request_id, stamp_request_id, text_headers,
    RequestIdStamp, REQUEST_ID_HEADER,
};
use http::header::HeaderName;
use http::{HeaderMap, HeaderValue};

fn sorted(headers: &HeaderMap) -> Vec<(String, String)> {
    let mut out = text_headers(headers);
    out.sort_by(|a, b| a.0.cmp(&b.0));
    out
}

fn pair(name: &str, value: &str) -> (String, String) {
    (name.to_string(), value.to_string())
}

/// As many names as a map takes, by trying.
fn full_map() -> HeaderMap {
    let mut headers = HeaderMap::new();
    for i in 0..40000 {
        let name = HeaderName::try_from(format!("h{i}")).unwrap();
        if headers.try_insert(name, HeaderValue::from_static("v")).is_err() {
            return headers;
        }
    }
    panic!("the map took every name");
}

#[test]
fn text_headers_keep_order_within_a_name() {
    let mut headers = HeaderMap::new();
    headers.append("set-cookie", HeaderValue::from_static("a=1"));
    headers.append("x-other", HeaderValue::from_static("o"));
    headers.append("set-cookie", HeaderValue::from_static("b=2"));
    assert_eq!(
        sorted(&headers),
        vec![
            pair("set-cookie", "a=1"),
            pair("set-cookie", "b=2"),
            pair("x-other", "o"),
        ]
    );
}

#[test]
fn text_headers_leave_out_what_is_not_text() {
    let mut headers = HeaderMap::new();
    headers.append("x-a", HeaderValue::from_bytes(b"caf\xc3\xa9").unwrap());
    headers.append("x-a", HeaderValue::from_static("tab\there"));
    headers.append("x-b", HeaderValue::from_bytes(b"\xff").unwrap());
    headers.append("x-c", HeaderValue::from_static(""));
    assert_eq!(
        sorted(&headers),
        vec![pair("x-a", "tab\there"), pair("x-c", "")]
    );
}

#[test]
fn request_id_is_added_where_it_is_missing() {
    let mut headers = HeaderMap::new();
    headers.insert("x-other", HeaderValue::from_static("o"));
    assert_eq!(
        stamp_request_id(&mut headers, "req-1"),
        RequestIdStamp::Added
    );
    assert_eq!(headers.get("x-gproxy-request-id").unwrap(), "req-1");
    assert_eq!(headers.get("x-other").unwrap(), "o");
    assert_eq!(headers.len(), 2);
}

#[test]
fn request_id_is_kept_where_it_is_there() {
    let mut headers = HeaderMap::new();
    headers.insert(REQUEST_ID_HEADER, HeaderValue::from_static("first"));
    assert_eq!(
        stamp_request_id(&mut headers, "second"),
        RequestIdStamp::Kept
    );
    assert_eq!(headers.get(REQUEST_ID_HEADER).unwrap(), "first");
}

#[test]
fn inserted_request_id_replaces_every_other() {
    let mut headers = HeaderMap::new();
    headers.append(REQUEST_ID_HEADER, HeaderValue::from_static("a"));
    headers.append(REQUEST_ID_HEADER, HeaderValue::from_static("b"));
    assert!(insert_request_id(&mut headers, "c"));
    let values: Vec<&HeaderValue> = headers.get_all(REQUEST_ID_HEADER).iter().collect();
    assert_eq!(values, vec!["c"]);
}

#[test]
fn full_map_takes_no_request_id() {
    let mut headers = full_map();
    let names = headers.keys_len();
    assert!(names > 6553);
    assert_eq!(
        stamp_request_id(&mut headers, "req-1"),
        RequestIdStamp::NoRoom
    );
    assert_eq!(headers.keys_len(), names);
    assert!(headers.get(REQUEST_ID_HEADER).is_none());
}

#[test]
fn map_with_room_takes_request_id() {
    let mut headers = HeaderMap::new();
    for i in 0..6553 {
        let name = HeaderName::try_from(format!("h{i}")).unwrap();
        headers.insert(name, HeaderValue::from_static("v"));
    }
    assert_eq!(
        stamp_request_id(&mut headers, "req-1"),
        RequestIdStamp::Added
    );
}

#[test]
fn header_name_check_agrees_with_header_maps() {
    for n in 0u32..=0x2ff {
        let c = char::from_u32(n).unwrap();
        let name = format!("a{c}");
        let kept = HeaderName::try_from(name.as_str())
            .is_ok_and(|parsed| parsed.as_str() == name);
        assert_eq!(check_header_name(&name), kept, "U+{n:04X}");
    }
    assert!(!check_header_name(""));
    assert!(check_header_name(&"a".repeat(65535)));
    assert!(!check_header_name(&"a".repeat(65536)));
}

#[test]
fn header_value_check_agrees_with_header_values() {
    for n in 0u32..=0x2ff {
        let c = char::from_u32(n).unwrap();
        let value = format!("a{c}");
        assert_eq!(
            check_header_value(&value),
            HeaderValue::try_from(value.as_str()).is_ok(),
            "U+{n:04X}"
        );
    }
    assert!(check_header_value(""));
}

#[test]
fn header_room_counts_names() {
    let mut headers = HeaderMap::new();
    assert!(check_header_room(&headers, 0));
    assert!(check_header_room(&headers, 6554));
    assert!(!check_header_room(&headers, 6555));
    assert!(!check_header_room(&headers, usize::MAX));
    headers.append("x-a", HeaderValue::from_static("1"));
    headers.append("x-a", HeaderValue::from_static("2"));
    headers.append("x-b", HeaderValue::from_static("3"));
    assert!(check_header_room(&headers, 6552));
    assert!(!check_header_room(&headers, 6553));
}
