use gproxy::sse::{
    check_claude_lifecycle, is_complete_message, lines_of, sse_values, Lifecycle,
};
use serde_json::Value;

fn json(text: &str) -> Value {
    serde_json::from_str(text).unwrap()
}

fn event(kind: &str, index: Option<u64>) -> String {
    match index {
        Some(n) => format!("event: {kind}\ndata: {{\"type\":\"{kind}\",\"index\":{n}}}\n\n"),
        None => format!("event: {kind}\ndata: {{\"type\":\"{kind}\"}}\n\n"),
    }
}

fn stream(events: &[(&str, Option<u64>)]) -> String {
    events.iter().map(|(k, n)| event(k, *n)).collect()
}

const COMPLETE: [(&str, Option<u64>); 9] = [
    ("message_start", None),
    ("content_block_start", Some(0)),
    ("content_block_delta", Some(0)),
    ("content_block_delta", Some(0)),
    ("content_block_stop", Some(0)),
    ("content_block_start", Some(1)),
    ("content_block_stop", Some(1)),
    ("message_delta", None),
    ("message_stop", None),
];

#[test]
fn lines_are_those_of_std() {
    for text in [
        "", "\n", "\r\n", "a", "a\n", "a\r\nb", "a\rb\n", "a\r", "\r", "a\n\nb\n", "\r\r\n\n",
        "\u{4e2d}\r\n\u{e9}",
    ] {
        let expected: Vec<&str> = text.lines().collect();
        assert_eq!(lines_of(text), expected, "{text:?}");
    }
}

#[test]
fn values_are_the_data_lines() {
    let text = "event: x\r\ndata: {\"a\":1}\r\n\r\n: comment\ndata: [2]\ndata:3\ndata: [DONE]\n";
    let values = sse_values(text).unwrap();
    assert_eq!(values, vec![json("{\"a\":1}"), json("[2]")]);
}

#[test]
fn done_mark_has_to_be_exact() {
    assert!(sse_values("data: [DONE]").unwrap().is_empty());
    assert!(sse_values("data: [DONE] ").is_err());
    assert!(sse_values("data: [done]").is_err());
}

#[test]
fn invalid_data_are_an_error() {
    let reason = sse_values("data: 1\n\ndata: {bad json}\n\ndata: [DONE]\n\n")
        .err()
        .unwrap();
    let expected = serde_json::from_str::<Value>("{bad json}").err().unwrap();
    assert_eq!(reason, expected.to_string());
}

#[test]
fn complete_claude_stream_is_accepted() {
    assert!(check_claude_lifecycle(&stream(&COMPLETE)));
    assert!(check_claude_lifecycle(&format!(
        "{}data: [DONE]\n\n",
        stream(&COMPLETE)
    )));
}

#[test]
fn every_shortened_claude_stream_is_refused() {
    for n in 0..COMPLETE.len() {
        assert!(!check_claude_lifecycle(&stream(&COMPLETE[..n])), "{n}");
    }
    for n in [0, 1, 4, 5, 6, 8] {
        let mut events = COMPLETE.to_vec();
        events.remove(n);
        assert!(!check_claude_lifecycle(&stream(&events)), "{n}");
    }
}

#[test]
fn second_start_is_refused() {
    let mut events = COMPLETE.to_vec();
    events.insert(1, ("message_start", None));
    assert!(!check_claude_lifecycle(&stream(&events)));
}

#[test]
fn blocks_do_not_nest_or_mix() {
    let mut nested = COMPLETE.to_vec();
    nested.insert(2, ("content_block_start", Some(7)));
    assert!(!check_claude_lifecycle(&stream(&nested)));
    let mut mixed = COMPLETE.to_vec();
    mixed[2] = ("content_block_delta", Some(1));
    assert!(!check_claude_lifecycle(&stream(&mixed)));
    let mut closed = COMPLETE.to_vec();
    closed[4] = ("content_block_stop", Some(1));
    assert!(!check_claude_lifecycle(&stream(&closed)));
}

#[test]
fn unknown_events_are_refused() {
    let mut events = COMPLETE.to_vec();
    events.insert(1, ("ping", None));
    assert!(!check_claude_lifecycle(&stream(&events)));
    let state = Lifecycle::new();
    assert!(state.advance(&json("{}")).is_none());
    assert!(state.advance(&json("{\"type\":1}")).is_none());
    assert!(state.advance(&json("[]")).is_none());
}

#[test]
fn nothing_but_a_stop_may_end_a_message() {
    let mut events = COMPLETE.to_vec();
    events.push(("message_delta", None));
    assert!(!check_claude_lifecycle(&stream(&events)));
    events.push(("message_stop", None));
    assert!(check_claude_lifecycle(&stream(&events)));
}

#[test]
fn lifecycle_follows_its_events() {
    let started = Lifecycle::new()
        .advance(&json("{\"type\":\"message_start\"}"))
        .unwrap();
    assert!(started.started && started.open.is_none() && !started.stopped);
    let open = started
        .advance(&json("{\"type\":\"content_block_start\",\"index\":3}"))
        .unwrap();
    assert_eq!(open.open, Some(3));
    assert!(open.advance(&json("{\"type\":\"message_stop\"}")).is_none());
    assert!(open
        .advance(&json("{\"type\":\"content_block_delta\",\"index\":3.0}"))
        .is_none());
    assert!(open
        .advance(&json("{\"type\":\"content_block_delta\",\"index\":-3}"))
        .is_none());
    let closed = open
        .advance(&json("{\"type\":\"content_block_stop\",\"index\":3}"))
        .unwrap();
    let stopped = closed
        .advance(&json("{\"type\":\"message_stop\"}"))
        .unwrap();
    assert!(stopped.stopped && stopped.open.is_none());
}

#[test]
fn no_events_are_no_message() {
    assert!(!is_complete_message(&vec![]));
    assert!(is_complete_message(&vec![
        json("{\"type\":\"message_start\"}"),
        json("{\"type\":\"message_stop\"}"),
    ]));
    assert!(!check_claude_lifecycle("data: nonsense"));
}

#[test]
fn known_events_are_complete_just_in_their_places() {
    let kinds = [
        "message_start",
        "content_block_start",
        "content_block_delta",
        "content_block_stop",
        "message_delta",
        "message_stop",
    ];
    let mut accepted = 0;
    for n in 0..6usize.pow(5) {
        let picked: Vec<&str> = (0..5u32).map(|k| kinds[n / 6usize.pow(k) % 6]).collect();
        let events: Vec<Value> = picked
            .iter()
            .map(|kind| json(&format!("{{\"type\":\"{kind}\",\"index\":0}}")))
            .collect();
        let in_place = (0..5).all(|i| {
            let open = picked[..i]
                .iter()
                .rev()
                .find(|kind| kind.contains("block_st"))
                .is_some_and(|kind| *kind == "content_block_start");
            match picked[i] {
                "message_start" => i == 0,
                "content_block_delta" | "content_block_stop" => i > 0 && open,
                _ => i > 0 && !open,
            }
        });
        let expected = in_place && picked[4] == "message_stop";
        assert_eq!(is_complete_message(&events), expected, "{picked:?}");
        if expected {
            accepted += 1;
        }
    }
    assert!(accepted > 0);
}
