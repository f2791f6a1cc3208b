//! What a stream of server-sent events holds, and when it is a whole message.

use crate::json::{json_model, json_parsed, JsonModel};
use crate::sse::{
    advanced, check_claude_lifecycle, data_values, followed,
    is_complete_message, line_data, line_views, lines_data, lines_of, models,
    sse_values, text_lines, without_return, EventsResult, Lifecycle,
};
use crate::text::{first_index, lemma_first_index, lemma_first_index_unique};
use serde_json::Value;
use vstd::prelude::*;

verus! {

/// Whether a text holds no line feed.
pub open spec fn is_one_line(s: Seq<char>) -> bool {
    forall|i: int| 0 <= i < s.len() ==> #[trigger] s[i] != '\n'
}

/// Whether what follows a text starts a line.
pub open spec fn is_at_line_start(s: Seq<char>) -> bool {
    s.len() == 0 || s.last() == '\n'
}

/// Whether a line and what ends it are parted where they have to be: a carriage
/// return before the line feed belongs to the end.
pub open spec fn is_line_end(line: Seq<char>, end: Seq<char>) -> bool {
    ||| end == seq!['\n'] && (line.len() > 0 ==> line.last() != '\r')
    ||| end == seq!['\r', '\n']
}

/// What was read of a stream: the values, or the reason why they are not JSON.
pub open spec fn values_read(r: Result<Vec<Value>, String>) -> Result<Seq<JsonModel>, Seq<char>> {
    match r {
        Ok(values) => Ok(Seq::new(values@.len(), |i: int| json_model(values@[i]))),
        Err(reason) => Err(reason@),
    }
}

/// What is read of one stretch and then another.
pub open spec fn one_then_other(
    a: Result<Seq<JsonModel>, Seq<char>>,
    b: Result<Seq<JsonModel>, Seq<char>>,
) -> Result<Seq<JsonModel>, Seq<char>> {
    match (a, b) {
        (Err(reason), _) => Err(reason),
        (Ok(_), Err(reason)) => Err(reason),
        (Ok(x), Ok(y)) => Ok(x + y),
    }
}

/// What is read of a line: the JSON behind `data: `, of any length, unless it is
/// the mark that ends a stream; and nothing of any other line.
pub open spec fn read_of_line(line: Seq<char>) -> Result<Seq<JsonModel>, Seq<char>> {
    if line.len() >= 6 && line.take(6) == seq!['d', 'a', 't', 'a', ':', ' '] && line.skip(6) != seq![
        '[',
        'D',
        'O',
        'N',
        'E',
        ']',
    ] {
        match json_parsed(line.skip(6)) {
            Ok(value) => Ok(seq![value]),
            Err(reason) => Err(reason),
        }
    } else {
        Ok(Seq::empty())
    }
}

/// The lines of a text that starts with a line are that line and those of the
/// rest.
pub proof fn law_first_line(
    line: Seq<char>,
    end: Seq<char>,
    text: &str,
    rest: &str,
    lines: Vec<&str>,
    rest_lines: Vec<&str>,
)
    requires
        call_ensures(lines_of, (text,), lines),
        call_ensures(lines_of, (rest,), rest_lines),
        text@ == line + end + rest@,
        is_one_line(line),
        is_line_end(line, end),
    ensures
        lines@.len() == rest_lines@.len() + 1,
        lines@[0]@ == line,
        forall|i: int| 0 <= i < rest_lines@.len() ==> #[trigger] rest_lines@[i]@ == lines@[i + 1]@,
{
    lemma_first_line(line, end, rest@);
    let a = line_views(lines@);
    let b = line_views(rest_lines@);
    assert(a.len() == lines@.len() && b.len() == rest_lines@.len());
    assert(a == seq![line] + b);
    assert(a[0] == line && a[0] == lines@[0]@);
    assert forall|i: int| 0 <= i < rest_lines@.len() implies #[trigger] rest_lines@[i]@ == lines@[i
        + 1]@ by {
        assert(b[i] == a[i + 1]);
        assert(b[i] == rest_lines@[i]@ && a[i + 1] == lines@[i + 1]@);
    }
}

/// A text without a line feed is one line, or none where it is empty.
pub proof fn law_last_line(text: &str, lines: Vec<&str>)
    requires
        call_ensures(lines_of, (text,), lines),
        is_one_line(text@),
    ensures
        text@.len() == 0 ==> lines@.len() == 0,
        text@.len() > 0 ==> lines@.len() == 1 && lines@[0]@ == text@,
{
    lemma_last_line(text@);
    let a = line_views(lines@);
    assert(a.len() == lines@.len());
    if text@.len() > 0 {
        assert(a[0] == text@ && a[0] == lines@[0]@);
    }
}

/// Between what comes before a line and what comes after it, a stream's values
/// hold just what that line gives: the JSON behind `data: `, of any length, in
/// its place.
pub proof fn law_stream_line(
    before: &str,
    line: Seq<char>,
    end: Seq<char>,
    after: &str,
    text: &str,
    of_before: Result<Vec<Value>, String>,
    of_after: Result<Vec<Value>, String>,
    of_text: Result<Vec<Value>, String>,
)
    requires
        call_ensures(sse_values, (before,), of_before),
        call_ensures(sse_values, (after,), of_after),
        call_ensures(sse_values, (text,), of_text),
        text@ == before@ + line + end + after@,
        is_at_line_start(before@),
        is_one_line(line),
        is_line_end(line, end),
    ensures
        values_read(of_text) == one_then_other(
            values_read(of_before),
            one_then_other(read_of_line(line), values_read(of_after)),
        ),
{
    let tail = line + end + after@;
    assert(text@ =~= before@ + tail);
    lemma_lines_append(before@, tail);
    lemma_first_line(line, end, after@);
    lemma_read_lines(text_lines(before@), seq![line] + text_lines(after@));
    lemma_read_lines(seq![line], text_lines(after@));
    lemma_read_line(line);
    lemma_values_read(of_before);
    lemma_values_read(of_after);
    lemma_values_read(of_text);
}

/// The same holds of a last line that nothing ends.
pub proof fn law_stream_last_line(
    before: &str,
    line: Seq<char>,
    text: &str,
    of_before: Result<Vec<Value>, String>,
    of_text: Result<Vec<Value>, String>,
)
    requires
        call_ensures(sse_values, (before,), of_before),
        call_ensures(sse_values, (text,), of_text),
        text@ == before@ + line,
        is_at_line_start(before@),
        is_one_line(line),
    ensures
        values_read(of_text) == one_then_other(values_read(of_before), read_of_line(line)),
{
    lemma_lines_append(before@, line);
    lemma_last_line(line);
    lemma_read_lines(text_lines(before@), text_lines(line));
    if line.len() > 0 {
        lemma_read_line(line);
    } else {
        assert(data_values(lines_data(text_lines(line))) == EventsResult::Ok(Seq::empty()));
    }
    lemma_values_read(of_before);
    lemma_values_read(of_text);
}

/// An empty stream has no values.
pub proof fn law_empty_stream(text: &str, r: Result<Vec<Value>, String>)
    requires
        call_ensures(sse_values, (text,), r),
        text@.len() == 0,
    ensures
        r matches Ok(values) && values@.len() == 0,
{
    lemma_values_read(r);
    assert(text_lines(text@) =~= Seq::empty());
    assert(lines_data(text_lines(text@)) =~= Seq::empty());
    assert(data_values(Seq::empty()) == EventsResult::Ok(Seq::empty()));
    if let Ok(values) = r {
        assert(models(values@).len() == values@.len());
    }
}

proof fn lemma_values_read(r: Result<Vec<Value>, String>)
    ensures
        r matches Ok(values) ==> values_read(r) == EventsResult::Ok(models(values@)),
{
    if let Ok(values) = r {
        assert(Seq::new(values@.len(), |i: int| json_model(values@[i])) =~= models(values@));
    }
}

proof fn lemma_first_line(line: Seq<char>, end: Seq<char>, rest: Seq<char>)
    requires
        is_one_line(line),
        is_line_end(line, end),
    ensures
        text_lines(line + end + rest) == seq![line] + text_lines(rest),
{
    let s = line + end + rest;
    if end == seq!['\n'] {
        let n = line.len() as int;
        lemma_first_index_unique(s, '\n', n);
        assert(s.take(n) =~= line);
        assert(s.skip(n + 1) =~= rest);
        assert(without_return(line) == line);
    } else {
        let n = line.len() as int + 1;
        lemma_first_index_unique(s, '\n', n);
        assert(s.take(n) =~= line.push('\r'));
        assert(s.skip(n + 1) =~= rest);
        assert(without_return(line.push('\r')) =~= line);
    }
}

proof fn lemma_last_line(line: Seq<char>)
    requires
        is_one_line(line),
    ensures
        text_lines(line) == if line.len() == 0 {
            Seq::<Seq<char>>::empty()
        } else {
            seq![line]
        },
{
    lemma_first_index_unique(line, '\n', line.len() as int);
}

/// What starts at a line's start adds its own lines.
proof fn lemma_lines_append(a: Seq<char>, x: Seq<char>)
    requires
        is_at_line_start(a),
    ensures
        text_lines(a + x) == text_lines(a) + text_lines(x),
    decreases a.len(),
{
    if a.len() == 0 {
        assert(a + x =~= x);
        assert(text_lines(a) + text_lines(x) =~= text_lines(x));
    } else {
        lemma_first_index(a, '\n');
        let i = first_index(a, '\n');
        if i == a.len() {
            assert(a[a.len() - 1] == '\n');
        }
        let s = a + x;
        assert forall|j: int| 0 <= j < i implies s[j] != '\n' by {
            assert(s[j] == a[j]);
        }
        assert(s[i] == a[i]);
        lemma_first_index_unique(s, '\n', i);
        assert(s.take(i) =~= a.take(i));
        assert(s.skip(i + 1) =~= a.skip(i + 1) + x);
        lemma_lines_append(a.skip(i + 1), x);
        let head = seq![without_return(a.take(i))];
        assert(head + (text_lines(a.skip(i + 1)) + text_lines(x)) =~= (head + text_lines(
            a.skip(i + 1),
        )) + text_lines(x));
    }
}

proof fn lemma_lines_data_append(p: Seq<Seq<char>>, q: Seq<Seq<char>>)
    ensures
        lines_data(p + q) == lines_data(p) + lines_data(q),
    decreases q.len(),
{
    if q.len() == 0 {
        assert(p + q =~= p);
        assert(lines_data(p) + lines_data(q) =~= lines_data(p));
    } else {
        lemma_lines_data_append(p, q.drop_last());
        assert((p + q).drop_last() =~= p + q.drop_last());
        assert((p + q).last() == q.last());
        assert(lines_data(p + q) =~= lines_data(p) + lines_data(q));
    }
}

proof fn lemma_data_values_append(p: Seq<Seq<char>>, q: Seq<Seq<char>>)
    ensures
        data_values(p + q) == one_then_other(data_values(p), data_values(q)),
    decreases q.len(),
{
    if q.len() == 0 {
        assert(p + q =~= p);
        assert(data_values(q) == EventsResult::Ok(Seq::empty()));
        if let Ok(x) = data_values(p) {
            assert(x + Seq::<JsonModel>::empty() =~= x);
        }
    } else {
        lemma_data_values_append(p, q.drop_last());
        assert((p + q).drop_last() =~= p + q.drop_last());
        assert((p + q).last() == q.last());
        if let (Ok(x), Ok(y)) = (data_values(p), data_values(q.drop_last())) {
            if let Ok(v) = json_parsed(q.last()) {
                assert((x + y).push(v) =~= x + y.push(v));
            }
        }
    }
}

proof fn lemma_read_lines(p: Seq<Seq<char>>, q: Seq<Seq<char>>)
    ensures
        data_values(lines_data(p + q)) == one_then_other(
            data_values(lines_data(p)),
            data_values(lines_data(q)),
        ),
{
    lemma_lines_data_append(p, q);
    lemma_data_values_append(lines_data(p), lines_data(q));
}

proof fn lemma_read_line(line: Seq<char>)
    ensures
        data_values(lines_data(seq![line])) == read_of_line(line),
{
    reveal_strlit("data: ");
    reveal_strlit("[DONE]");
    assert("data: "@ =~= seq!['d', 'a', 't', 'a', ':', ' ']);
    assert("[DONE]"@ =~= seq!['[', 'D', 'O', 'N', 'E', ']']);
    let one = seq![line];
    let none = Seq::<Seq<char>>::empty();
    assert(one.drop_last() =~= none);
    assert(lines_data(none) =~= none);
    assert(data_values(none) == EventsResult::Ok(Seq::empty()));
    match line_data(line) {
        Some(data) => {
            let d = lines_data(one);
            assert(d =~= seq![data]);
            assert(d.drop_last() =~= none);
            if let Ok(v) = json_parsed(data) {
                assert(Seq::<JsonModel>::empty().push(v) =~= seq![v]);
            }
        },
        None => {
            assert(lines_data(one) =~= none);
        },
    }
}

/// Whether an event is a JSON object of the given type.
pub open spec fn is_of_type(event: JsonModel, kind: Seq<char>) -> bool {
    event matches JsonModel::Object(members) && members.dom().contains("type"@) && members["type"@]
        == JsonModel::Text(kind)
}

/// The content block that an event names, where it names one.
pub open spec fn named_block(event: JsonModel) -> Option<u64> {
    match event {
        JsonModel::Object(members) => if members.dom().contains("index"@) {
            match members["index"@] {
                JsonModel::Unsigned(n) => Some(n),
                _ => None,
            }
        } else {
            None
        },
        _ => None,
    }
}

/// The content block that is open behind some events: the latest start or stop
/// of a block decides.
pub open spec fn block_left_open(events: Seq<JsonModel>) -> Option<u64>
    decreases events.len(),
{
    if events.len() == 0 {
        None
    } else if is_of_type(events.last(), "content_block_start"@) {
        named_block(events.last())
    } else if is_of_type(events.last(), "content_block_stop"@) {
        None
    } else {
        block_left_open(events.drop_last())
    }
}

/// Whether a message has started before a position.
pub open spec fn has_started(events: Seq<JsonModel>, i: int) -> bool {
    exists|j: int| 0 <= j < i && is_of_type(#[trigger] events[j], "message_start"@)
}

/// Whether the event at a position may stand there.
pub open spec fn may_stand(events: Seq<JsonModel>, i: int) -> bool {
    let open = block_left_open(events.take(i));
    let event = events[i];
    ||| is_of_type(event, "message_start"@) && !has_started(events, i)
    ||| is_of_type(event, "content_block_start"@) && has_started(events, i) && open is None
    ||| is_of_type(event, "message_delta"@) && has_started(events, i) && open is None
    ||| is_of_type(event, "message_stop"@) && has_started(events, i) && open is None
    ||| is_of_type(event, "content_block_delta"@) && open == named_block(event)
    ||| is_of_type(event, "content_block_stop"@) && open == named_block(event)
}

proof fn lemma_may_stand_prefix(events: Seq<JsonModel>, n: int, i: int)
    requires
        0 <= i < n <= events.len(),
    ensures
        may_stand(events.take(n), i) == may_stand(events, i),
{
    let front = events.take(n);
    assert(front.take(i) =~= events.take(i));
    assert(has_started(front, i) == has_started(events, i)) by {
        if has_started(front, i) {
            let j = choose|j: int| 0 <= j < i && is_of_type(#[trigger] front[j], "message_start"@);
            assert(events[j] == front[j]);
        }
        if has_started(events, i) {
            let j = choose|j: int| 0 <= j < i && is_of_type(#[trigger] events[j], "message_start"@);
            assert(events[j] == front[j]);
        }
    }
}

proof fn lemma_kinds_differ()
    ensures
        "message_start"@ != "message_stop"@ && "message_start"@ != "message_delta"@,
        "message_start"@ != "content_block_start"@ && "message_start"@ != "content_block_delta"@,
        "message_start"@ != "content_block_stop"@ && "message_stop"@ != "message_delta"@,
        "message_stop"@ != "content_block_start"@ && "message_stop"@ != "content_block_delta"@,
        "message_stop"@ != "content_block_stop"@ && "message_delta"@ != "content_block_start"@,
        "message_delta"@ != "content_block_delta"@ && "message_delta"@ != "content_block_stop"@,
        "content_block_start"@ != "content_block_delta"@,
        "content_block_start"@ != "content_block_stop"@,
        "content_block_delta"@ != "content_block_stop"@,
{
    reveal_strlit("message_start");
    reveal_strlit("message_stop");
    reveal_strlit("message_delta");
    reveal_strlit("content_block_start");
    reveal_strlit("content_block_delta");
    reveal_strlit("content_block_stop");
    assert("message_start"@.len() == 13 && "message_stop"@.len() == 12 && "message_delta"@.len()
        == 13);
    assert("content_block_start"@.len() == 19 && "content_block_delta"@.len() == 19
        && "content_block_stop"@.len() == 18);
    assert("message_start"@[8] == 's' && "message_delta"@[8] == 'd');
    assert("content_block_start"@[14] == 's' && "content_block_delta"@[14] == 'd');
}

/// Events may follow each other just where each may stand where it stands.
proof fn lemma_followed(events: Seq<JsonModel>)
    ensures
        followed(events) is Some <==> forall|i: int|
            0 <= i < events.len() ==> #[trigger] may_stand(events, i),
        followed(events) matches Some(state) ==> {
            &&& state.started == has_started(events, events.len() as int)
            &&& state.open == block_left_open(events)
        },
    decreases events.len(),
{
    lemma_kinds_differ();
    if events.len() > 0 {
        let n = events.len() - 1;
        let front = events.drop_last();
        let last = events.last();
        lemma_followed(front);
        assert(front =~= events.take(n));
        assert forall|i: int| 0 <= i < n implies #[trigger] may_stand(events, i) == may_stand(
            front,
            i,
        ) by {
            lemma_may_stand_prefix(events, n, i);
        }
        assert(has_started(events, n) == has_started(front, n)) by {
            if has_started(events, n) {
                let j = choose|j: int|
                    0 <= j < n && is_of_type(#[trigger] events[j], "message_start"@);
                assert(front[j] == events[j]);
            }
            if has_started(front, n) {
                let j = choose|j: int| 0 <= j < n && is_of_type(#[trigger] front[j], "message_start"@);
                assert(front[j] == events[j]);
            }
        }
        assert(has_started(events, n + 1) == (has_started(events, n) || is_of_type(
            last,
            "message_start"@,
        ))) by {
            if is_of_type(last, "message_start"@) {
                assert(is_of_type(events[n], "message_start"@));
            }
        }
        if followed(front) is None {
            let i = choose|i: int| 0 <= i < n && !#[trigger] may_stand(front, i);
            assert(!may_stand(events, i));
        } else {
            assert(advanced(followed(front)->0, last) is Some <==> may_stand(events, n));
        }
    } else {
        assert(!has_started(events, 0));
    }
}

/// A lifecycle begins with nothing started, and each event moves it on as its
/// type asks, or is refused.
pub proof fn law_lifecycle_step(
    first: Lifecycle,
    state: Lifecycle,
    event: &Value,
    r: Option<Lifecycle>,
)
    requires
        call_ensures(Lifecycle::new, (), first),
        call_ensures(Lifecycle::advance, (state, event), r),
    ensures
        !first.started && first.open is None && !first.stopped,
        ({
            let e = json_model(*event);
            let between = state.started && state.open is None;
            &&& is_of_type(e, "message_start"@) ==> r == if state.started {
                None
            } else {
                Some(Lifecycle { started: true, ..state })
            }
            &&& is_of_type(e, "content_block_start"@) ==> r == if between {
                Some(Lifecycle { open: named_block(e), ..state })
            } else {
                None
            }
            &&& is_of_type(e, "content_block_delta"@) ==> r == if state.open == named_block(e) {
                Some(state)
            } else {
                None
            }
            &&& is_of_type(e, "content_block_stop"@) ==> r == if state.open == named_block(e) {
                Some(Lifecycle { open: None, ..state })
            } else {
                None
            }
            &&& is_of_type(e, "message_delta"@) ==> r == if between {
                Some(state)
            } else {
                None
            }
            &&& is_of_type(e, "message_stop"@) ==> r == if between {
                Some(Lifecycle { stopped: true, ..state })
            } else {
                None
            }
            &&& r is Some ==> is_of_type(e, "message_start"@) || is_of_type(
                e,
                "content_block_start"@,
            ) || is_of_type(e, "content_block_delta"@) || is_of_type(e, "content_block_stop"@)
                || is_of_type(e, "message_delta"@) || is_of_type(e, "message_stop"@)
        }),
{
    lemma_kinds_differ();
}

/// Events are a complete message just where there are any, each may stand where
/// it stands, and the last one stops the message.
pub proof fn law_complete_message_stands(values: &Vec<Value>, r: bool)
    requires
        call_ensures(is_complete_message, (values,), r),
    ensures
        ({
            let events = Seq::new(values@.len(), |i: int| json_model(values@[i]));
            r <==> {
                &&& events.len() > 0
                &&& forall|i: int| 0 <= i < events.len() ==> #[trigger] may_stand(events, i)
                &&& is_of_type(events.last(), "message_stop"@)
            }
        }),
{
    let events = Seq::new(values@.len(), |i: int| json_model(values@[i]));
    assert(events =~= models(values@));
    lemma_kinds_differ();
    lemma_followed(events);
}

/// A stream is accepted just where all its data are JSON and its values are a
/// complete message.
pub proof fn law_checked_stream(
    text: &str,
    read: Result<Vec<Value>, String>,
    values: &Vec<Value>,
    complete: bool,
    accepted: bool,
)
    requires
        call_ensures(sse_values, (text,), read),
        call_ensures(is_complete_message, (values,), complete),
        call_ensures(check_claude_lifecycle, (text,), accepted),
    ensures
        read is Err ==> !accepted,
        read matches Ok(v) && v == *values ==> accepted == complete,
{
}

} // verus!
