//! Server-sent event streams: the JSON values that a stream carries, and the
//! lifecycle that a streamed message has to follow.

use crate::fold::{folded, law_first_failure_decides};
use crate::json::{
    json_as_text, json_as_u64, json_member, json_model, json_parsed, member, number_of, parse_json,
    text_of, JsonModel,
};
use crate::text::{
    begins_with, chars_of, first_index, lemma_first_index_unique, same_text, starts_with,
};
use serde_json::Value;
use vstd::prelude::*;

verus! {

/// A line without the carriage return that ends it.
pub open spec fn without_return(line: Seq<char>) -> Seq<char> {
    if line.len() > 0 && line.last() == '\r' {
        line.drop_last()
    } else {
        line
    }
}

/// The lines of a text. A line ends with a line feed, and a carriage return
/// before that belongs to the end; the last line need not have one.
pub open spec fn text_lines(s: Seq<char>) -> Seq<Seq<char>>
    decreases s.len(),
{
    let i = first_index(s, '\n');
    if s.len() == 0 {
        Seq::empty()
    } else if 0 <= i < s.len() {
        seq![without_return(s.take(i))] + text_lines(s.skip(i + 1))
    } else {
        seq![s]
    }
}

/// The data that a line carries. The mark that ends a stream is none.
pub open spec fn line_data(line: Seq<char>) -> Option<Seq<char>> {
    if begins_with(line, "data: "@) && line.skip("data: "@.len() as int) != "[DONE]"@ {
        Some(line.skip("data: "@.len() as int))
    } else {
        None
    }
}

/// The data that some lines carry.
pub open spec fn lines_data(lines: Seq<Seq<char>>) -> Seq<Seq<char>>
    decreases lines.len(),
{
    if lines.len() == 0 {
        Seq::empty()
    } else {
        match line_data(lines.last()) {
            Some(data) => lines_data(lines.drop_last()).push(data),
            None => lines_data(lines.drop_last()),
        }
    }
}

/// The JSON values of a stream, or the first reason why its data are not JSON.
pub type EventsResult = Result<Seq<JsonModel>, Seq<char>>;

/// The step that parses one more run of data.
pub open spec fn parsing() -> spec_fn(Seq<JsonModel>, Seq<char>) -> EventsResult {
    |values: Seq<JsonModel>, data: Seq<char>|
        match json_parsed(data) {
            Err(reason) => EventsResult::Err(reason),
            Ok(value) => EventsResult::Ok(values.push(value)),
        }
}

/// The JSON values that some data stand for.
pub open spec fn data_values(data: Seq<Seq<char>>) -> EventsResult {
    folded(Seq::empty(), parsing(), data)
}

/// The JSON values that a stream carries.
pub open spec fn stream_values(text: Seq<char>) -> EventsResult {
    data_values(lines_data(text_lines(text)))
}

/// What some JSON values hold.
pub open spec fn models(values: Seq<Value>) -> Seq<JsonModel> {
    values.map_values(|v: Value| json_model(v))
}

/// The views of some strings.
pub open spec fn line_views(lines: Seq<&str>) -> Seq<Seq<char>> {
    lines.map_values(|line: &str| line@)
}

/// The position of the next line feed, or the length where there is none.
fn next_feed(v: &Vec<char>, from: usize) -> (r: usize)
    requires
        from <= v@.len(),
    ensures
        from <= r <= v@.len(),
        r - from == first_index(v@.skip(from as int), '\n'),
{
    let mut i: usize = from;
    while i < v.len() && v[i] != '\n'
        invariant
            from <= i <= v@.len(),
            forall|j: int| from <= j < i ==> v@[j] != '\n',
        decreases v@.len() - i,
    {
        i += 1;
    }
    proof {
        let rest = v@.skip(from as int);
        assert forall|j: int| 0 <= j < i - from implies rest[j] != '\n' by {
            assert(rest[j] == v@[from + j]);
        }
        lemma_first_index_unique(rest, '\n', i - from);
    }
    i
}

/// The lines of a text.
pub fn lines_of(text: &str) -> (r: Vec<&str>)
    ensures
        line_views(r@) == text_lines(text@),
{
    let v = chars_of(text);
    let mut out: Vec<&str> = Vec::new();
    let mut start: usize = 0;
    assert(text@.skip(0) =~= text@);
    assert(line_views(out@) + text_lines(text@) =~= text_lines(text@));
    while start < v.len()
        invariant
            v@ == text@,
            start <= v@.len(),
            line_views(out@) + text_lines(text@.skip(start as int)) == text_lines(text@),
        decreases v@.len() - start,
    {
        let ghost rest = text@.skip(start as int);
        let ghost before = line_views(out@);
        let end: usize = next_feed(&v, start);
        if end == v.len() {
            assert(text@.subrange(start as int, end as int) =~= rest);
            out.push(text.substring_char(start, end));
            assert(line_views(out@) =~= before + seq![rest]);
            assert(text_lines(rest) =~= seq![rest]);
            return out;
        }
        let ghost line = rest.take(end - start);
        let stop: usize = if end > start && v[end - 1] == '\r' {
            end - 1
        } else {
            end
        };
        proof {
            assert(line.len() > 0 ==> line.last() == text@[end - 1]);
            assert(text@.subrange(start as int, stop as int) =~= without_return(line));
            assert(rest.skip(end - start + 1) =~= text@.skip(end + 1));
        }
        out.push(text.substring_char(start, stop));
        start = end + 1;
        proof {
            assert(line_views(out@) =~= before + seq![without_return(line)]);
            let tail = text_lines(text@.skip(end + 1));
            assert(text_lines(rest) =~= seq![without_return(line)] + tail);
            assert(line_views(out@) + tail =~= before + text_lines(rest));
        }
    }
    assert(text_lines(text@.skip(start as int)) =~= Seq::empty());
    assert(line_views(out@) =~= text_lines(text@));
    out
}

/// The data that a line carries.
fn data_of(line: &str) -> (r: Option<&str>)
    ensures
        match r {
            Some(data) => line_data(line@) == Some(data@),
            None => line_data(line@) is None,
        },
{
    if !starts_with(line, "data: ") {
        return None;
    }
    let n: usize = line.unicode_len();
    let k: usize = "data: ".unicode_len();
    assert(line@.subrange(k as int, n as int) =~= line@.skip(k as int));
    let data = line.substring_char(k, n);
    if same_text(data, "[DONE]") {
        None
    } else {
        Some(data)
    }
}

/// The JSON values that a stream carries, or the first reason why its data are
/// not JSON.
pub fn sse_values(text: &str) -> (r: Result<Vec<Value>, String>)
    ensures
        match r {
            Ok(values) => stream_values(text@) == EventsResult::Ok(models(values@)),
            Err(reason) => stream_values(text@) == EventsResult::Err(reason@),
        },
{
    let lines = lines_of(text);
    let ghost views = line_views(lines@);
    let mut values: Vec<Value> = Vec::new();
    assert(models(values@) =~= Seq::empty());
    for i in 0..lines.len()
        invariant
            views == line_views(lines@),
            views == text_lines(text@),
            data_values(lines_data(views.take(i as int))) == EventsResult::Ok(models(values@)),
    {
        let ghost before = lines_data(views.take(i as int));
        proof {
            assert(views.take(i + 1).drop_last() =~= views.take(i as int));
            assert(views.take(i + 1).last() == lines@[i as int]@);
        }
        match data_of(lines[i]) {
            Some(data) => {
                let ghost after = lines_data(views.take(i + 1));
                assert(after == before.push(data@));
                assert(after.drop_last() =~= before);
                match parse_json(data) {
                    Ok(value) => {
                        let ghost prior = models(values@);
                        values.push(value);
                        assert(models(values@) =~= prior.push(json_model(value)));
                    },
                    Err(reason) => {
                        proof {
                            lemma_lines_data_grows(views, i + 1);
                            law_first_failure_decides(
                                Seq::empty(),
                                parsing(),
                                lines_data(views),
                                after.len() as int,
                            );
                        }
                        return Err(reason);
                    },
                }
            },
            None => {},
        }
    }
    assert(views.take(views.len() as int) =~= views);
    Ok(values)
}

/// The data of the first lines come first.
proof fn lemma_lines_data_grows(lines: Seq<Seq<char>>, n: int)
    requires
        0 <= n <= lines.len(),
    ensures
        lines_data(lines.take(n)).len() <= lines_data(lines).len(),
        lines_data(lines).take(lines_data(lines.take(n)).len() as int) == lines_data(lines.take(n)),
    decreases lines.len(),
{
    if n == lines.len() {
        assert(lines.take(n) =~= lines);
        assert(lines_data(lines).take(lines_data(lines).len() as int) =~= lines_data(lines));
    } else {
        assert(lines.drop_last().take(n) =~= lines.take(n));
        lemma_lines_data_grows(lines.drop_last(), n);
        let k = lines_data(lines.take(n)).len() as int;
        assert(lines_data(lines).take(k) =~= lines_data(lines.drop_last()).take(k));
    }
}

/// How far a streamed message has come.
#[derive(Clone, Copy, PartialEq, Eq, Debug, Structural)]
pub struct Lifecycle {
    pub started: bool,
    /// The content block that is open.
    pub open: Option<u64>,
    pub stopped: bool,
}

/// The type of an event.
pub open spec fn event_type(event: JsonModel) -> Option<Seq<char>> {
    match member(event, "type"@) {
        Some(value) => text_of(value),
        None => None,
    }
}

/// The content block that an event speaks of.
pub open spec fn event_index(event: JsonModel) -> Option<u64> {
    match member(event, "index"@) {
        Some(value) => number_of(value),
        None => None,
    }
}

/// Whether an event has the given type.
pub open spec fn is_event(event: JsonModel, kind: Seq<char>) -> bool {
    event_type(event) == Some(kind)
}

/// The state before the first event.
pub open spec fn fresh() -> Lifecycle {
    Lifecycle { started: false, open: None, stopped: false }
}

/// The state after one more event, where the event may come.
pub open spec fn advanced(state: Lifecycle, event: JsonModel) -> Option<Lifecycle> {
    let between = state.started && state.open is None;
    if is_event(event, "message_start"@) {
        if state.started {
            None
        } else {
            Some(Lifecycle { started: true, ..state })
        }
    } else if is_event(event, "content_block_start"@) {
        if between {
            Some(Lifecycle { open: event_index(event), ..state })
        } else {
            None
        }
    } else if is_event(event, "content_block_delta"@) {
        if state.open == event_index(event) {
            Some(state)
        } else {
            None
        }
    } else if is_event(event, "content_block_stop"@) {
        if state.open == event_index(event) {
            Some(Lifecycle { open: None, ..state })
        } else {
            None
        }
    } else if is_event(event, "message_delta"@) {
        if between {
            Some(state)
        } else {
            None
        }
    } else if is_event(event, "message_stop"@) {
        if between {
            Some(Lifecycle { stopped: true, ..state })
        } else {
            None
        }
    } else {
        None
    }
}

/// The step that takes one more event.
pub open spec fn advancing() -> spec_fn(Lifecycle, JsonModel) -> Result<Lifecycle, JsonModel> {
    |state: Lifecycle, event: JsonModel|
        match advanced(state, event) {
            Some(next) => Ok(next),
            None => Err(event),
        }
}

/// The state after some events, where each may come in its place.
pub open spec fn followed(events: Seq<JsonModel>) -> Option<Lifecycle> {
    match folded(fresh(), advancing(), events) {
        Ok(state) => Some(state),
        Err(_) => None,
    }
}

/// Whether some events are a complete message: each may come in its place, and
/// the last one ends the message.
pub open spec fn is_complete(events: Seq<JsonModel>) -> bool {
    &&& followed(events) matches Some(state)
    &&& state.stopped
    &&& events.len() > 0
    &&& is_event(events.last(), "message_stop"@)
}

/// The type of an event.
fn type_of(event: &Value) -> (r: Option<String>)
    ensures
        match r {
            Some(kind) => event_type(json_model(*event)) == Some(kind@),
            None => event_type(json_model(*event)) is None,
        },
{
    match json_member(event, "type") {
        Some(value) => json_as_text(&value),
        None => None,
    }
}

/// The content block that an event speaks of.
fn index_of(event: &Value) -> (r: Option<u64>)
    ensures
        r == event_index(json_model(*event)),
{
    match json_member(event, "index") {
        Some(value) => json_as_u64(&value),
        None => None,
    }
}

/// Whether two optional numbers are the same.
fn same_index(a: Option<u64>, b: Option<u64>) -> (r: bool)
    ensures
        r == (a == b),
{
    match (a, b) {
        (Some(x), Some(y)) => x == y,
        (None, None) => true,
        _ => false,
    }
}

impl Lifecycle {
    /// The state before the first event.
    pub fn new() -> (r: Self)
        ensures
            r == fresh(),
    {
        Lifecycle { started: false, open: None, stopped: false }
    }

    /// The state after one more event, where the event may come.
    pub fn advance(self, event: &Value) -> (r: Option<Lifecycle>)
        ensures
            r == advanced(self, json_model(*event)),
    {
        let kind = match type_of(event) {
            Some(kind) => kind,
            None => {
                return None;
            },
        };
        let index = index_of(event);
        let between = self.started && self.open.is_none();
        if same_text(kind.as_str(), "message_start") {
            if self.started {
                None
            } else {
                Some(Lifecycle { started: true, open: self.open, stopped: self.stopped })
            }
        } else if same_text(kind.as_str(), "content_block_start") {
            if between {
                Some(Lifecycle { started: self.started, open: index, stopped: self.stopped })
            } else {
                None
            }
        } else if same_text(kind.as_str(), "content_block_delta") {
            if same_index(self.open, index) {
                Some(self)
            } else {
                None
            }
        } else if same_text(kind.as_str(), "content_block_stop") {
            if same_index(self.open, index) {
                Some(Lifecycle { started: self.started, open: None, stopped: self.stopped })
            } else {
                None
            }
        } else if same_text(kind.as_str(), "message_delta") {
            if between {
                Some(self)
            } else {
                None
            }
        } else if same_text(kind.as_str(), "message_stop") {
            if between {
                Some(Lifecycle { started: self.started, open: self.open, stopped: true })
            } else {
                None
            }
        } else {
            None
        }
    }
}

/// Whether some events are a complete message.
pub fn is_complete_message(events: &Vec<Value>) -> (r: bool)
    ensures
        r == is_complete(models(events@)),
{
    let ghost views = models(events@);
    let mut state = Lifecycle::new();
    for i in 0..events.len()
        invariant
            views == models(events@),
            followed(views.take(i as int)) == Some(state),
    {
        proof {
            assert(views.take(i + 1).drop_last() =~= views.take(i as int));
            assert(views.take(i + 1).last() == json_model(events@[i as int]));
        }
        match state.advance(&events[i]) {
            Some(next) => {
                state = next;
            },
            None => {
                proof {
                    law_first_failure_decides(fresh(), advancing(), views, i + 1);
                }
                return false;
            },
        }
    }
    assert(views.take(views.len() as int) =~= views);
    if !state.stopped || events.len() == 0 {
        return false;
    }
    match type_of(&events[events.len() - 1]) {
        Some(kind) => same_text(kind.as_str(), "message_stop"),
        None => false,
    }
}

/// Whether a stream carries JSON events that are a complete message.
pub fn check_claude_lifecycle(text: &str) -> (r: bool)
    ensures
        r == match stream_values(text@) {
            Ok(events) => is_complete(events),
            Err(_) => false,
        },
{
    match sse_values(text) {
        Ok(events) => is_complete_message(&events),
        Err(_) => false,
    }
}

/// How many events have the given type.
pub open spec fn count_kind(events: Seq<JsonModel>, kind: Seq<char>) -> nat
    decreases events.len(),
{
    if events.len() == 0 {
        0
    } else {
        count_kind(events.drop_last(), kind) + if is_event(events.last(), kind) {
            1nat
        } else {
            0nat
        }
    }
}

/// How many events have the given type and speak of the given content block.
pub open spec fn count_block(events: Seq<JsonModel>, kind: Seq<char>, index: u64) -> nat
    decreases events.len(),
{
    if events.len() == 0 {
        0
    } else {
        count_block(events.drop_last(), kind, index) + if is_event(events.last(), kind)
            && event_index(events.last()) == Some(index) {
            1nat
        } else {
            0nat
        }
    }
}

proof fn lemma_event_kinds()
    ensures
        "message_start"@ != "message_stop"@,
        "message_start"@ != "message_delta"@,
        "message_start"@ != "content_block_start"@,
        "message_start"@ != "content_block_delta"@,
        "message_start"@ != "content_block_stop"@,
        "message_stop"@ != "message_delta"@,
        "message_stop"@ != "content_block_start"@,
        "message_stop"@ != "content_block_delta"@,
        "message_stop"@ != "content_block_stop"@,
        "message_delta"@ != "content_block_start"@,
        "message_delta"@ != "content_block_delta"@,
        "message_delta"@ != "content_block_stop"@,
        "content_block_start"@ != "content_block_delta"@,
        "content_block_start"@ != "content_block_stop"@,
        "content_block_delta"@ != "content_block_stop"@,
{
    reveal_strlit("message_start");
    reveal_strlit("message_stop");
    reveal_strlit("message_delta");
    reveal_strlit("content_block_start");
    reveal_strlit("content_block_delta");
    reveal_strlit("content_block_stop");
    assert("message_start"@.len() == 13 && "message_stop"@.len() == 12 && "message_delta"@.len()
        == 13);
    assert("content_block_start"@.len() == 19 && "content_block_delta"@.len() == 19
        && "content_block_stop"@.len() == 18);
    assert("message_start"@[8] == 's' && "message_delta"@[8] == 'd');
    assert("content_block_start"@[14] == 's' && "content_block_delta"@[14] == 'd');
}

/// Events that each come in their place start at most one message, and leave
/// open just the content block that has been started once more than stopped.
pub proof fn law_followed_events(events: Seq<JsonModel>, index: u64)
    ensures
        followed(events) matches Some(state) ==> {
            &&& count_kind(events, "message_start"@) == if state.started {
                1nat
            } else {
                0nat
            }
            &&& state.stopped <==> count_kind(events, "message_stop"@) > 0
            &&& count_block(events, "content_block_start"@, index) == count_block(
                events,
                "content_block_stop"@,
                index,
            ) + if state.open == Some(index) {
                1nat
            } else {
                0nat
            }
        },
    decreases events.len(),
{
    lemma_event_kinds();
    if events.len() > 0 {
        law_followed_events(events.drop_last(), index);
    }
}

/// A complete message has one start, ends with a stop, and stops every content
/// block as often as it starts it.
pub proof fn law_complete_message(events: Seq<JsonModel>, index: u64)
    requires
        is_complete(events),
    ensures
        count_kind(events, "message_start"@) == 1,
        is_event(events.last(), "message_stop"@),
        count_block(events, "content_block_start"@, index) == count_block(
            events,
            "content_block_stop"@,
            index,
        ),
{
    lemma_event_kinds();
    law_followed_events(events, index);
    law_followed_events(events.drop_last(), index);
}

/// Within events that each come in their place, content blocks start and
/// messages change or stop only after the message has started and while no
/// block is open, and what is added to a block comes while that block is open.
pub proof fn law_events_in_place(events: Seq<JsonModel>, i: int, index: u64)
    requires
        followed(events) is Some,
        0 <= i < events.len(),
    ensures
        is_event(events[i], "content_block_start"@) || is_event(events[i], "message_delta"@)
            || is_event(events[i], "message_stop"@) ==> count_kind(
            events.take(i),
            "message_start"@,
        ) == 1 && count_block(events.take(i), "content_block_start"@, index) == count_block(
            events.take(i),
            "content_block_stop"@,
            index,
        ),
        is_event(events[i], "content_block_delta"@) && event_index(events[i]) == Some(index)
            ==> count_block(events.take(i), "content_block_start"@, index) == count_block(
            events.take(i),
            "content_block_stop"@,
            index,
        ) + 1,
{
    lemma_event_kinds();
    let here = events.take(i + 1);
    assert(here.drop_last() =~= events.take(i));
    assert(here.last() == events[i]);
    if followed(here) is None {
        law_first_failure_decides(fresh(), advancing(), events, i + 1);
    }
    law_followed_events(events.take(i), index);
}

/// Whether an event is one about a content block.
pub open spec fn is_block_event(event: JsonModel) -> bool {
    ||| is_event(event, "content_block_start"@)
    ||| is_event(event, "content_block_delta"@)
    ||| is_event(event, "content_block_stop"@)
}

/// Whether an event is of a known type, and names its block where it is about
/// one.
pub open spec fn is_known_event(event: JsonModel) -> bool {
    ||| is_event(event, "message_start"@)
    ||| is_event(event, "message_delta"@)
    ||| is_event(event, "message_stop"@)
    ||| is_block_event(event) && event_index(event) is Some
}

/// The content block that is open after some events: the latest start or stop of
/// a block decides.
pub open spec fn open_block(events: Seq<JsonModel>) -> Option<u64>
    decreases events.len(),
{
    if events.len() == 0 || is_event(events.last(), "content_block_stop"@) {
        None
    } else if is_event(events.last(), "content_block_start"@) {
        event_index(events.last())
    } else {
        open_block(events.drop_last())
    }
}

/// Whether the event at a position stands where it may: a start of the message
/// comes first and nowhere else, a block starts and the message changes or stops
/// while no block is open, and all else is about the block that is open.
pub open spec fn is_in_place(events: Seq<JsonModel>, i: int) -> bool {
    let open = open_block(events.take(i));
    &&& is_event(events[i], "message_start"@) <==> i == 0
    &&& is_event(events[i], "content_block_start"@) || is_event(events[i], "message_delta"@)
        || is_event(events[i], "message_stop"@) ==> open is None
    &&& is_event(events[i], "content_block_delta"@) || is_event(events[i], "content_block_stop"@)
        ==> open == event_index(events[i])
}

/// Known events may follow each other just where each stands in its place.
proof fn lemma_followed_in_place(events: Seq<JsonModel>)
    requires
        forall|i: int| 0 <= i < events.len() ==> is_known_event(#[trigger] events[i]),
    ensures
        followed(events) is Some <==> forall|i: int|
            0 <= i < events.len() ==> #[trigger] is_in_place(events, i),
        followed(events) matches Some(state) ==> state.started == (events.len() > 0) && state.open
            == open_block(events),
    decreases events.len(),
{
    lemma_event_kinds();
    if events.len() > 0 {
        let front = events.drop_last();
        let n = front.len() as int;
        lemma_followed_in_place(front);
        assert(events.take(n) =~= front);
        assert(is_known_event(events[n]));
        assert forall|i: int| 0 <= i < n implies #[trigger] is_in_place(events, i) == is_in_place(
            front,
            i,
        ) by {
            assert(events.take(i) =~= front.take(i));
        }
        if followed(front) is None {
            let i = choose|i: int| 0 <= i < n && !#[trigger] is_in_place(front, i);
            assert(!is_in_place(events, i));
        } else {
            assert(advanced(followed(front)->0, events.last()) is Some <==> is_in_place(events, n));
        }
    }
}

/// Known events are a complete message just where each stands in its place and
/// the last one stops the message.
pub proof fn law_complete_message_in_place(events: Seq<JsonModel>)
    requires
        forall|i: int| 0 <= i < events.len() ==> is_known_event(#[trigger] events[i]),
    ensures
        is_complete(events) <==> {
            &&& events.len() > 0
            &&& forall|i: int| 0 <= i < events.len() ==> #[trigger] is_in_place(events, i)
            &&& is_event(events.last(), "message_stop"@)
        },
{
    lemma_event_kinds();
    lemma_followed_in_place(events);
}

} // verus!
