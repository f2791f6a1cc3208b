//! The terms in which the laws speak of texts, header values and errors.

use crate::headers::{header_fields, header_text, is_header_text, last_text};
use crate::json::{json_parsed, json_rendered, JsonModel, JsonResult};
use crate::responses_ws::WsFrameError;
use crate::text::{decimal, digit};
use vstd::prelude::*;

verus! {

/// Whether a header's value is printable ASCII, with spaces and tabs.
pub open spec fn is_text(v: Seq<u8>) -> bool {
    forall|i: int| 0 <= i < v.len() ==> (32 <= #[trigger] v[i] && v[i] <= 126) || v[i] == 9
}

/// ASCII bytes as characters.
pub open spec fn chars_of_bytes(v: Seq<u8>) -> Seq<char> {
    Seq::new(v.len(), |i: int| v[i] as char)
}

/// Whether the value at a position is the last of a header's values that is
/// text.
pub open spec fn is_last_text(values: Seq<Seq<u8>>, i: int) -> bool {
    &&& 0 <= i < values.len()
    &&& is_text(values[i])
    &&& forall|j: int| i < j < values.len() ==> !is_text(#[trigger] values[j])
}

/// The number that a run of digits stands for.
pub open spec fn digits_value(s: Seq<char>) -> int
    decreases s.len(),
{
    if s.len() == 0 {
        0
    } else {
        digits_value(s.drop_last()) * 10 + (s.last() as int - 48)
    }
}

/// Whether a text is the decimal numeral of a number, without leading zeros.
pub open spec fn is_numeral(s: Seq<char>, n: int) -> bool {
    &&& s.len() > 0
    &&& forall|i: int| 0 <= i < s.len() ==> '0' <= #[trigger] s[i] <= '9'
    &&& s.len() > 1 ==> s[0] != '0'
    &&& digits_value(s) == n
}

/// An error of the gateway's own.
pub open spec fn own_error(message: Seq<char>) -> JsonModel {
    JsonModel::Object(
        map![
            "message"@ => JsonModel::Text(message),
            "type"@ => JsonModel::Text("gproxy_error"@),
        ],
    )
}

/// A body that holds an error of the gateway's own.
pub open spec fn own_error_body(message: Seq<char>) -> JsonModel {
    JsonModel::Object(map!["error"@ => own_error(message)])
}

/// The message that says an error of the gateway's own.
pub open spec fn own_frame(status: u16, message: Seq<char>) -> JsonModel {
    JsonModel::Object(
        map![
            "type"@ => JsonModel::Text("error"@),
            "status"@ => JsonModel::Unsigned(status as u64),
            "status_code"@ => JsonModel::Unsigned(status as u64),
            "error"@ => own_error(message),
        ],
    )
}

/// Whether a text says an error of the gateway's own, and reads as such.
pub open spec fn says_own_error(text: Seq<char>, status: u16, message: Seq<char>) -> bool {
    &&& text == json_rendered(own_frame(status, message))
    &&& json_parsed(text) == JsonResult::Ok(own_frame(status, message))
}

/// Whether an error is one of the gateway's own.
pub open spec fn is_own_error(e: WsFrameError, status: u16, message: Seq<char>) -> bool {
    &&& e.status == status
    &&& e.body@ == json_rendered(own_error_body(message))
    &&& json_parsed(e.body@) == JsonResult::Ok(own_error_body(message))
    &&& e.retry_after_secs is None
    &&& forall|name: Seq<char>| !(#[trigger] header_fields(e.headers).dom().contains(name))
}

/// The views of some strings.
pub open spec fn views(strings: Seq<String>) -> Seq<Seq<char>> {
    Seq::new(strings.len(), |i: int| strings[i]@)
}

pub(crate) proof fn lemma_is_text(v: Seq<u8>)
    ensures
        is_header_text(v) == is_text(v),
        header_text(v) == chars_of_bytes(v),
{
    assert(header_text(v) =~= chars_of_bytes(v));
}

pub(crate) proof fn lemma_last_text(values: Seq<Seq<u8>>)
    ensures
        forall|i: int| #[trigger]
            is_last_text(values, i) ==> last_text(values) == Some(chars_of_bytes(values[i])),
        last_text(values) is Some ==> exists|i: int| #[trigger] is_last_text(values, i),
    decreases values.len(),
{
    if values.len() > 0 {
        let front = values.drop_last();
        let n = front.len() as int;
        lemma_last_text(front);
        lemma_is_text(values.last());
        assert(values[n] == values.last());
        assert forall|i: int| #[trigger] is_last_text(values, i) implies last_text(values) == Some(
            chars_of_bytes(values[i]),
        ) by {
            if i < n {
                assert(!is_text(values[n]));
                assert(front[i] == values[i]);
                assert forall|j: int| i < j < front.len() implies !is_text(
                    #[trigger] front[j],
                ) by {
                    assert(front[j] == values[j]);
                }
                assert(is_last_text(front, i));
            }
        }
        if last_text(values) is Some {
            if is_text(values.last()) {
                assert(is_last_text(values, n));
            } else {
                let i = choose|i: int| #[trigger] is_last_text(front, i);
                assert(values[i] == front[i]);
                assert forall|j: int| i < j < values.len() implies !is_text(
                    #[trigger] values[j],
                ) by {
                    if j < n {
                        assert(front[j] == values[j]);
                    }
                }
                assert(is_last_text(values, i));
            }
        }
    }
}

pub(crate) proof fn lemma_numeral(n: nat)
    ensures
        is_numeral(decimal(n), n as int),
        n > 0 ==> decimal(n)[0] != '0',
    decreases n,
{
    let s = decimal(n);
    if n < 10 {
        assert(s =~= seq![digit(n)]);
        assert(s.drop_last() =~= Seq::empty());
        assert(digits_value(s.drop_last()) == 0);
    } else {
        lemma_numeral(n / 10);
        assert(s.drop_last() =~= decimal(n / 10));
        assert(s.last() == digit(n % 10));
        assert(s[0] == decimal(n / 10)[0]);
        assert forall|i: int| 0 <= i < s.len() implies '0' <= #[trigger] s[i] <= '9' by {
            if i < s.len() - 1 {
                assert(s[i] == decimal(n / 10)[i]);
            }
        }
    }
}

} // verus!
