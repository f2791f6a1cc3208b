//! What can stand in a header, how many headers fit, and how they are changed.

use super::edges::{is_token, is_value};
use crate::headers::{
    check_header_name, check_header_room, check_header_value, header_fields, insert_request_id,
    lower_token_char, stamp_request_id, RequestIdStamp, REQUEST_ID_HEADER,
};
use crate::responses_ws::strip_websocket_upgrade_headers;
use http::HeaderMap;
use vstd::prelude::*;
use vstd::utf8::encode_utf8;

verus! {

/// A text is a header's name as it is kept just where it is a token of at most
/// 65535 characters without upper-case letters, and it can be a header's value
/// just where it holds no control characters but the tab.
pub proof fn law_header_checks(s: &str, name: bool, value: bool)
    requires
        call_ensures(check_header_name, (s,), name),
        call_ensures(check_header_value, (s,), value),
    ensures
        name <==> is_token(s@) && s@.len() <= 65535 && forall|i: int|
            0 <= i < s@.len() ==> !('A' <= #[trigger] s@[i] <= 'Z'),
        value == is_value(s@),
{
    if name {
        assert forall|i: int| 0 <= i < s@.len() implies super::edges::is_token_char(
            #[trigger] s@[i],
        ) && !('A' <= s@[i] <= 'Z') by {
            assert(lower_token_char(s@[i]));
        }
    }
    if is_token(s@) && s@.len() <= 65535 && forall|i: int|
        0 <= i < s@.len() ==> !('A' <= #[trigger] s@[i] <= 'Z') {
        assert forall|i: int| 0 <= i < s@.len() implies lower_token_char(#[trigger] s@[i]) by {
            assert(super::edges::is_token_char(s@[i]));
        }
    }
}

/// A header map certainly takes further names as long as there are no more than
/// 6554 in all.
pub proof fn law_header_room(headers: &HeaderMap, more: usize, r: bool)
    requires
        call_ensures(check_header_room, (headers, more), r),
    ensures
        r <==> header_fields(*headers).dom().len() + more <= 6554,
{
}

/// The correlation id has one name.
pub proof fn law_request_id_name()
    ensures
        REQUEST_ID_HEADER@ == "x-gproxy-request-id"@,
{
}

/// Whether a header map is another but for a single correlation id.
pub open spec fn only_id_is_set(before: HeaderMap, after: HeaderMap, id: Seq<char>) -> bool {
    header_fields(after) == header_fields(before).insert(
        "x-gproxy-request-id"@,
        seq![encode_utf8(id)],
    )
}

/// A correlation id is set in place of any other, and nothing else changes. It
/// always is where there are at most 6553 names.
pub proof fn law_inserted_request_id(headers: &mut HeaderMap, request_id: &str, r: bool)
    requires
        call_ensures(insert_request_id, (headers, request_id), r),
    ensures
        r ==> only_id_is_set(*old(headers), *final(headers), request_id@),
        !r ==> header_fields(*final(headers)) == header_fields(*old(headers)),
        header_fields(*old(headers)).dom().len() <= 6553 ==> r,
{
}

/// A response that carries a correlation id is left as it is, and any other is
/// given one, unless it has more than 6553 names and there is no room.
pub proof fn law_stamped_request_id(
    headers: &mut HeaderMap,
    request_id: &str,
    r: RequestIdStamp,
)
    requires
        call_ensures(stamp_request_id, (headers, request_id), r),
    ensures
        ({
            let before = header_fields(*old(headers));
            let after = header_fields(*final(headers));
            &&& before.dom().contains("x-gproxy-request-id"@) ==> r is Kept && after == before
            &&& !before.dom().contains("x-gproxy-request-id"@) ==> (r is Added && only_id_is_set(
                *old(headers),
                *final(headers),
                request_id@,
            )) || (r is NoRoom && after == before && before.dom().len() > 6553)
        }),
{
}

/// Stripping removes the seven headers of the handshake, and keeps every other
/// with all its values.
pub proof fn law_stripped_headers(headers: &mut HeaderMap, name: Seq<char>)
    requires
        call_ensures(strip_websocket_upgrade_headers, (headers,), ()),
    ensures
        ({
            let before = header_fields(*old(headers));
            let after = header_fields(*final(headers));
            if name == "connection"@ || name == "upgrade"@ || name == "sec-websocket-accept"@
                || name == "sec-websocket-extensions"@ || name == "sec-websocket-key"@ || name
                == "sec-websocket-protocol"@ || name == "sec-websocket-version"@ {
                !after.dom().contains(name)
            } else {
                &&& after.dom().contains(name) <==> before.dom().contains(name)
                &&& before.dom().contains(name) ==> after[name] == before[name]
            }
        }),
{
}

} // verus!
