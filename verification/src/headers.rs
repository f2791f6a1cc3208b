//! HTTP header maps of the `http` crate, seen through a mathematical model.
//!
//! A `http::HeaderMap` is opaque to the verifier. [`header_fields`] names what
//! a map holds: for each name its values, in the order in which they were
//! added. The functions below say what each call does to it.

use crate::json::{json_members, json_text, put_field, JsonFields, JsonMembers, JsonModel};
use crate::text::{chars_of, string_from_utf8};
use http::header::{HeaderName, HeaderValue};
use http::HeaderMap;
use vstd::prelude::*;
use vstd::string::StringSliceAdditionalSpecFns;

verus! {

/// Header values by name.
pub type HeaderFields = Map<Seq<char>, Seq<Seq<u8>>>;

/// Headers as a list of names and values.
pub type HeaderItems = Seq<(Seq<char>, Seq<u8>)>;

/// The name of the header that carries a request's correlation id.
pub const REQUEST_ID_HEADER: &'static str = "x-gproxy-request-id";

/// A header map of at most this many names always has room for one more.
pub open spec fn header_room() -> nat {
    6553
}

/// Whether a map with these headers certainly takes `more` further names.
pub open spec fn has_room(fields: HeaderFields, more: nat) -> bool {
    fields.dom().len() + more <= header_room() + 1
}

/// The characters of an HTTP token, letters in lower case only.
pub open spec fn lower_token_char(c: char) -> bool {
    ||| 'a' <= c <= 'z'
    ||| '0' <= c <= '9'
    ||| c == '!'
    ||| '#' <= c <= '\''
    ||| c == '*'
    ||| c == '+'
    ||| c == '-'
    ||| c == '.'
    ||| c == '^'
    ||| c == '_'
    ||| c == '`'
    ||| c == '|'
    ||| c == '~'
}

/// The characters of an HTTP token.
pub open spec fn token_char(c: char) -> bool {
    lower_token_char(c) || 'A' <= c <= 'Z'
}

/// An ASCII letter in lower case; every other character as it is.
pub open spec fn lower_char(c: char) -> char {
    if 'A' <= c <= 'Z' {
        (c as u32 + 32) as char
    } else {
        c
    }
}

/// Whether a text is a header name as a header map keeps it.
pub open spec fn is_header_name(name: Seq<char>) -> bool {
    1 <= name.len() <= 65535 && forall|i: int|
        0 <= i < name.len() ==> lower_token_char(#[trigger] name[i])
}

/// The header name that a text stands for: a token, in lower case.
pub open spec fn parsed_header_name(s: Seq<char>) -> Option<Seq<char>> {
    if 1 <= s.len() <= 65535 && forall|i: int| 0 <= i < s.len() ==> token_char(#[trigger] s[i]) {
        Some(s.map_values(|c: char| lower_char(c)))
    } else {
        None
    }
}

/// Whether a run of bytes may be a header's value: no control characters but
/// the tab.
pub open spec fn is_header_value(v: Seq<u8>) -> bool {
    forall|i: int| 0 <= i < v.len() ==> (#[trigger] v[i] >= 32 && v[i] != 127) || v[i] == 9
}

/// Whether a header's value is text: visible ASCII characters, spaces and tabs.
pub open spec fn is_header_text(v: Seq<u8>) -> bool {
    forall|i: int| 0 <= i < v.len() ==> 32 <= #[trigger] v[i] < 127 || v[i] == 9
}

/// The characters of a header value that is text.
pub open spec fn header_text(v: Seq<u8>) -> Seq<char> {
    v.map_values(|b: u8| b as char)
}

/// The values of a header, none where there is no such header.
pub open spec fn values_under(fields: HeaderFields, name: Seq<char>) -> Seq<Seq<u8>> {
    if fields.dom().contains(name) {
        fields[name]
    } else {
        Seq::empty()
    }
}

/// The first value of a header.
pub open spec fn leading_value(fields: HeaderFields, name: Seq<char>) -> Option<Seq<u8>> {
    if fields.dom().contains(name) {
        Some(fields[name][0])
    } else {
        None
    }
}

/// The values that a list gives a name, in the order of the list.
pub open spec fn values_of(items: HeaderItems, name: Seq<char>) -> Seq<Seq<u8>>
    decreases items.len(),
{
    if items.len() == 0 {
        Seq::empty()
    } else if items.last().0 == name {
        values_of(items.drop_last(), name).push(items.last().1)
    } else {
        values_of(items.drop_last(), name)
    }
}

/// The last of some values that is text.
pub open spec fn last_text(values: Seq<Seq<u8>>) -> Option<Seq<char>>
    decreases values.len(),
{
    if values.len() == 0 {
        None
    } else if is_header_text(values.last()) {
        Some(header_text(values.last()))
    } else {
        last_text(values.drop_last())
    }
}

/// Those of some values that are text.
pub open spec fn all_texts(values: Seq<Seq<u8>>) -> Seq<Seq<char>>
    decreases values.len(),
{
    if values.len() == 0 {
        Seq::empty()
    } else if is_header_text(values.last()) {
        all_texts(values.drop_last()).push(header_text(values.last()))
    } else {
        all_texts(values.drop_last())
    }
}

/// The texts that a list of pairs gives a name, in the order of the list.
pub open spec fn texts_of(pairs: Seq<(Seq<char>, Seq<char>)>, name: Seq<char>) -> Seq<Seq<char>>
    decreases pairs.len(),
{
    if pairs.len() == 0 {
        Seq::empty()
    } else if pairs.last().0 == name {
        texts_of(pairs.drop_last(), name).push(pairs.last().1)
    } else {
        texts_of(pairs.drop_last(), name)
    }
}

/// The JSON members `base`, with each header that has a text value set to the
/// last such value.
pub open spec fn with_header_texts(base: JsonMembers, fields: HeaderFields) -> JsonMembers {
    Map::new(
        |n: Seq<char>| base.dom().contains(n) || last_text(values_under(fields, n)) is Some,
        |n: Seq<char>|
            match last_text(values_under(fields, n)) {
                Some(t) => JsonModel::Text(t),
                None => base[n],
            },
    )
}

/// The views of a list of names and values.
pub open spec fn item_views(items: Seq<(String, Vec<u8>)>) -> HeaderItems {
    items.map_values(|p: (String, Vec<u8>)| (p.0@, p.1@))
}

/// The views of a list of pairs of strings.
pub open spec fn pair_views(pairs: Seq<(String, String)>) -> Seq<(Seq<char>, Seq<char>)> {
    pairs.map_values(|p: (String, String)| (p.0@, p.1@))
}

#[verifier::external_type_specification]
#[verifier::external_body]
#[verifier::reject_recursive_types(T)]
pub struct ExHeaderMap<T>(http::HeaderMap<T>);

#[verifier::external_type_specification]
#[verifier::external_body]
pub struct ExHeaderValue(http::header::HeaderValue);

/// What a header map holds.
pub uninterp spec fn header_fields(h: HeaderMap) -> HeaderFields;

/// `HeaderMap::new`: no headers.
#[verifier::external_body]
pub(crate) fn no_headers() -> (r: HeaderMap)
    ensures
        header_fields(r) == HeaderFields::empty(),
{
    HeaderMap::new()
}

/// `HeaderMap::clone`: a map with the same headers.
#[verifier::external_body]
pub(crate) fn copy_headers(h: &HeaderMap) -> (r: HeaderMap)
    ensures
        header_fields(r) == header_fields(*h),
        header_fields(r).dom().finite(),
{
    h.clone()
}

/// `HeaderMap::get`: the first value of a header.
#[verifier::external_body]
pub(crate) fn first_value(h: &HeaderMap, name: &str) -> (r: Option<Vec<u8>>)
    requires
        is_header_name(name@),
    ensures
        match r {
            Some(v) => leading_value(header_fields(*h), name@) == Some(v@)
                && header_fields(*h)[name@].len() > 0,
            None => leading_value(header_fields(*h), name@) is None,
        },
{
    h.get(name).map(|v| v.as_bytes().to_vec())
}

/// `HeaderMap::keys_len`: how many names a map holds.
#[verifier::external_body]
fn name_count(h: &HeaderMap) -> (r: usize)
    ensures
        r == header_fields(*h).dom().len(),
{
    h.keys_len()
}

/// `HeaderMap::try_insert`, behind `HeaderName::from_bytes` and
/// `HeaderValue::from_str`, which take whatever `requires` admits: sets a header
/// to one value in place of those it had, and says whether there was room. A map never runs out of room while it
/// holds no more than [`header_room`] names.
#[verifier::external_body]
pub(crate) fn set_header(h: &mut HeaderMap, name: &str, value: &str) -> (r: bool)
    requires
        is_header_name(name@),
        is_header_value(value.spec_bytes()),
    ensures
        r ==> header_fields(*final(h)) == header_fields(*old(h)).insert(
            name@,
            seq![value.spec_bytes()],
        ),
        !r ==> header_fields(*final(h)) == header_fields(*old(h)),
        has_room(header_fields(*old(h)), 1) ==> r,
{
    let key = HeaderName::from_bytes(name.as_bytes()).unwrap();
    h.try_insert(key, HeaderValue::from_str(value).unwrap()).is_ok()
}

/// `HeaderMap::try_append`, behind `HeaderName::from_bytes` and
/// `HeaderValue::from_str`, which take whatever `requires` admits: adds a value
/// behind those that a header has, and says whether there was room. A map never runs out of room while it holds no
/// more than [`header_room`] names.
#[verifier::external_body]
pub(crate) fn add_header(h: &mut HeaderMap, name: &str, value: &str) -> (r: bool)
    requires
        is_header_name(name@),
        is_header_value(value.spec_bytes()),
    ensures
        r ==> header_fields(*final(h)) == header_fields(*old(h)).insert(
            name@,
            values_under(header_fields(*old(h)), name@).push(value.spec_bytes()),
        ),
        !r ==> header_fields(*final(h)) == header_fields(*old(h)),
        has_room(header_fields(*old(h)), 1) ==> r,
{
    let key = HeaderName::from_bytes(name.as_bytes()).unwrap();
    h.try_append(key, HeaderValue::from_str(value).unwrap()).is_ok()
}

/// `HeaderMap::remove`: drops a header with all its values.
#[verifier::external_body]
pub(crate) fn drop_header(h: &mut HeaderMap, name: &str)
    requires
        is_header_name(name@),
    ensures
        header_fields(*final(h)) == header_fields(*old(h)).remove(name@),
{
    h.remove(name);
}

/// `HeaderMap::iter`: every name with every value. The names come in an
/// arbitrary order; the values of one name come in the order in which they
/// were added.
#[verifier::external_body]
pub(crate) fn header_items(h: &HeaderMap) -> (r: Vec<(String, Vec<u8>)>)
    ensures
        forall|name: Seq<char>| #[trigger]
            values_of(item_views(r@), name) == values_under(header_fields(*h), name),
{
    h.iter().map(|(n, v)| (n.as_str().to_owned(), v.as_bytes().to_vec())).collect()
}

/// `HeaderName::try_from(&str)`: the name in lower case where the text is a
/// token of at most 65535 characters.
#[verifier::external_body]
pub(crate) fn parse_header_name(s: &str) -> (r: Option<String>)
    ensures
        match r {
            Some(n) => parsed_header_name(s@) == Some(n@),
            None => parsed_header_name(s@) is None,
        },
{
    HeaderName::try_from(s).ok().map(|n| n.as_str().to_owned())
}

/// Whether a map certainly takes `more` further names.
pub fn check_header_room(headers: &HeaderMap, more: usize) -> (r: bool)
    ensures
        r == has_room(header_fields(*headers), more as nat),
{
    let count = name_count(headers);
    count <= 6554 && more <= 6554 - count
}

/// Whether a text is a header name as a header map keeps it.
pub fn check_header_name(s: &str) -> (r: bool)
    ensures
        r == is_header_name(s@),
{
    let v = chars_of(s);
    if v.len() == 0 || v.len() > 65535 {
        return false;
    }
    for i in 0..v.len()
        invariant
            v@ == s@,
            forall|j: int| 0 <= j < i ==> lower_token_char(#[trigger] s@[j]),
    {
        let c: char = v[i];
        let token = ('a' <= c && c <= 'z') || ('0' <= c && c <= '9') || c == '!' || ('#' <= c && c
            <= '\'') || c == '*' || c == '+' || c == '-' || c == '.' || c == '^' || c == '_' || c
            == '`' || c == '|' || c == '~';
        if !token {
            return false;
        }
    }
    true
}

/// Whether a text may be a header's value.
pub fn check_header_value(s: &str) -> (r: bool)
    ensures
        r == is_header_value(s.spec_bytes()),
{
    let v = s.as_bytes();
    for i in 0..v.len()
        invariant
            v@ == s.spec_bytes(),
            forall|j: int| 0 <= j < i ==> (#[trigger] v@[j] >= 32 && v@[j] != 127) || v@[j] == 9,
    {
        let b: u8 = v[i];
        if !((b >= 32 && b != 127) || b == 9) {
            return false;
        }
    }
    true
}

/// The name that parsing gives is one that a header map keeps.
pub proof fn lemma_parsed_header_name(s: Seq<char>)
    ensures
        parsed_header_name(s) matches Some(n) ==> is_header_name(n) && parsed_header_name(n)
            == Some(n),
{
    if let Some(n) = parsed_header_name(s) {
        assert forall|i: int| 0 <= i < n.len() implies lower_token_char(#[trigger] n[i])
            && token_char(n[i]) && lower_char(n[i]) == n[i] by {
            assert(token_char(s[i]));
            assert(n[i] == lower_char(s[i]));
        }
        assert(n.map_values(|c: char| lower_char(c)) =~= n);
    }
}

/// The text of a header value, where the value is text.
pub(crate) fn value_text(v: Vec<u8>) -> (r: Option<String>)
    ensures
        match r {
            Some(s) => is_header_text(v@) && s@ == header_text(v@),
            None => !is_header_text(v@),
        },
{
    for i in 0..v.len()
        invariant
            forall|j: int| 0 <= j < i ==> 32 <= #[trigger] v@[j] < 127 || v@[j] == 9,
    {
        let b: u8 = v[i];
        if !((32 <= b && b < 127) || b == 9) {
            return None;
        }
    }
    let ghost chars = header_text(v@);
    proof {
        assert(vstd::utf8::is_ascii_chars(chars));
        vstd::utf8::is_ascii_chars_encode_utf8(chars);
        assert(vstd::utf8::encode_utf8(chars) =~= v@);
        vstd::utf8::encode_utf8_valid_utf8(chars);
        vstd::utf8::encode_utf8_decode_utf8(chars);
    }
    string_from_utf8(v)
}

/// The list grouped by name.
spec fn grouped(items: HeaderItems) -> HeaderFields {
    Map::new(|n: Seq<char>| values_of(items, n).len() > 0, |n: Seq<char>| values_of(items, n))
}

/// Sets each header that has a text value as a JSON member, to the last such
/// value.
pub(crate) fn put_header_texts(fields: &mut JsonFields, headers: &HeaderMap)
    ensures
        json_members(*final(fields)) == with_header_texts(
            json_members(*old(fields)),
            header_fields(*headers),
        ),
{
    let items = header_items(headers);
    let ghost views = item_views(items@);
    let ghost base = json_members(*fields);
    proof {
        assert(json_members(*fields) =~= with_header_texts(base, grouped(views.take(0))));
    }
    for i in 0..items.len()
        invariant
            views == item_views(items@),
            json_members(*fields) == with_header_texts(base, grouped(views.take(i as int))),
    {
        let (name, value) = &items[i];
        let ghost before = views.take(i as int);
        let ghost after = views.take(i + 1);
        proof {
            assert(after.drop_last() =~= before);
            assert(after.last() == views[i as int]);
            assert(views[i as int] == (name@, value@));
        }
        let text = value_text(value.clone());
        match text {
            Some(text) => {
                put_field(fields, name.as_str(), json_text(text.as_str()));
            },
            None => {},
        }
        proof {
            assert forall|n: Seq<char>| #[trigger] last_text(values_under(grouped(after), n))
                == (if n == name@ && is_header_text(value@) {
                Some(header_text(value@))
            } else {
                last_text(values_under(grouped(before), n))
            }) by {
                let a = values_of(after, n);
                let b = values_of(before, n);
                assert(values_under(grouped(after), n) =~= a);
                assert(values_under(grouped(before), n) =~= b);
                if n == name@ {
                    assert(a =~= b.push(value@));
                    assert(a.drop_last() =~= b);
                }
            }
            assert(json_members(*fields) =~= with_header_texts(base, grouped(after)));
        }
    }
    proof {
        assert(views.take(views.len() as int) =~= views);
        assert forall|n: Seq<char>| #[trigger] values_under(grouped(views), n) == values_under(
            header_fields(*headers),
            n,
        ) by {
            assert(values_under(grouped(views), n) =~= values_of(views, n));
        }
        assert(with_header_texts(base, grouped(views)) =~= with_header_texts(
            base,
            header_fields(*headers),
        ));
    }
}

/// The headers whose values are text, as pairs of strings. The names come in an
/// arbitrary order; the values of one name come in the order in which they were
/// added.
pub fn text_headers(headers: &HeaderMap) -> (r: Vec<(String, String)>)
    ensures
        forall|name: Seq<char>| #[trigger]
            texts_of(pair_views(r@), name) == all_texts(
                values_under(header_fields(*headers), name),
            ),
{
    let items = header_items(headers);
    let ghost views = item_views(items@);
    let mut out: Vec<(String, String)> = Vec::new();
    for i in 0..items.len()
        invariant
            views == item_views(items@),
            forall|name: Seq<char>| #[trigger]
                texts_of(pair_views(out@), name) == all_texts(
                    values_of(views.take(i as int), name),
                ),
    {
        let (name, value) = &items[i];
        let ghost before = views.take(i as int);
        let ghost after = views.take(i + 1);
        let ghost prior = pair_views(out@);
        proof {
            assert(after.drop_last() =~= before);
            assert(after.last() == views[i as int]);
            assert(views[i as int] == (name@, value@));
        }
        let text = value_text(value.clone());
        match text {
            Some(text) => {
                let ghost t = text@;
                out.push((name.clone(), text));
                proof {
                    let now = pair_views(out@);
                    assert(now.drop_last() =~= prior);
                    assert(now.last() == (name@, t));
                }
            },
            None => {},
        }
        proof {
            assert forall|n: Seq<char>| #[trigger] texts_of(pair_views(out@), n) == all_texts(
                values_of(after, n),
            ) by {
                let a = values_of(after, n);
                let b = values_of(before, n);
                assert(texts_of(prior, n) == all_texts(b));
                if n == name@ {
                    assert(a =~= b.push(value@));
                    assert(a.drop_last() =~= b);
                }
            }
        }
    }
    proof {
        assert(views.take(views.len() as int) =~= views);
        assert forall|n: Seq<char>| #[trigger] texts_of(pair_views(out@), n) == all_texts(
            values_under(header_fields(*headers), n),
        ) by {
            assert(values_of(views, n) == values_under(header_fields(*headers), n));
        }
    }
    out
}

/// What became of a response that was to carry a correlation id.
#[derive(Clone, Copy, PartialEq, Eq, Debug, Structural)]
pub enum RequestIdStamp {
    /// The response carried one already and is unchanged.
    Kept,
    /// The response carries the given one now.
    Added,
    /// The response is unchanged: its header map takes no further name.
    NoRoom,
}

/// Gives response headers a correlation id in place of any they carry, and says
/// whether there was room.
pub fn insert_request_id(headers: &mut HeaderMap, request_id: &str) -> (r: bool)
    requires
        is_header_value(request_id.spec_bytes()),
    ensures
        r ==> header_fields(*final(headers)) == header_fields(*old(headers)).insert(
            REQUEST_ID_HEADER@,
            seq![request_id.spec_bytes()],
        ),
        !r ==> header_fields(*final(headers)) == header_fields(*old(headers)),
        has_room(header_fields(*old(headers)), 1) ==> r,
        header_fields(*old(headers)).dom().len() <= 6553 ==> r,
        r ==> header_fields(*final(headers)) == header_fields(*old(headers)).insert(
            "x-gproxy-request-id"@,
            seq![request_id.spec_bytes()],
        ),
{
    proof {
        lemma_request_id_header();
    }
    set_header(headers, REQUEST_ID_HEADER, request_id)
}

/// Gives response headers a correlation id unless they carry one.
pub fn stamp_request_id(headers: &mut HeaderMap, request_id: &str) -> (r: RequestIdStamp)
    requires
        is_header_value(request_id.spec_bytes()),
    ensures
        r is Kept <==> header_fields(*old(headers)).dom().contains(REQUEST_ID_HEADER@),
        !(r is Added) ==> header_fields(*final(headers)) == header_fields(*old(headers)),
        r is Added ==> header_fields(*final(headers)) == header_fields(*old(headers)).insert(
            REQUEST_ID_HEADER@,
            seq![request_id.spec_bytes()],
        ),
        r is NoRoom ==> !has_room(header_fields(*old(headers)), 1),
        !(r is NoRoom) ==> header_fields(*final(headers)).dom().contains(REQUEST_ID_HEADER@),
        header_fields(*old(headers)).dom().len() <= 6553 ==> !(r is NoRoom),
        r is Kept <==> header_fields(*old(headers)).dom().contains("x-gproxy-request-id"@),
        r is Added ==> header_fields(*final(headers)) == header_fields(*old(headers)).insert(
            "x-gproxy-request-id"@,
            seq![request_id.spec_bytes()],
        ),
{
    proof {
        lemma_request_id_header();
    }
    if first_value(headers, REQUEST_ID_HEADER).is_some() {
        RequestIdStamp::Kept
    } else if insert_request_id(headers, request_id) {
        RequestIdStamp::Added
    } else {
        RequestIdStamp::NoRoom
    }
}

proof fn lemma_request_id_header()
    ensures
        is_header_name(REQUEST_ID_HEADER@),
{
    reveal_strlit("x-gproxy-request-id");
}

} // verus!
