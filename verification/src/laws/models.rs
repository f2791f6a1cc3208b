//! What the terms mean in which the calls into other crates are described.

use super::edges::{in_lower_case, names_header};
use crate::edge::uri_view;
use crate::extract::RequestUri;
use crate::headers::{
    has_room, header_text, is_header_name, is_header_text, is_header_value, item_views,
    leading_value, lower_token_char, parsed_header_name, values_of, values_under, HeaderFields,
    HeaderItems,
};
use crate::json::{exact_json, json_depth, member, number_of, raw_value_key, text_of, JsonModel};
use vstd::prelude::*;

verus! {

/// A list gives a name just the values of its items of that name, in order.
pub proof fn law_values_of(items: HeaderItems, item: (Seq<char>, Seq<u8>), name: Seq<char>)
    ensures
        values_of(Seq::empty(), name) == Seq::<Seq<u8>>::empty(),
        item.0 == name ==> values_of(items.push(item), name) == values_of(items, name).push(item.1),
        item.0 != name ==> values_of(items.push(item), name) == values_of(items, name),
{
    assert(items.push(item).drop_last() =~= items);
}

/// The items of a list are its pairs, one by one.
pub proof fn law_item_views(items: Seq<(String, Vec<u8>)>, i: int)
    requires
        0 <= i < items.len(),
    ensures
        item_views(items).len() == items.len(),
        item_views(items)[i] == (items[i].0@, items[i].1@),
{
}

/// The values of a header are those that the map holds under its name, and none
/// where there is no such header.
pub proof fn law_values_under(fields: HeaderFields, name: Seq<char>)
    ensures
        fields.dom().contains(name) ==> values_under(fields, name) == fields[name]
            && leading_value(fields, name) == Some(fields[name][0]),
        !fields.dom().contains(name) ==> values_under(fields, name).len() == 0 && leading_value(
            fields,
            name,
        ) is None,
{
}

/// A map has room for further names as long as there are at most 6554 in all.
pub proof fn law_room(fields: HeaderFields, more: nat)
    ensures
        has_room(fields, more) <==> fields.dom().len() + more <= 6554,
{
}

/// A text stands for the header of its own letters in lower case where it is a
/// token of at most 65535 characters, and for none where it is not.
pub proof fn law_parsed_header_name(s: Seq<char>)
    ensures
        names_header(s) ==> parsed_header_name(s) == Some(in_lower_case(s)),
        !names_header(s) ==> parsed_header_name(s) is None,
        is_header_name(s) <==> names_header(s) && in_lower_case(s) == s,
{
    super::edges::lemma_names_header(s);
    let low = in_lower_case(s);
    if is_header_name(s) {
        assert forall|i: int| 0 <= i < s.len() implies super::edges::is_token_char(#[trigger] s[i])
            && low[i] == s[i] by {
            assert(lower_token_char(s[i]));
        }
        assert(low =~= s);
    }
    if names_header(s) && low == s {
        assert forall|i: int| 0 <= i < s.len() implies lower_token_char(#[trigger] s[i]) by {
            assert(super::edges::is_token_char(s[i]));
            assert(low[i] == s[i]);
        }
    }
}

/// A value is what holds no control characters but the tab, and text what is
/// ASCII besides.
pub proof fn law_header_values(v: Seq<u8>)
    ensures
        is_header_value(v) <==> forall|i: int|
            0 <= i < v.len() ==> #[trigger] v[i] == 9 || (v[i] >= 32 && v[i] != 127),
        is_header_text(v) <==> forall|i: int|
            0 <= i < v.len() ==> #[trigger] v[i] == 9 || (32 <= v[i] && v[i] <= 126),
        header_text(v).len() == v.len(),
        forall|i: int| 0 <= i < v.len() ==> #[trigger] header_text(v)[i] == v[i] as char,
{
}

/// A JSON value has a member just where it is an object that holds one of that
/// name, is text just where it is a string, and a number just where it is an
/// unsigned one.
pub proof fn law_json_terms(m: JsonModel, key: Seq<char>)
    ensures
        m matches JsonModel::Object(f) ==> f.dom().contains(key) ==> member(m, key) == Some(f[key]),
        m matches JsonModel::Object(f) ==> !f.dom().contains(key) ==> member(m, key) is None,
        !(m is Object) ==> member(m, key) is None,
        m matches JsonModel::Text(s) ==> text_of(m) == Some(s),
        !(m is Text) ==> text_of(m) is None,
        m matches JsonModel::Unsigned(n) ==> number_of(m) == Some(n),
        !(m is Unsigned) ==> number_of(m) is None,
{
}

/// Rendering and parsing a value loses nothing where it nests no deeper than 127
/// and holds, at any depth, neither a fractional number nor a member of the one
/// name that a parse gives a meaning of its own.
pub proof fn law_exact_json(m: JsonModel, depth: nat)
    ensures
        json_depth() == 127,
        raw_value_key() == "$serde_json::private::RawValue"@,
        m is Null || m is Bool || m is Unsigned || m is Text ==> exact_json(m, depth),
        m is Float ==> !exact_json(m, depth),
        m matches JsonModel::Negative(n) ==> (exact_json(m, depth) <==> n < 0),
        m matches JsonModel::Array(items) ==> (exact_json(m, depth) <==> depth > 0 && forall|i: int|
            0 <= i < items.len() ==> exact_json(#[trigger] items[i], (depth - 1) as nat)),
        m matches JsonModel::Object(f) ==> (exact_json(m, depth) <==> depth > 0 && f.dom().finite()
            && !f.dom().contains("$serde_json::private::RawValue"@) && forall|k: Seq<char>|
            f.dom().contains(k) ==> exact_json(#[trigger] f[k], (depth - 1) as nat)),
{
    if let JsonModel::Object(f) = m {
        let key = "$serde_json::private::RawValue"@;
        if exact_json(m, depth) && f.dom().contains(key) {
            assert(exact_json(f[key], (depth - 1) as nat));
        }
        if depth > 0 && f.dom().finite() && !f.dom().contains(key) && forall|k: Seq<char>|
            f.dom().contains(k) ==> exact_json(#[trigger] f[k], (depth - 1) as nat) {
            assert forall|k: Seq<char>| f.dom().contains(k) implies k != raw_value_key()
                && exact_json(#[trigger] f[k], (depth - 1) as nat) by {
                assert(exact_json(f[k], (depth - 1) as nat));
            }
        }
    }
}

/// The view of a target is its path and its query.
pub proof fn law_uri_view(uri: RequestUri)
    ensures
        uri_view(uri).0 == uri.path@,
        uri.query matches Some(q) ==> uri_view(uri).1 == Some(q@),
        uri.query is None ==> uri_view(uri).1 is None,
{
}

} // verus!
