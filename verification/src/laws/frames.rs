//! Errors, and the messages that say them.

use super::terms::{
    chars_of_bytes, is_last_text, is_numeral, is_own_error, lemma_last_text, lemma_numeral,
    own_error, own_error_body, own_frame, says_own_error,
};
use crate::headers::{header_fields, values_under, with_header_texts, HeaderFields};
use crate::json::{
    exact_json, json_members, json_model, json_parsed, json_rendered, JsonFields, JsonMembers,
    JsonModel, JsonResult,
};
use crate::responses_ws::{
    error_model, error_of_parsed, error_value, frame_headers, frame_model, gproxy_error, gproxy_error_body,
    headers_json, law_error_frame_can_be_read, law_error_frame_shape, plain_frame, plain_frame_model, PipelineFailure,
    WsFrameError,
};
use crate::text::decimal;
use http::HeaderMap;
use serde_json::Value;
use vstd::prelude::*;

verus! {

/// Whether a value is the error that a body speaks of. A body that is a JSON
/// object with a member `error`, whatever else it holds, speaks of that member.
/// Any other JSON is the message of an error, as it is rendered; and so is a
/// body that is no JSON, as it is.
pub open spec fn is_error_of(body: Seq<char>, parsed: JsonResult, error: JsonModel) -> bool {
    match parsed {
        Ok(JsonModel::Object(members)) => if members.dom().contains("error"@) {
            error == members["error"@]
        } else {
            error == own_error(json_rendered(JsonModel::Object(members)))
        },
        Ok(other) => error == own_error(json_rendered(other)),
        Err(_) => error == own_error(body),
    }
}

/// Whether members repeat the headers of an error: of each header the last value
/// that is text, and the wait before another attempt where no header of that
/// name gives it; nothing else.
pub open spec fn repeats_headers(
    members: JsonMembers,
    retry_after_secs: Option<u64>,
    fields: HeaderFields,
) -> bool {
    forall|name: Seq<char>| #[trigger]
        repeats_header(members, retry_after_secs, fields, name)
}

/// Whether members repeat one header as they have to.
pub open spec fn repeats_header(
    members: JsonMembers,
    retry_after_secs: Option<u64>,
    fields: HeaderFields,
    name: Seq<char>,
) -> bool {
    if fields.dom().contains(name) && exists|i: int| #[trigger] is_last_text(fields[name], i) {
        members.dom().contains(name) && exists|i: int| #[trigger]
            is_last_text(fields[name], i) && members[name] == JsonModel::Text(
                chars_of_bytes(fields[name][i]),
            )
    } else if name == "retry-after"@ && retry_after_secs is Some {
        members.dom().contains(name) && exists|n: Seq<char>|
            members[name] == JsonModel::Text(n) && #[trigger] is_numeral(
                n,
                retry_after_secs->0 as int,
            )
    } else {
        !members.dom().contains(name)
    }
}

/// Whether members are those of the message around an error.
pub open spec fn is_frame_around(
    members: JsonMembers,
    status: u16,
    error: JsonModel,
    retry_after_secs: Option<u64>,
    fields: HeaderFields,
) -> bool {
    &&& members.dom().contains("type"@) && members["type"@] == JsonModel::Text("error"@)
    &&& members.dom().contains("status"@) && members["status"@] == JsonModel::Unsigned(
        status as u64,
    )
    &&& members.dom().contains("status_code"@) && members["status_code"@] == JsonModel::Unsigned(
        status as u64,
    )
    &&& members.dom().contains("error"@) && members["error"@] == error
    &&& forall|k: Seq<char>| #[trigger]
        members.dom().contains(k) ==> k == "type"@ || k == "status"@ || k == "status_code"@ || k
            == "error"@ || k == "headers"@
    &&& if members.dom().contains("headers"@) {
        &&& members["headers"@] matches JsonModel::Object(head)
        &&& head != JsonMembers::empty()
        &&& repeats_headers(head, retry_after_secs, fields)
    } else {
        repeats_headers(JsonMembers::empty(), retry_after_secs, fields)
    }
}

/// Whether members are those of the message that says the error of a body.
pub open spec fn is_frame_of(
    members: JsonMembers,
    status: u16,
    body: Seq<char>,
    retry_after_secs: Option<u64>,
    fields: HeaderFields,
) -> bool {
    &&& is_frame_around(members, status, members["error"@], retry_after_secs, fields)
    &&& is_error_of(body, json_parsed(body), members["error"@])
}

/// Whether a text is the message that says an error.
pub open spec fn says_error(
    text: Seq<char>,
    status: u16,
    body: Seq<char>,
    retry_after_secs: Option<u64>,
    fields: HeaderFields,
) -> bool {
    exists|m: JsonMembers| #[trigger]
        json_rendered(JsonModel::Object(m)) == text && is_frame_of(
            m,
            status,
            body,
            retry_after_secs,
            fields,
        )
}

pub(crate) proof fn lemma_own_errors(status: u16, message: Seq<char>)
    ensures
        gproxy_error(message) == own_error(message),
        gproxy_error_body(message) == own_error_body(message),
        plain_frame_model(status, message) == own_frame(status, message),
{
    assert(gproxy_error(message)->Object_0 =~= own_error(message)->Object_0);
    assert(gproxy_error_body(message)->Object_0 =~= own_error_body(message)->Object_0);
    assert(frame_headers(None, HeaderFields::empty()) =~= JsonMembers::empty());
    assert(plain_frame_model(status, message)->Object_0 =~= own_frame(status, message)->Object_0);
}

pub(crate) proof fn lemma_error_model(body: Seq<char>, parsed: JsonResult)
    ensures
        is_error_of(body, parsed, error_model(body, parsed)),
{
    lemma_own_errors(0, body);
    if let Ok(value) = parsed {
        lemma_own_errors(0, json_rendered(value));
    }
}

proof fn lemma_repeated(base: JsonMembers, secs: Option<u64>, fields: HeaderFields)
    requires
        secs matches Some(n) ==> base == JsonMembers::empty().insert(
            "retry-after"@,
            JsonModel::Text(decimal(n as nat)),
        ),
        secs is None ==> base == JsonMembers::empty(),
    ensures
        repeats_headers(with_header_texts(base, fields), secs, fields),
{
    let head = with_header_texts(base, fields);
    assert forall|name: Seq<char>| #[trigger] repeats_header(head, secs, fields, name) by {
        lemma_last_text(values_under(fields, name));
        if fields.dom().contains(name) && exists|i: int| #[trigger]
            is_last_text(fields[name], i) {
            let i = choose|i: int| #[trigger] is_last_text(fields[name], i);
            assert(head[name] == JsonModel::Text(chars_of_bytes(fields[name][i])));
        } else if name == "retry-after"@ && secs is Some {
            lemma_numeral(secs->0 as nat);
            assert(is_numeral(decimal(secs->0 as nat), secs->0 as int));
        }
    }
}

/// An error of the gateway's own has the given status and message, and repeats
/// nothing. What is not a valid request is answered with 422.
pub proof fn law_own_error(
    status: u16,
    message: &str,
    plain: WsFrameError,
    invalid: WsFrameError,
    text: String,
)
    requires
        call_ensures(WsFrameError::plain, (status, message), plain),
        call_ensures(WsFrameError::from_transform, (message,), invalid),
        call_ensures(plain_frame, (status, message), text),
    ensures
        is_own_error(plain, status, message@),
        is_own_error(invalid, 422, message@),
        says_own_error(text@, status, message@),
{
    lemma_own_errors(status, message@);
}

/// An error of an upstream keeps its status, body and headers, and an error of
/// the pipeline its status, body and wait.
pub proof fn law_outside_errors(
    status: u16,
    body: &str,
    headers: &HeaderMap,
    upstream: WsFrameError,
    failure: PipelineFailure,
    pipeline: WsFrameError,
)
    requires
        call_ensures(WsFrameError::upstream, (status, body, headers), upstream),
        call_ensures(WsFrameError::from_pipeline, (failure,), pipeline),
    ensures
        upstream.status == status && upstream.body@ == body@ && upstream.retry_after_secs is None,
        header_fields(upstream.headers) == header_fields(*headers),
        pipeline.status == failure.status && pipeline.body@ == failure.error_json@,
        pipeline.retry_after_secs == failure.retry_after_secs,
        forall|name: Seq<char>| !(#[trigger] header_fields(pipeline.headers).dom().contains(name)),
{
}

/// The error that a body speaks of is its member `error`, whatever else the body
/// holds, or the whole body as a message where it has none.
pub proof fn law_error_value(
    body: &str,
    value: Value,
    parsed: Result<Value, String>,
    of_parsed: Value,
)
    requires
        call_ensures(error_value, (body,), value),
        call_ensures(error_of_parsed, (body, parsed), of_parsed),
    ensures
        is_error_of(body@, json_parsed(body@), json_model(value)),
        parsed matches Ok(v) ==> is_error_of(
            body@,
            JsonResult::Ok(json_model(v)),
            json_model(of_parsed),
        ),
        parsed matches Err(e) ==> json_model(of_parsed) == own_error(body@),
{
    lemma_error_model(body@, json_parsed(body@));
    match parsed {
        Ok(v) => lemma_error_model(body@, JsonResult::Ok(json_model(v))),
        Err(e) => lemma_error_model(body@, JsonResult::Err(e@)),
    }
}

/// A body that parses as an object with a member `error` is answered with just
/// that member as the error, whatever its other members are.
pub proof fn law_error_member_is_kept(e: WsFrameError, text: String, members: JsonMembers)
    requires
        call_ensures(WsFrameError::to_frame, (&e,), text),
        json_parsed(e.body@) == JsonResult::Ok(JsonModel::Object(members)),
        members.dom().contains("error"@),
    ensures
        exists|m: JsonMembers| #[trigger]
            json_rendered(JsonModel::Object(m)) == text@ && m.dom().contains("error"@)
                && m["error"@] == members["error"@],
{
    law_error_frame(e, text);
    let m = choose|m: JsonMembers| #[trigger]
        json_rendered(JsonModel::Object(m)) == text@ && is_frame_of(
            m,
            e.status,
            e.body@,
            e.retry_after_secs,
            header_fields(e.headers),
        );
    assert(json_rendered(JsonModel::Object(m)) == text@);
}

/// The text for an error is the JSON object that says so: of type `error`, with
/// the status twice, the error that the body speaks of, and the headers that are
/// repeated where there are any.
pub proof fn law_error_frame(e: WsFrameError, text: String)
    requires
        call_ensures(WsFrameError::to_frame, (&e,), text),
    ensures
        says_error(
            text@,
            e.status,
            e.body@,
            e.retry_after_secs,
            header_fields(e.headers),
        ),
{
    lemma_error_model(e.body@, json_parsed(e.body@));
    lemma_frame_says(
        e.status,
        e.body@,
        error_model(e.body@, json_parsed(e.body@)),
        e.retry_after_secs,
        header_fields(e.headers),
    );
}

/// The text for an error reads as the object that it says, whenever the error in
/// it can be read back.
pub proof fn law_error_frame_reads(e: WsFrameError, text: String)
    requires
        call_ensures(WsFrameError::to_frame, (&e,), text),
        header_fields(e.headers).dom().finite(),
        !header_fields(e.headers).dom().contains("$serde_json::private::RawValue"@),
    ensures
        exists|m: JsonMembers| #[trigger]
            json_rendered(JsonModel::Object(m)) == text@ && is_frame_of(
                m,
                e.status,
                e.body@,
                e.retry_after_secs,
                header_fields(e.headers),
            ) && (exact_json(m["error"@], 126) ==> json_parsed(text@) == JsonResult::Ok(
                JsonModel::Object(m),
            )),
{
    let error = error_model(e.body@, json_parsed(e.body@));
    let fields = header_fields(e.headers);
    lemma_error_model(e.body@, json_parsed(e.body@));
    lemma_frame_around(e.status, error, e.retry_after_secs, fields);
    let m = e.model()->Object_0;
    if exact_json(error, 126) {
        law_error_frame_can_be_read(e.status, error, e.retry_after_secs, fields);
    }
    assert(json_rendered(JsonModel::Object(m)) == text@);
}

/// The model of a message is put around its error.
proof fn lemma_frame_around(
    status: u16,
    error: JsonModel,
    secs: Option<u64>,
    fields: HeaderFields,
)
    ensures
        frame_model(status, error, secs, fields) is Object,
        is_frame_around(
            frame_model(status, error, secs, fields)->Object_0,
            status,
            error,
            secs,
            fields,
        ),
{
    law_error_frame_shape(status, error, secs, fields);
    match secs {
        Some(n) => lemma_repeated(
            JsonMembers::empty().insert("retry-after"@, JsonModel::Text(decimal(n as nat))),
            secs,
            fields,
        ),
        None => lemma_repeated(JsonMembers::empty(), secs, fields),
    }
}

/// The model of an error's message says the error.
pub(crate) proof fn lemma_frame_says(
    status: u16,
    body: Seq<char>,
    error: JsonModel,
    secs: Option<u64>,
    fields: HeaderFields,
)
    requires
        is_error_of(body, json_parsed(body), error),
    ensures
        says_error(
            json_rendered(frame_model(status, error, secs, fields)),
            status,
            body,
            secs,
            fields,
        ),
{
    let model = frame_model(status, error, secs, fields);
    lemma_frame_around(status, error, secs, fields);
    let m = model->Object_0;
    assert(is_frame_of(m, status, body, secs, fields));
    assert(json_rendered(JsonModel::Object(m)) == json_rendered(model));
}

/// The same message is put around any error that has been read out already.
pub proof fn law_error_frame_with(e: WsFrameError, error: Value, text: String)
    requires
        call_ensures(WsFrameError::frame_with, (&e, error), text),
    ensures
        exists|m: JsonMembers| #[trigger]
            json_rendered(JsonModel::Object(m)) == text@ && is_frame_around(
                m,
                e.status,
                json_model(error),
                e.retry_after_secs,
                header_fields(e.headers),
            ),
{
    let fields = header_fields(e.headers);
    let model = frame_model(e.status, json_model(error), e.retry_after_secs, fields);
    lemma_frame_around(e.status, json_model(error), e.retry_after_secs, fields);
    let m = model->Object_0;
    assert(json_rendered(JsonModel::Object(m)) == text@);
}

/// Headers as JSON hold of each header the last value that is text, and nothing
/// else.
pub proof fn law_headers_json(headers: &HeaderMap, r: JsonFields)
    requires
        call_ensures(headers_json, (headers,), r),
    ensures
        repeats_headers(json_members(r), None, header_fields(*headers)),
{
    lemma_repeated(JsonMembers::empty(), None, header_fields(*headers));
}

} // verus!
