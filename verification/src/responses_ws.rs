//! The bridge between a Responses WebSocket client and the HTTP pipeline.
//!
//! Each inbound text frame becomes an internal streaming `POST` request, and
//! what the pipeline answers goes back as JSON text messages. An error becomes
//! one message of type `error`.

use crate::extract::{
    build_ctx_with_request_id, is_provider_name, is_routed, provider_and_rest, split_provider,
    RequestCtx, RequestParts, RequestUri, RoutingMode,
};
use crate::fold::{joined, law_failed_piece_ends, lemma_joined_push};
use crate::headers::{
    copy_headers, drop_header, has_room, header_fields, is_header_name, is_header_value, no_headers,
    put_header_texts, set_header, with_header_texts, HeaderFields,
};
use crate::json::{
    exact_json, is_without_fields, json_depth, json_member, json_members, json_model, json_number,
    json_object, json_parsed, json_parsed_bytes, json_rendered, json_text, member, no_fields,
    parse_json, parse_json_bytes, put_field, raw_value_key, render_json, JsonMembers, JsonModel, JsonResult,
};
use crate::text::{decimal, decimal_text, lossy_string, lossy_text, same_text};
use http::HeaderMap;
use serde_json::Value;
use vstd::prelude::*;
use vstd::utf8::encode_utf8;

verus! {

/// The target and the headers of the request that opened a WebSocket.
pub struct ResponsesWsRequestBase {
    pub uri: RequestUri,
    pub headers: HeaderMap,
}

/// A header map that takes no further name.
#[derive(Clone, Copy, PartialEq, Eq, Debug, Structural)]
pub struct HeadersFull;

/// The provider in a path of the form `/{provider}/v1/responses`.
pub open spec fn websocket_provider(path: Seq<char>) -> Option<Seq<char>> {
    match provider_and_rest(path) {
        Some((provider, rest)) => if rest == "v1/responses"@ {
            Some(provider)
        } else {
            None
        },
        None => None,
    }
}

/// Whether a path is one that serves Responses WebSockets.
pub open spec fn is_websocket_path(path: Seq<char>) -> bool {
    path == "/v1/responses"@ || websocket_provider(path) is Some
}

/// The headers that belong to a WebSocket handshake alone.
pub open spec fn is_upgrade_header(name: Seq<char>) -> bool {
    ||| name == "connection"@
    ||| name == "upgrade"@
    ||| name == "sec-websocket-accept"@
    ||| name == "sec-websocket-extensions"@
    ||| name == "sec-websocket-key"@
    ||| name == "sec-websocket-protocol"@
    ||| name == "sec-websocket-version"@
}

/// The headers without those of a WebSocket handshake.
pub open spec fn without_upgrade(fields: HeaderFields) -> HeaderFields {
    fields.remove_keys(Set::new(|n: Seq<char>| is_upgrade_header(n)))
}

/// The headers of the internal request: those that opened the WebSocket without
/// the handshake's own, with the type of the body, the type of the answer and
/// the mark that tells the pipeline where the request comes from.
pub open spec fn internal_headers(fields: HeaderFields, mark: Seq<char>) -> HeaderFields {
    without_upgrade(fields).insert(
        "content-type"@,
        seq![encode_utf8("application/json"@)],
    ).insert("accept"@, seq![encode_utf8("text/event-stream"@)]).insert(
        mark,
        seq![encode_utf8("1"@)],
    )
}

impl ResponsesWsRequestBase {
    /// The base with the given target and headers.
    pub fn new(uri: RequestUri, headers: HeaderMap) -> (r: Self)
        ensures
            r.uri == uri,
            r.headers == headers,
    {
        ResponsesWsRequestBase { uri, headers }
    }

    /// The base of a request.
    pub fn from_parts(parts: &RequestParts) -> (r: Self)
        ensures
            r.uri == parts.uri,
            header_fields(r.headers) == header_fields(parts.headers),
    {
        Self::new(parts.uri.copy(), copy_headers(&parts.headers))
    }
}

impl Clone for ResponsesWsRequestBase {
    fn clone(&self) -> (r: Self)
        ensures
            r.uri == self.uri,
            header_fields(r.headers) == header_fields(self.headers),
    {
        Self::new(self.uri.copy(), copy_headers(&self.headers))
    }
}

/// Whether a path serves Responses WebSockets, with or without a provider.
pub fn is_responses_websocket_path(path: &str) -> (r: bool)
    ensures
        r == is_websocket_path(path@),
{
    same_text(path, "/v1/responses") || scoped_provider(path).is_some()
}

/// Whether a path serves the Responses WebSockets of one provider.
pub fn is_scoped_responses_websocket_path(path: &str) -> (r: bool)
    ensures
        r == (websocket_provider(path@) is Some),
{
    scoped_provider(path).is_some()
}

/// The provider in a path that serves the Responses WebSockets of one provider.
pub fn scoped_provider(path: &str) -> (r: Option<&str>)
    ensures
        match r {
            Some(p) => websocket_provider(path@) == Some(p@),
            None => websocket_provider(path@) is None,
        },
{
    match split_provider(path) {
        Some((provider, rest)) => {
            if same_text(rest, "v1/responses") {
                Some(provider)
            } else {
                None
            }
        },
        None => None,
    }
}

proof fn lemma_header_literals()
    ensures
        forall|n: Seq<char>| is_upgrade_header(n) ==> #[trigger] is_header_name(n),
        is_header_name("content-type"@),
        is_header_name("accept"@),
        is_header_value(encode_utf8("application/json"@)),
        is_header_value(encode_utf8("text/event-stream"@)),
        is_header_value(encode_utf8("1"@)),
{
    reveal_strlit("connection");
    reveal_strlit("upgrade");
    reveal_strlit("sec-websocket-accept");
    reveal_strlit("sec-websocket-extensions");
    reveal_strlit("sec-websocket-key");
    reveal_strlit("sec-websocket-protocol");
    reveal_strlit("sec-websocket-version");
    reveal_strlit("content-type");
    reveal_strlit("accept");
    reveal_strlit("application/json");
    reveal_strlit("text/event-stream");
    reveal_strlit("1");
    vstd::utf8::is_ascii_chars_encode_utf8("application/json"@);
    vstd::utf8::is_ascii_chars_encode_utf8("text/event-stream"@);
    vstd::utf8::is_ascii_chars_encode_utf8("1"@);
}

/// Drops the headers that belong to a WebSocket handshake alone.
pub fn strip_websocket_upgrade_headers(headers: &mut HeaderMap)
    ensures
        header_fields(*final(headers)) == without_upgrade(header_fields(*old(headers))),
        forall|name: Seq<char>| #[trigger]
            header_fields(*final(headers)).dom().contains(name) <==> header_fields(
                *old(headers),
            ).dom().contains(name) && name != "connection"@ && name != "upgrade"@ && name
                != "sec-websocket-accept"@ && name != "sec-websocket-extensions"@ && name
                != "sec-websocket-key"@ && name != "sec-websocket-protocol"@ && name
                != "sec-websocket-version"@,
        forall|name: Seq<char>| #[trigger]
            header_fields(*final(headers)).dom().contains(name) ==> header_fields(
                *final(headers),
            )[name] == header_fields(*old(headers))[name],
{
    proof {
        lemma_header_literals();
        assert(is_upgrade_header("connection"@));
        assert(is_upgrade_header("upgrade"@));
        assert(is_upgrade_header("sec-websocket-accept"@));
        assert(is_upgrade_header("sec-websocket-extensions"@));
        assert(is_upgrade_header("sec-websocket-key"@));
        assert(is_upgrade_header("sec-websocket-protocol"@));
        assert(is_upgrade_header("sec-websocket-version"@));
    }
    drop_header(headers, "connection");
    drop_header(headers, "upgrade");
    drop_header(headers, "sec-websocket-accept");
    drop_header(headers, "sec-websocket-extensions");
    drop_header(headers, "sec-websocket-key");
    drop_header(headers, "sec-websocket-protocol");
    drop_header(headers, "sec-websocket-version");
    assert(header_fields(*headers) =~= without_upgrade(header_fields(*old(headers))));
}

/// The internal request that a frame is sent on as, marked by the header
/// `mark`. It is only refused where the header map takes no further name.
pub fn internal_post_parts(base: &ResponsesWsRequestBase, mark: &str) -> (r: Result<
    RequestParts,
    HeadersFull,
>)
    requires
        is_header_name(mark@),
    ensures
        r matches Ok(parts) ==> {
            &&& parts.method@ == "POST"@
            &&& parts.uri == base.uri
            &&& header_fields(parts.headers) == internal_headers(
                header_fields(base.headers),
                mark@,
            )
        },
        has_room(without_upgrade(header_fields(base.headers)), 3) ==> r is Ok,
        has_room(header_fields(base.headers), 3) ==> r is Ok,
{
    proof {
        lemma_header_literals();
    }
    let mut headers = copy_headers(&base.headers);
    proof {
        let all = header_fields(headers).dom();
        let kept = without_upgrade(header_fields(headers)).dom();
        assert(kept.subset_of(all));
        vstd::set_lib::lemma_set_subset_finite(all, kept);
        vstd::set_lib::lemma_len_subset(kept, all);
    }
    strip_websocket_upgrade_headers(&mut headers);
    let stamped = set_header(&mut headers, "content-type", "application/json") && set_header(
        &mut headers,
        "accept",
        "text/event-stream",
    ) && set_header(&mut headers, mark, "1");
    if stamped {
        Ok(RequestParts { method: "POST".to_owned(), uri: base.uri.copy(), headers })
    } else {
        Err(HeadersFull)
    }
}

/// An error that is answered with one message.
#[derive(Debug)]
pub struct WsFrameError {
    pub status: u16,
    pub body: String,
    pub retry_after_secs: Option<u64>,
    pub headers: HeaderMap,
}

/// What a pipeline error says about itself.
#[derive(Debug)]
pub struct PipelineFailure {
    pub status: u16,
    pub error_json: String,
    pub retry_after_secs: Option<u64>,
}

/// The statuses that a request succeeded with.
pub open spec fn is_success(status: u16) -> bool {
    200 <= status < 300
}

/// An error of the gateway's own, as a JSON value.
pub open spec fn gproxy_error(message: Seq<char>) -> JsonModel {
    JsonModel::Object(
        JsonMembers::empty().insert("message"@, JsonModel::Text(message)).insert(
            "type"@,
            JsonModel::Text("gproxy_error"@),
        ),
    )
}

/// A response body that carries an error of the gateway's own.
pub open spec fn gproxy_error_body(message: Seq<char>) -> JsonModel {
    JsonModel::Object(JsonMembers::empty().insert("error"@, gproxy_error(message)))
}

/// The error that a response body speaks of: its member `error`, or the whole
/// body as the message of an error.
pub open spec fn error_model(body: Seq<char>, parsed: JsonResult) -> JsonModel {
    match parsed {
        Ok(value) => match member(value, "error"@) {
            Some(error) => error,
            None => gproxy_error(json_rendered(value)),
        },
        Err(_) => gproxy_error(body),
    }
}

/// The headers that an error message repeats.
pub open spec fn frame_headers(retry_after_secs: Option<u64>, fields: HeaderFields) -> JsonMembers {
    with_header_texts(
        match retry_after_secs {
            Some(secs) => JsonMembers::empty().insert(
                "retry-after"@,
                JsonModel::Text(decimal(secs as nat)),
            ),
            None => JsonMembers::empty(),
        },
        fields,
    )
}

/// The message that an error is answered with.
pub open spec fn frame_model(
    status: u16,
    error: JsonModel,
    retry_after_secs: Option<u64>,
    fields: HeaderFields,
) -> JsonModel {
    let head = frame_headers(retry_after_secs, fields);
    let base = JsonMembers::empty().insert("type"@, JsonModel::Text("error"@)).insert(
        "status"@,
        JsonModel::Unsigned(status as u64),
    ).insert("status_code"@, JsonModel::Unsigned(status as u64)).insert("error"@, error);
    if head == JsonMembers::empty() {
        JsonModel::Object(base)
    } else {
        JsonModel::Object(base.insert("headers"@, JsonModel::Object(head)))
    }
}

/// Whether an error is one of the gateway's own with the given message.
pub open spec fn is_plain(error: WsFrameError, status: u16, message: Seq<char>) -> bool {
    &&& error.status == status
    &&& error.body@ == json_rendered(gproxy_error_body(message))
    &&& json_parsed(error.body@) == JsonResult::Ok(gproxy_error_body(message))
    &&& error.retry_after_secs is None
    &&& header_fields(error.headers) == HeaderFields::empty()
}

/// The message for an error of the gateway's own.
pub open spec fn plain_frame_model(status: u16, message: Seq<char>) -> JsonModel {
    frame_model(status, gproxy_error(message), None, HeaderFields::empty())
}

/// Whether a text is the message for an error of the gateway's own, and reads
/// as such.
pub open spec fn is_plain_frame(text: Seq<char>, status: u16, message: Seq<char>) -> bool {
    text == json_rendered(plain_frame_model(status, message)) && json_parsed(text)
        == JsonResult::Ok(plain_frame_model(status, message))
}

/// Whether a request succeeded with the given status.
pub fn succeeded(status: u16) -> (r: bool)
    ensures
        r == is_success(status),
{
    200 <= status && status < 300
}

/// An error of the gateway's own, as a JSON value.
fn gproxy_error_value(message: &str) -> (r: Value)
    ensures
        json_model(r) == gproxy_error(message@),
{
    let mut fields = no_fields();
    put_field(&mut fields, "message", json_text(message));
    put_field(&mut fields, "type", json_text("gproxy_error"));
    json_object(fields)
}

/// The error in a response body that has been parsed, or that could not be.
pub fn error_of_parsed(body: &str, parsed: Result<Value, String>) -> (r: Value)
    ensures
        json_model(r) == match parsed {
            Ok(value) => error_model(body@, JsonResult::Ok(json_model(value))),
            Err(reason) => error_model(body@, JsonResult::Err(reason@)),
        },
{
    match parsed {
        Ok(value) => match json_member(&value, "error") {
            Some(error) => error,
            None => gproxy_error_value(render_json(&value).as_str()),
        },
        Err(_) => gproxy_error_value(body),
    }
}

/// The error that a response body speaks of.
pub fn error_value(body: &str) -> (r: Value)
    ensures
        json_model(r) == error_model(body@, json_parsed(body@)),
{
    error_of_parsed(body, parse_json(body))
}

/// The headers whose values are text, as members of a JSON object.
pub fn headers_json(headers: &HeaderMap) -> (r: crate::json::JsonFields)
    ensures
        json_members(r) == with_header_texts(JsonMembers::empty(), header_fields(*headers)),
{
    let mut fields = no_fields();
    put_header_texts(&mut fields, headers);
    fields
}

proof fn lemma_plain_body_is_exact(message: Seq<char>)
    ensures
        exact_json(gproxy_error_body(message), json_depth()),
{
    reveal_with_fuel(exact_json, 3);
    lemma_frame_keys();
}

/// The names of an error message's members are ordinary ones.
proof fn lemma_frame_keys()
    ensures
        "message"@ != raw_value_key(),
        "type"@ != raw_value_key(),
        "error"@ != raw_value_key(),
        "status"@ != raw_value_key(),
        "status_code"@ != raw_value_key(),
{
    reveal_strlit("message");
    reveal_strlit("type");
    reveal_strlit("error");
    reveal_strlit("status");
    reveal_strlit("status_code");
    reveal_strlit("$serde_json::private::RawValue");
    assert(raw_value_key()[0] == '$');
    assert("message"@[0] == 'm' && "type"@[0] == 't' && "error"@[0] == 'e' && "status"@[0] == 's'
        && "status_code"@[0] == 's');
}

proof fn lemma_plain_frame_is_exact(status: u16, message: Seq<char>)
    ensures
        exact_json(plain_frame_model(status, message), json_depth()),
{
    reveal_with_fuel(exact_json, 3);
    lemma_frame_keys();
    assert(frame_headers(None, HeaderFields::empty()) =~= JsonMembers::empty());
}

impl WsFrameError {
    /// The message that the error is answered with.
    pub open spec fn model(&self) -> JsonModel {
        frame_model(
            self.status,
            error_model(self.body@, json_parsed(self.body@)),
            self.retry_after_secs,
            header_fields(self.headers),
        )
    }

    /// An error of the gateway's own.
    pub fn plain(status: u16, message: &str) -> (r: Self)
        ensures
            is_plain(r, status, message@),
    {
        let mut fields = no_fields();
        put_field(&mut fields, "error", gproxy_error_value(message));
        proof {
            lemma_plain_body_is_exact(message@);
        }
        WsFrameError {
            status,
            body: render_json(&json_object(fields)),
            retry_after_secs: None,
            headers: no_headers(),
        }
    }

    /// The error for a frame that is not a valid request.
    pub fn from_transform(reason: &str) -> (r: Self)
        ensures
            is_plain(r, 422, reason@),
    {
        Self::plain(422, reason)
    }

    /// The error for a response that an upstream did not answer with success.
    pub fn upstream(status: u16, body: &str, headers: &HeaderMap) -> (r: Self)
        ensures
            r.status == status,
            r.body@ == body@,
            r.retry_after_secs is None,
            header_fields(r.headers) == header_fields(*headers),
    {
        WsFrameError {
            status,
            body: body.to_owned(),
            retry_after_secs: None,
            headers: copy_headers(headers),
        }
    }

    /// The error for a request that the pipeline failed on.
    pub fn from_pipeline(error: PipelineFailure) -> (r: Self)
        ensures
            r.status == error.status,
            r.body == error.error_json,
            r.retry_after_secs == error.retry_after_secs,
            header_fields(r.headers) == HeaderFields::empty(),
    {
        WsFrameError {
            status: error.status,
            body: error.error_json,
            retry_after_secs: error.retry_after_secs,
            headers: no_headers(),
        }
    }

    /// The message around an error that has been read out of the body.
    pub fn frame_with(&self, error: Value) -> (r: String)
        ensures
            ({
                let model = frame_model(
                    self.status,
                    json_model(error),
                    self.retry_after_secs,
                    header_fields(self.headers),
                );
                &&& r@ == json_rendered(model)
                &&& exact_json(model, json_depth()) ==> json_parsed(r@) == JsonResult::Ok(model)
            }),
    {
        let mut head = no_fields();
        match self.retry_after_secs {
            Some(secs) => {
                put_field(&mut head, "retry-after", json_text(decimal_text(secs).as_str()));
            },
            None => {},
        }
        put_header_texts(&mut head, &self.headers);
        let mut payload = no_fields();
        put_field(&mut payload, "type", json_text("error"));
        put_field(&mut payload, "status", json_number(self.status));
        put_field(&mut payload, "status_code", json_number(self.status));
        put_field(&mut payload, "error", error);
        if !is_without_fields(&head) {
            put_field(&mut payload, "headers", json_object(head));
        }
        render_json(&json_object(payload))
    }

    /// The text of the message that the error is answered with.
    pub fn to_frame(&self) -> (r: String)
        ensures
            r@ == json_rendered(self.model()),
            exact_json(self.model(), json_depth()) ==> json_parsed(r@) == JsonResult::Ok(
                self.model(),
            ),
    {
        self.frame_with(error_value(self.body.as_str()))
    }
}

/// An error of the gateway's own is answered with its status and its message.
pub proof fn law_plain_error_frame(error: WsFrameError, status: u16, message: Seq<char>)
    requires
        is_plain(error, status, message),
    ensures
        error.model() == plain_frame_model(status, message),
        exact_json(error.model(), json_depth()),
{
    lemma_plain_frame_is_exact(status, message);
    assert(member(gproxy_error_body(message), "error"@) == Some(gproxy_error(message)));
}

/// The text of the message for an error of the gateway's own.
pub fn plain_frame(status: u16, message: &str) -> (r: String)
    ensures
        is_plain_frame(r@, status, message@),
{
    let error = WsFrameError::plain(status, message);
    proof {
        law_plain_error_frame(error, status, message@);
    }
    error.to_frame()
}

/// Every error message says that it is one, and gives the status twice and the
/// error. It repeats headers where there are any to repeat; the wait before
/// another attempt is among them unless a header of that name replaces it.
pub proof fn law_error_frame_shape(
    status: u16,
    error: JsonModel,
    retry_after_secs: Option<u64>,
    fields: HeaderFields,
)
    ensures
        ({
            let m = frame_model(status, error, retry_after_secs, fields);
            let head = frame_headers(retry_after_secs, fields);
            &&& member(m, "type"@) == Some(JsonModel::Text("error"@))
            &&& member(m, "status"@) == Some(JsonModel::Unsigned(status as u64))
            &&& member(m, "status_code"@) == Some(JsonModel::Unsigned(status as u64))
            &&& member(m, "error"@) == Some(error)
            &&& member(m, "headers"@) == if head == JsonMembers::empty() {
                None
            } else {
                Some(JsonModel::Object(head))
            }
            &&& retry_after_secs matches Some(secs) ==> crate::headers::last_text(
                crate::headers::values_under(fields, "retry-after"@),
            ) is None ==> head.dom().contains("retry-after"@) && head["retry-after"@]
                == JsonModel::Text(decimal(secs as nat))
        }),
{
    reveal_strlit("type");
    reveal_strlit("status");
    reveal_strlit("status_code");
    reveal_strlit("error");
    reveal_strlit("headers");
    assert("type"@[0] == 't' && "error"@[0] == 'e' && "headers"@[0] == 'h' && "status"@[0] == 's'
        && "status_code"@[0] == 's');
    assert("status"@.len() != "status_code"@.len());
}

/// An error message can be read back by whoever receives it, whenever the error
/// in it can be.
pub proof fn law_error_frame_can_be_read(
    status: u16,
    error: JsonModel,
    retry_after_secs: Option<u64>,
    fields: HeaderFields,
)
    requires
        exact_json(error, (json_depth() - 1) as nat),
        fields.dom().finite(),
        !fields.dom().contains(raw_value_key()),
    ensures
        exact_json(frame_model(status, error, retry_after_secs, fields), json_depth()),
{
    lemma_frame_keys();
    reveal_strlit("headers");
    reveal_strlit("retry-after");
    reveal_strlit("$serde_json::private::RawValue");
    assert(raw_value_key()[0] == '$' && "headers"@[0] == 'h' && "retry-after"@[0] == 'r');
    let head = frame_headers(retry_after_secs, fields);
    let names = fields.dom().insert("retry-after"@);
    assert(head.dom().subset_of(names)) by {
        assert forall|n: Seq<char>| head.dom().contains(n) implies names.contains(n) by {
            if n != "retry-after"@ && !fields.dom().contains(n) {
                assert(crate::headers::values_under(fields, n).len() == 0);
            }
        }
    }
    vstd::set_lib::lemma_set_subset_finite(names, head.dom());
    assert(exact_json(JsonModel::Object(head), (json_depth() - 1) as nat)) by {
        assert forall|k: Seq<char>| head.dom().contains(k) implies k != raw_value_key()
            && exact_json(#[trigger] head[k], (json_depth() - 2) as nat) by {
            assert(names.contains(k));
            assert(head[k] is Text);
        }
    }
    let members = frame_model(status, error, retry_after_secs, fields)->Object_0;
    assert forall|k: Seq<char>| members.dom().contains(k) implies k != raw_value_key()
        && exact_json(#[trigger] members[k], (json_depth() - 1) as nat) by {
        let v = members[k];
        assert(v is Text || v is Unsigned || v == error || v == JsonModel::Object(head));
    }
}

/// The path of one provider's WebSockets is a WebSocket path, and the path of
/// all providers together is not one provider's. A scoped request for such a
/// path goes to that provider as `/v1/responses`.
pub proof fn law_websocket_paths(path: Seq<char>, mode: RoutingMode, to: Seq<char>)
    ensures
        websocket_provider(path) is Some ==> is_websocket_path(path),
        is_websocket_path(path) && websocket_provider(path) is None ==> path == "/v1/responses"@,
        path == "/v1/responses"@ ==> websocket_provider(path) is None,
        websocket_provider(path) matches Some(provider) ==> is_provider_name(provider),
        websocket_provider(path) matches Some(provider) ==> is_routed(mode, to, path, true) ==> to
            == "/v1/responses"@ && (mode matches RoutingMode::Named { name } && name@ == provider),
{
    reveal_strlit("/v1/responses");
    reveal_strlit("/");
    reveal_strlit("v1/responses");
    assert("/v1/responses"@ =~= "/"@ + "v1/responses"@);
    crate::extract::law_provider_of_path(path);
    if path == "/v1/responses"@ {
        reveal_strlit("v1");
        reveal_strlit("responses");
        assert(path =~= seq!['/'] + "v1"@ + seq!['/'] + "responses"@);
        crate::extract::law_reserved_path("v1"@, "responses"@);
    }
}

/// Every provider has a WebSocket path of its own.
pub proof fn law_provider_websocket_path(name: Seq<char>)
    requires
        is_provider_name(name),
    ensures
        websocket_provider("/"@ + name + "/v1/responses"@) == Some(name),
        is_websocket_path("/"@ + name + "/v1/responses"@),
{
    reveal_strlit("/");
    reveal_strlit("/v1/responses");
    reveal_strlit("v1/responses");
    assert("/"@ + name + "/v1/responses"@ =~= seq!['/'] + name + seq!['/'] + "v1/responses"@);
    crate::extract::law_path_of_provider(name, "v1/responses"@);
}

/// The internal request carries no header of the handshake, and every other
/// header as the client sent it but for those that it sets itself.
pub proof fn law_internal_headers(fields: HeaderFields, mark: Seq<char>, name: Seq<char>)
    requires
        !is_upgrade_header(mark),
    ensures
        is_upgrade_header(name) ==> !internal_headers(fields, mark).dom().contains(name),
        !is_upgrade_header(name) && name != mark && name != "content-type"@ && name != "accept"@
            ==> crate::headers::values_under(internal_headers(fields, mark), name)
            == crate::headers::values_under(fields, name),
        internal_headers(fields, mark)[mark] == seq![encode_utf8("1"@)],
        mark != "content-type"@ ==> internal_headers(fields, mark)["content-type"@] == seq![
            encode_utf8("application/json"@),
        ],
        mark != "accept"@ ==> internal_headers(fields, mark)["accept"@] == seq![
            encode_utf8("text/event-stream"@),
        ],
{
    reveal_strlit("connection");
    reveal_strlit("upgrade");
    reveal_strlit("sec-websocket-accept");
    reveal_strlit("sec-websocket-extensions");
    reveal_strlit("sec-websocket-key");
    reveal_strlit("sec-websocket-protocol");
    reveal_strlit("sec-websocket-version");
    reveal_strlit("content-type");
    reveal_strlit("accept");
    assert("content-type"@.len() == 12 && "accept"@.len() == 6);
    assert("connection"@.len() == 10 && "upgrade"@.len() == 7);
    assert("sec-websocket-accept"@.len() == 20 && "sec-websocket-extensions"@.len() == 24);
    assert("sec-websocket-key"@.len() == 17 && "sec-websocket-protocol"@.len() == 22);
    assert("sec-websocket-version"@.len() == 21);
}

/// What decoding one piece of a response gave: the messages in it, or the
/// reason why it could not be read.
pub type Batch = Result<Vec<String>, String>;

/// The view of a [`Batch`].
pub type BatchView = Result<Seq<Seq<char>>, Seq<char>>;

/// The views of some strings.
pub open spec fn texts(strings: Seq<String>) -> Seq<Seq<char>> {
    strings.map_values(|s: String| s@)
}

/// The view of what decoding a piece gave.
pub open spec fn batch_view(batch: Batch) -> BatchView {
    match batch {
        Ok(messages) => Ok(texts(messages@)),
        Err(reason) => Err(reason@),
    }
}

/// The views of what decoding some pieces gave.
pub open spec fn batch_views(batches: Seq<Batch>) -> Seq<BatchView> {
    batches.map_values(|b: Batch| batch_view(b))
}

/// A piece of a response as it arrived, or the reason why it did not.
pub type Chunk = Result<Vec<u8>, String>;

/// The view of a [`Chunk`].
pub type ChunkView = Result<Seq<u8>, Seq<char>>;

/// The view of a piece of a response.
pub open spec fn chunk_view(chunk: Chunk) -> ChunkView {
    match chunk {
        Ok(bytes) => Ok(bytes@),
        Err(reason) => Err(reason@),
    }
}

/// The views of some pieces of a response.
pub open spec fn chunk_views(chunks: Seq<Chunk>) -> Seq<ChunkView> {
    chunks.map_values(|c: Chunk| chunk_view(c))
}

/// What came back from the pipeline for one frame.
pub enum ReceivedOutcome {
    /// A status other than success, with the body as it arrived.
    Failure { status: u16, headers: HeaderMap, chunks: Vec<Chunk> },
    /// Success with a buffered body, and what decoding it gave.
    Full { body: Vec<u8>, batches: Vec<Batch> },
    /// Success with a streamed body, and what decoding each piece gave.
    Stream { batches: Vec<Batch> },
}

/// How the outcome of a frame is to be received.
#[derive(Clone, Copy, PartialEq, Eq, Debug, Structural)]
pub enum OutcomeKind {
    /// The body is gathered as it is.
    Failure,
    /// The buffered body is decoded at once.
    Full,
    /// The streamed body is decoded piece by piece.
    Stream,
}

/// How the outcome of a frame is to be received.
pub open spec fn kind_of(status: u16, streamed: bool) -> OutcomeKind {
    if !is_success(status) {
        OutcomeKind::Failure
    } else if streamed {
        OutcomeKind::Stream
    } else {
        OutcomeKind::Full
    }
}

/// How the outcome of a frame is to be received.
pub fn outcome_kind(status: u16, streamed: bool) -> (r: OutcomeKind)
    ensures
        r == kind_of(status, streamed),
{
    if !succeeded(status) {
        OutcomeKind::Failure
    } else if streamed {
        OutcomeKind::Stream
    } else {
        OutcomeKind::Full
    }
}

/// Adds copies of some strings to others.
fn push_copies(out: &mut Vec<String>, more: &Vec<String>)
    ensures
        texts(final(out)@) == texts(old(out)@) + texts(more@),
{
    let ghost before = texts(out@);
    for i in 0..more.len()
        invariant
            texts(out@) =~= before + texts(more@).take(i as int),
    {
        let ghost prior = out@;
        out.push(more[i].clone());
        assert(texts(out@) =~= texts(prior).push(more@[i as int]@));
        assert(texts(more@).take(i + 1) =~= texts(more@).take(i as int).push(more@[i as int]@));
    }
    assert(texts(more@).take(more@.len() as int) =~= texts(more@));
}

/// The messages of all pieces, in order. The first piece that could not be read
/// is an error.
pub fn collect_batches(batches: &Vec<Batch>) -> (r: Result<Vec<String>, WsFrameError>)
    ensures
        match r {
            Ok(messages) => joined(batch_views(batches@)) == BatchView::Ok(texts(messages@)),
            Err(error) => joined(batch_views(batches@)) matches Err(reason) && is_plain(
                error,
                502,
                reason,
            ),
        },
{
    let ghost views = batch_views(batches@);
    let mut messages: Vec<String> = Vec::new();
    assert(texts(messages@) =~= Seq::empty());
    for i in 0..batches.len()
        invariant
            views == batch_views(batches@),
            joined(views.take(i as int)) == BatchView::Ok(texts(messages@)),
    {
        proof {
            lemma_joined_push(views, i as int);
        }
        match &batches[i] {
            Ok(more) => {
                push_copies(&mut messages, more);
            },
            Err(reason) => {
                proof {
                    law_failed_piece_ends(views, i as int);
                }
                return Err(WsFrameError::plain(502, reason.as_str()));
            },
        }
    }
    assert(views.take(views.len() as int) =~= views);
    Ok(messages)
}

/// The whole body. The first piece that did not arrive is an error.
pub fn collect_body(chunks: &Vec<Chunk>) -> (r: Result<Vec<u8>, WsFrameError>)
    ensures
        match r {
            Ok(body) => joined(chunk_views(chunks@)) == ChunkView::Ok(body@),
            Err(error) => joined(chunk_views(chunks@)) matches Err(reason) && is_plain(
                error,
                502,
                reason,
            ),
        },
{
    let ghost views = chunk_views(chunks@);
    let mut body: Vec<u8> = Vec::new();
    assert(body@ =~= Seq::empty());
    for i in 0..chunks.len()
        invariant
            views == chunk_views(chunks@),
            joined(views.take(i as int)) == ChunkView::Ok(body@),
    {
        proof {
            lemma_joined_push(views, i as int);
        }
        match &chunks[i] {
            Ok(more) => {
                let ghost prior = body@;
                body.extend_from_slice(more.as_slice());
                assert(body@ =~= prior + more@);
            },
            Err(reason) => {
                proof {
                    law_failed_piece_ends(views, i as int);
                }
                return Err(WsFrameError::plain(502, reason.as_str()));
            },
        }
    }
    assert(views.take(views.len() as int) =~= views);
    Ok(body)
}

/// The reason that a body which is neither events nor JSON is refused with.
pub open spec fn not_json(reason: Seq<char>) -> Seq<char> {
    "upstream returned non-SSE websocket response: "@ + reason
}

/// The message that a body which has been parsed as JSON stands for, or the
/// error where it could not be.
pub fn message_of_parsed(body: &[u8], parsed: Result<Value, String>) -> (r: Result<
    String,
    WsFrameError,
>)
    ensures
        match parsed {
            Ok(_) => r matches Ok(message) && message@ == lossy_text(body@),
            Err(reason) => r matches Err(error) && is_plain(error, 502, not_json(reason@)),
        },
{
    match parsed {
        Ok(_) => Ok(lossy_string(body)),
        Err(reason) => {
            let mut message = "upstream returned non-SSE websocket response: ".to_owned();
            message.append(reason.as_str());
            Err(WsFrameError::plain(502, message.as_str()))
        },
    }
}

/// The message that a body without events stands for: the body itself, where it
/// is JSON.
pub fn json_body_to_message(body: &[u8]) -> (r: Result<String, WsFrameError>)
    ensures
        match json_parsed_bytes(body@) {
            Ok(_) => r matches Ok(message) && encode_utf8(message@) == body@,
            Err(reason) => r matches Err(error) && is_plain(error, 502, not_json(reason)),
        },
{
    let parsed = parse_json_bytes(body);
    proof {
        if parsed is Ok {
            vstd::utf8::decode_utf8_encode_utf8(body@);
        }
    }
    message_of_parsed(body, parsed)
}

/// The messages for a status other than success: one error that speaks of the
/// body and repeats the headers.
fn failure_messages(status: u16, headers: &HeaderMap, chunks: &Vec<Chunk>) -> (r: Result<
    Vec<String>,
    WsFrameError,
>)
    ensures
        match joined(chunk_views(chunks@)) {
            Ok(body) => r matches Ok(messages) && is_one_message(
                texts(messages@),
                failure_model(status, body, header_fields(*headers)),
            ),
            Err(reason) => r matches Err(error) && is_plain(error, 502, reason),
        },
{
    match collect_body(chunks) {
        Ok(body) => {
            let text = lossy_string(body.as_slice());
            let error = WsFrameError::upstream(status, text.as_str(), headers);
            let mut messages: Vec<String> = Vec::new();
            messages.push(error.to_frame());
            assert(texts(messages@) =~= seq![
                json_rendered(failure_model(status, body@, header_fields(*headers))),
            ]);
            Ok(messages)
        },
        Err(error) => Err(error),
    }
}

/// The message for a body that came with a status other than success.
pub open spec fn failure_model(status: u16, body: Seq<u8>, fields: HeaderFields) -> JsonModel {
    frame_model(
        status,
        error_model(lossy_text(body), json_parsed(lossy_text(body))),
        None,
        fields,
    )
}

/// Whether some messages are just the one that says `model`.
pub open spec fn is_one_message(messages: Seq<Seq<char>>, model: JsonModel) -> bool {
    &&& messages == seq![json_rendered(model)]
    &&& exact_json(model, json_depth()) ==> json_parsed(messages[0]) == JsonResult::Ok(model)
}

/// Whether the messages, or the error, are those for a body that came with a
/// status other than success: one error that speaks of the body.
pub open spec fn answers_failure(
    status: u16,
    fields: HeaderFields,
    body: ChunkView,
    r: Result<Vec<String>, WsFrameError>,
) -> bool {
    match body {
        Ok(body) => r matches Ok(out) && is_one_message(
            texts(out@),
            failure_model(status, body, fields),
        ),
        Err(reason) => r matches Err(error) && is_plain(error, 502, reason),
    }
}

/// Whether the messages, or the error, are those for a buffered success: its
/// messages, or the body itself where that holds none but is JSON.
pub open spec fn answers_full(
    body: Seq<u8>,
    messages: BatchView,
    r: Result<Vec<String>, WsFrameError>,
) -> bool {
    if messages == BatchView::Ok(Seq::empty()) && body.len() > 0 {
        match json_parsed_bytes(body) {
            Ok(_) => r matches Ok(out) && out@.len() == 1 && encode_utf8(out@[0]@) == body,
            Err(reason) => r matches Err(error) && is_plain(error, 502, not_json(reason)),
        }
    } else {
        answers_stream(messages, r)
    }
}

/// Whether the messages, or the error, are those for a streamed success.
pub open spec fn answers_stream(
    messages: BatchView,
    r: Result<Vec<String>, WsFrameError>,
) -> bool {
    match messages {
        Ok(messages) => r matches Ok(out) && texts(out@) == messages,
        Err(reason) => r matches Err(error) && is_plain(error, 502, reason),
    }
}

/// Whether the messages, or the error, are those for an outcome.
pub open spec fn answers(
    outcome: ReceivedOutcome,
    r: Result<Vec<String>, WsFrameError>,
) -> bool {
    match outcome {
        ReceivedOutcome::Failure { status, headers, chunks } => answers_failure(
            status,
            header_fields(headers),
            joined(chunk_views(chunks@)),
            r,
        ),
        ReceivedOutcome::Full { body, batches } => answers_full(
            body@,
            joined(batch_views(batches@)),
            r,
        ),
        ReceivedOutcome::Stream { batches } => answers_stream(joined(batch_views(batches@)), r),
    }
}

/// The messages that an outcome is answered with, or the error that takes their
/// place. A buffered body without events is passed on whole where it is JSON.
pub fn outcome_to_messages(outcome: ReceivedOutcome) -> (r: Result<Vec<String>, WsFrameError>)
    ensures
        answers(outcome, r),
{
    match outcome {
        ReceivedOutcome::Failure { status, headers, chunks } => failure_messages(
            status,
            &headers,
            &chunks,
        ),
        ReceivedOutcome::Full { body, batches } => match collect_batches(&batches) {
            Ok(mut messages) => {
                assert(texts(messages@).len() == messages@.len());
                if messages.is_empty() && !body.is_empty() {
                    assert(texts(messages@) =~= Seq::empty());
                    match json_body_to_message(body.as_slice()) {
                        Ok(message) => {
                            messages.push(message);
                            Ok(messages)
                        },
                        Err(error) => Err(error),
                    }
                } else {
                    Ok(messages)
                }
            },
            Err(error) => Err(error),
        },
        ReceivedOutcome::Stream { batches } => collect_batches(&batches),
    }
}

/// The messages to send for a frame: those of its outcome, or the one for the
/// error that took their place.
pub fn messages_or_error(result: Result<Vec<String>, WsFrameError>) -> (r: Vec<String>)
    ensures
        match result {
            Ok(messages) => r == messages,
            Err(error) => is_one_message(texts(r@), error.model()),
        },
{
    match result {
        Ok(messages) => messages,
        Err(error) => {
            let mut out: Vec<String> = Vec::new();
            out.push(error.to_frame());
            assert(texts(out@) =~= seq![json_rendered(error.model())]);
            out
        },
    }
}

/// What is to be done with one inbound frame.
pub enum FramePlan<I, O> {
    /// The frame is answered with an error.
    Reject(WsFrameError),
    /// The path of the WebSocket names no provider where it has to.
    UnsupportedPath,
    /// The headers of the WebSocket leave no room for those of the request.
    HeadersFull,
    /// The request is sent through the pipeline.
    Execute(RequestCtx<I, O>),
}

/// Whether a request is the one that a frame stands for.
pub open spec fn is_frame_request<I, O>(
    ctx: RequestCtx<I, O>,
    base: ResponsesWsRequestBase,
    mark: Seq<char>,
    scoped: bool,
    frame: Seq<char>,
) -> bool {
    &&& is_routed(ctx.mode, ctx.path@, base.uri.path@, scoped)
    &&& ctx.method@ == "POST"@
    &&& ctx.query == base.uri.query
    &&& header_fields(ctx.headers) == internal_headers(header_fields(base.headers), mark)
    &&& ctx.body@ == encode_utf8(frame)
    &&& ctx.is_fresh()
}

/// Decides on one inbound frame, given what its validation said.
pub fn plan_frame<I, O>(
    base: &ResponsesWsRequestBase,
    mark: &str,
    scoped: bool,
    frame: &str,
    validation: Result<(), String>,
    request_id: String,
) -> (r: FramePlan<I, O>)
    requires
        is_header_name(mark@),
    ensures
        match validation {
            Err(reason) => r matches FramePlan::Reject(error) && is_plain(error, 422, reason@),
            Ok(_) => {
                &&& !(r is Reject)
                &&& r matches FramePlan::Execute(ctx) ==> ctx.request_id == request_id
                    && is_frame_request(ctx, *base, mark@, scoped, frame@)
                &&& r is UnsupportedPath ==> scoped && provider_and_rest(base.uri.path@) is None
                &&& has_room(header_fields(base.headers), 3) || has_room(
                    without_upgrade(header_fields(base.headers)),
                    3,
                ) ==> !(r is HeadersFull) && (r is UnsupportedPath <==> scoped
                    && provider_and_rest(base.uri.path@) is None)
            },
        },
{
    match validation {
        Err(reason) => FramePlan::Reject(WsFrameError::from_transform(reason.as_str())),
        Ok(_) => match internal_post_parts(base, mark) {
            Ok(parts) => match build_ctx_with_request_id::<I, O>(
                parts,
                frame.as_bytes_vec(),
                scoped,
                request_id,
            ) {
                Ok(ctx) => FramePlan::Execute(ctx),
                Err(_) => FramePlan::UnsupportedPath,
            },
            Err(_) => FramePlan::HeadersFull,
        },
    }
}

} // verus!
