//! What the worker answers, and what it is asked, in JSON.

use vstd::prelude::*;
use vstd::utf8;

use crate::batch;
use crate::error::{WorkerError, WorkerErrorView};
use crate::json;
use crate::json::Json;
use crate::layout;
use crate::protocol::{Frame, FrameView};
use crate::text;

verus! {

/// An answer of the worker, ready to be passed on to an HTTP client.
pub struct WorkerResponse {
    pub http_status: u16,
    pub content_type: String,
    pub body: Vec<u8>,
    pub restart_worker: bool,
}

/// What a [`WorkerResponse`] says.
#[verifier::ext_equal]
pub struct WorkerResponseView {
    pub http_status: u16,
    pub content_type: Seq<char>,
    pub body: Seq<u8>,
    pub restart_worker: bool,
}

impl View for WorkerResponse {
    type V = WorkerResponseView;

    open spec fn view(&self) -> WorkerResponseView {
        WorkerResponseView {
            http_status: self.http_status,
            content_type: self.content_type@,
            body: self.body@,
            restart_worker: self.restart_worker,
        }
    }
}

/// The body that an answer of the worker names.
pub enum BodyField {
    /// There is none.
    Absent,
    /// A string.
    Text(String),
    /// Another JSON value, encoded.
    Encoded(Vec<u8>),
    /// Another JSON value that could not be encoded.
    Unencodable,
}

/// The fields of an answer that are looked at; a field that is missing or of
/// another type is `None`.
pub struct ResponseFields {
    pub http_status: Option<u64>,
    pub content_type: Option<String>,
    pub restart_worker: Option<bool>,
    pub body: BodyField,
}

/// The bytes of the body that `body` names.
pub open spec fn body_bytes(body: BodyField) -> Seq<u8> {
    match body {
        BodyField::Absent => Seq::empty(),
        BodyField::Text(s) => utf8::encode_utf8(s@),
        BodyField::Encoded(b) => b@,
        BodyField::Unencodable => utf8::encode_utf8("{\"error\":\"invalid_worker_body\"}"@),
    }
}

/// The low sixteen bits of a status, or 502 where there is none.
pub open spec fn status_of(field: Option<u64>) -> u16 {
    match field {
        Some(n) => (n % 0x1_0000) as u16,
        None => 502,
    }
}

/// The answer that the JSON value `v` stands for.
pub open spec fn response_of(v: Json) -> WorkerResponseView {
    WorkerResponseView {
        http_status: status_of(
            match v.member("http_status"@) {
                Some(m) => m.unsigned(),
                None => None,
            },
        ),
        content_type: match v.member("content_type"@) {
            Some(Json::Text(s)) => s,
            _ => "application/json"@,
        },
        body: match v.member("body"@) {
            None => Seq::empty(),
            Some(Json::Text(s)) => utf8::encode_utf8(s),
            Some(other) => json::encoded(other),
        },
        restart_worker: v.member("restart_worker"@) == Some(Json::Bool(true)),
    }
}

/// Completes an answer from the fields that it has: status 502, content type
/// `application/json`, an empty body and no restart stand for missing ones.
pub fn worker_response(fields: ResponseFields) -> (r: WorkerResponse)
    ensures
        r@.http_status == status_of(fields.http_status),
        r@.content_type == (match fields.content_type {
            Some(s) => s@,
            None => "application/json"@,
        }),
        r@.restart_worker == (fields.restart_worker == Some(true)),
        r@.body == body_bytes(fields.body),
        fields.http_status matches Some(n) ==> r@.http_status as int == n as int % 65536,
        fields.http_status matches Some(n) ==> n <= 65535 ==> r@.http_status == n,
        fields.http_status is None ==> r@.http_status == 502,
{
    let http_status: u16 = match fields.http_status {
        Some(n) => (n % 0x1_0000) as u16,
        None => 502,
    };
    let content_type = match fields.content_type {
        Some(s) => s,
        None => "application/json".to_string(),
    };
    let restart_worker = match fields.restart_worker {
        Some(b) => b,
        None => false,
    };
    let body = match fields.body {
        BodyField::Absent => Vec::new(),
        BodyField::Text(s) => vstd::slice::slice_to_vec(s.as_str().as_bytes()),
        BodyField::Encoded(b) => b,
        BodyField::Unencodable => vstd::slice::slice_to_vec(
            "{\"error\":\"invalid_worker_body\"}".as_bytes(),
        ),
    };
    WorkerResponse { http_status, content_type, body, restart_worker }
}

fn member_text(value: &serde_json::Value, key: &str) -> (r: Option<String>)
    ensures
        match r {
            Some(s) => json::contents(*value).member(key@) == Some(Json::Text(s@)),
            None => !(json::contents(*value).member(key@) matches Some(Json::Text(_))),
        },
{
    match json::get(value, key) {
        None => None,
        Some(member) => match json::as_str(member) {
            None => None,
            Some(s) => Some(s.to_string()),
        },
    }
}

fn body_field(value: &serde_json::Value) -> (r: BodyField)
    ensures
        body_bytes(r) == response_of(json::contents(*value)).body,
{
    match json::get(value, "body") {
        None => BodyField::Absent,
        Some(member) => match json::as_str(member) {
            Some(s) => BodyField::Text(s.to_string()),
            None => match json::to_vec(member) {
                Ok(b) => BodyField::Encoded(b),
                Err(_) => BodyField::Unencodable,
            },
        },
    }
}

/// Reads the answer in the payload of a frame. A payload that is not JSON is a
/// protocol error that says why.
pub fn parse_worker_response(frame: Frame) -> (r: Result<WorkerResponse, WorkerError>)
    ensures
        match json::parsed(frame@.payload) {
            Ok(v) => r is Ok && r->Ok_0@ == response_of(v),
            Err(e) => r is Err && r->Err_0@ == WorkerErrorView::Protocol(e),
        },
        match json::parsed(frame@.payload) {
            Ok(Json::Object(members)) => members.dom().contains("http_status"@)
                ==> match members["http_status"@] {
                Json::Number(Some(n), _) => r->Ok_0@.http_status as int == n as int % 65536 && (n
                    <= 65535 ==> r->Ok_0@.http_status == n),
                _ => r->Ok_0@.http_status == 502,
            },
            _ => true,
        },
{
    let value = match json::from_slice(frame.payload.as_slice()) {
        Ok(value) => value,
        Err(e) => {
            return Err(WorkerError::Protocol(e));
        },
    };
    let http_status: Option<u64> = match json::get(&value, "http_status") {
        Some(member) => json::as_u64(member),
        None => None,
    };
    let content_type = member_text(&value, "content_type");
    let restart_worker = match json::get(&value, "restart_worker") {
        Some(member) => json::as_bool(member),
        None => None,
    };
    let body = body_field(&value);
    let r = worker_response(ResponseFields { http_status, content_type, restart_worker, body });
    assert(r@ =~= response_of(json::contents(value)));
    Ok(r)
}

/// The payload that asks with `payload`: nothing at all for null.
pub fn json_payload(payload: &serde_json::Value) -> (r: Result<Vec<u8>, WorkerError>)
    ensures
        r is Ok,
        r->Ok_0@ == (if json::contents(*payload) == Json::Null {
            Seq::<u8>::empty()
        } else {
            json::encoded(json::contents(*payload))
        }),
{
    if json::is_null(payload) {
        return Ok(Vec::new());
    }
    match json::to_vec(payload) {
        Ok(b) => Ok(b),
        Err(e) => Err(WorkerError::Protocol(e)),
    }
}

/// The end of a decrypt request: the samples or the error, and whether the
/// worker asked to be restarted.
pub struct DecryptReply {
    pub result: Result<Vec<Vec<u8>>, WorkerError>,
    pub restart_worker: bool,
}

/// What became of a batch that the worker answered with a response in JSON: it
/// was not decrypted, and the body says why.
pub fn decrypt_refusal(response: WorkerResponse) -> (r: DecryptReply)
    ensures
        r.restart_worker == response@.restart_worker,
        r.result is Err,
        r.result->Err_0@ == WorkerErrorView::Unavailable(text::lossy_text(response@.body)),
        utf8::valid_utf8(response@.body) ==> r.result->Err_0@ == WorkerErrorView::Unavailable(
            utf8::decode_utf8(response@.body),
        ),
{
    DecryptReply {
        result: Err(
            WorkerError::Unavailable(text::string_from_utf8_lossy(response.body.as_slice())),
        ),
        restart_worker: response.restart_worker,
    }
}

/// The frame carries samples, not JSON.
pub open spec fn carries_samples(frame: FrameView) -> bool {
    frame.flags % 2 == 1
}

/// Reads the frame that answers a decrypt batch: samples where its lowest flag
/// is set, and otherwise a response in JSON that says why there are none.
pub fn decrypt_reply(frame: Frame) -> (r: DecryptReply)
    ensures
        carries_samples(frame@) ==> !r.restart_worker && match batch::decode_response(
            frame@.payload,
        ) {
            Ok(samples) => r.result is Ok && layout::views(r.result->Ok_0@) == samples,
            Err(e) => r.result is Err && r.result->Err_0@ == WorkerErrorView::Protocol(e.text()),
        },
        !carries_samples(frame@) ==> match json::parsed(frame@.payload) {
            Err(e) => !r.restart_worker && r.result is Err && r.result->Err_0@
                == WorkerErrorView::Protocol(e),
            Ok(v) => {
                &&& r.restart_worker == response_of(v).restart_worker
                &&& r.result is Err
                &&& r.result->Err_0@ == WorkerErrorView::Unavailable(
                    text::lossy_text(response_of(v).body),
                )
                &&& utf8::valid_utf8(response_of(v).body) ==> r.result->Err_0@
                    == WorkerErrorView::Unavailable(utf8::decode_utf8(response_of(v).body))
            },
        },
{
    let flags: u16 = frame.flags;
    assert(flags & 1 == flags % 2) by (bit_vector);
    if flags & 1 == 1 {
        return match batch::parse_decrypt_samples_payload(frame.payload.as_slice()) {
            Ok(samples) => DecryptReply { result: Ok(samples), restart_worker: false },
            Err(e) => DecryptReply {
                result: Err(WorkerError::Protocol(e.to_string())),
                restart_worker: false,
            },
        };
    }
    match parse_worker_response(frame) {
        Ok(response) => decrypt_refusal(response),
        Err(e) => DecryptReply { result: Err(e), restart_worker: false },
    }
}

/// The payload of a decrypt request.
pub fn decrypt_payload(adam: &str, uri: &str, samples: &[Vec<u8>]) -> (r: Result<
    Vec<u8>,
    WorkerError,
>)
    ensures
        match batch::batch_refusal(
            utf8::encode_utf8(adam@),
            utf8::encode_utf8(uri@),
            layout::views(samples@),
        ) {
            None => r is Ok && r->Ok_0@ == batch::batch_bytes(
                utf8::encode_utf8(adam@),
                utf8::encode_utf8(uri@),
                layout::views(samples@),
            ),
            Some(e) => r is Err && r->Err_0@ == WorkerErrorView::Protocol(e.text()),
        },
{
    match batch::decrypt_batch_payload(adam, uri, samples) {
        Ok(payload) => Ok(payload),
        Err(e) => Err(WorkerError::Protocol(e.to_string())),
    }
}

/// What a response says is what its fields hold.
pub proof fn law_response_fields(r: WorkerResponse)
    ensures
        r@.http_status == r.http_status,
        r@.content_type == r.content_type@,
        r@.body == r.body@,
        r@.restart_worker == r.restart_worker,
{
}

/// The status that the worker gives is the status of the response, whichever it is; of a
/// number beyond 65535 the low sixteen bits are. An answer without one, or with one that is
/// no unsigned integer, has status 502.
pub proof fn law_status_kept(members: Map<Seq<char>, Json>, n: u64, digits: Seq<char>)
    ensures
        ({
            let with = Json::Object(members.insert("http_status"@, Json::Number(Some(n), digits)));
            &&& n <= 65535 ==> response_of(with).http_status == n
            &&& response_of(with).http_status as int == n as int % 65536
        }),
        !members.dom().contains("http_status"@) ==> response_of(Json::Object(members)).http_status
            == 502,
        members.dom().contains("http_status"@) && !(members["http_status"@] matches Json::Number(
            Some(_),
            _,
        )) ==> response_of(Json::Object(members)).http_status == 502,
{
}

/// The content type that the worker names is that of the response. An answer without one,
/// or with one that is no text, has `application/json`.
pub proof fn law_content_type_kept(members: Map<Seq<char>, Json>, name: Seq<char>)
    ensures
        response_of(
            Json::Object(members.insert("content_type"@, Json::Text(name))),
        ).content_type == name,
        !members.dom().contains("content_type"@) || !(members["content_type"@] is Text)
            ==> response_of(Json::Object(members)).content_type == "application/json"@,
{
}

/// A text that the worker gives as the body is the body, in UTF-8; any other value is the
/// body as JSON; an answer without a body has an empty one.
pub proof fn law_body_kept(members: Map<Seq<char>, Json>, value: Json)
    ensures
        ({
            let body = response_of(Json::Object(members.insert("body"@, value))).body;
            &&& value matches Json::Text(s) ==> body == utf8::encode_utf8(s)
            &&& !(value is Text) ==> body == json::encoded(value)
        }),
        !members.dom().contains("body"@) ==> response_of(Json::Object(members)).body.len() == 0,
{
}

/// The worker asks to be restarted by saying true, and by nothing else.
pub proof fn law_restart_asked_for(members: Map<Seq<char>, Json>, value: Json)
    ensures
        response_of(
            Json::Object(members.insert("restart_worker"@, value)),
        ).restart_worker <==> value == Json::Bool(true),
        !members.dom().contains("restart_worker"@) ==> !response_of(
            Json::Object(members),
        ).restart_worker,
{
}

/// An answer that is no object says nothing: status 502, `application/json`, no body, no
/// restart.
pub proof fn law_answer_without_members(v: Json)
    requires
        !(v is Object),
    ensures
        response_of(v).http_status == 502,
        response_of(v).content_type == "application/json"@,
        response_of(v).body.len() == 0,
        !response_of(v).restart_worker,
{
}

/// Each field of the response depends on the member of its own name alone: another member
/// changes nothing.
pub proof fn law_fields_independent(members: Map<Seq<char>, Json>, key: Seq<char>, value: Json)
    ensures
        ({
            let before = response_of(Json::Object(members));
            let after = response_of(Json::Object(members.insert(key, value)));
            &&& key != "http_status"@ ==> after.http_status == before.http_status
            &&& key != "content_type"@ ==> after.content_type == before.content_type
            &&& key != "body"@ ==> after.body == before.body
            &&& key != "restart_worker"@ ==> after.restart_worker == before.restart_worker
        }),
{
}

/// The bytes of a body: none, those of a text, those that were encoded, or those that say
/// that it could not be.
pub proof fn law_body_bytes(s: String, bytes: Vec<u8>)
    ensures
        body_bytes(BodyField::Absent).len() == 0,
        body_bytes(BodyField::Text(s)) == utf8::encode_utf8(s@),
        body_bytes(BodyField::Encoded(bytes)) == bytes@,
        body_bytes(BodyField::Unencodable) == utf8::encode_utf8(
            "{\"error\":\"invalid_worker_body\"}"@,
        ),
{
}

/// The lowest flag alone says whether a frame carries samples: whatever else the frame is,
/// it does so exactly when its flags are odd.
pub proof fn law_samples_marked(f: FrameView, half: u16)
    requires
        half < 0x8000,
    ensures
        carries_samples(FrameView { flags: (2 * half + 1) as u16, ..f }),
        !carries_samples(FrameView { flags: (2 * half) as u16, ..f }),
{
}

} // verus!
