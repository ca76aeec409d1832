use wrapper_supervisor::error::WorkerError;
use wrapper_supervisor::protocol::{Frame, KIND_RESPONSE, OP_DECRYPT_BATCH, OP_HEALTH};
use wrapper_supervisor::reply::{
    decrypt_payload, decrypt_refusal, decrypt_reply, json_payload, parse_worker_response,
    worker_response, BodyField, ResponseFields, WorkerResponse,
};

fn answer(flags: u16, payload: &[u8]) -> Frame {
    Frame {
        kind: KIND_RESPONSE,
        request_id: 1,
        opcode: OP_HEALTH,
        flags,
        payload: payload.to_vec(),
    }
}

fn response(payload: &str) -> WorkerResponse {
    parse_worker_response(answer(0, payload.as_bytes())).unwrap()
}

fn value(text: &str) -> serde_json::Value {
    serde_json::from_str(text).unwrap()
}

#[test]
fn full_response() {
    let r = response(
        r#"{"http_status":201,"content_type":"text/plain","body":"café","restart_worker":true}"#,
    );
    assert_eq!(r.http_status, 201);
    assert_eq!(r.content_type, "text/plain");
    assert_eq!(r.body, "caf\u{e9}".as_bytes());
    assert!(r.restart_worker);
}

#[test]
fn empty_response_gets_defaults() {
    for payload in ["{}", "[]", "7", "null", r#""http_status""#] {
        let r = response(payload);
        assert_eq!(r.http_status, 502);
        assert_eq!(r.content_type, "application/json");
        assert_eq!(r.body, Vec::<u8>::new());
        assert!(!r.restart_worker);
    }
}

#[test]
fn fields_of_another_type_get_defaults() {
    let r = response(r#"{"http_status":"200","content_type":3,"restart_worker":"true"}"#);
    assert_eq!(r.http_status, 502);
    assert_eq!(r.content_type, "application/json");
    assert!(!r.restart_worker);
    let r = response(r#"{"http_status":-1,"restart_worker":1}"#);
    assert_eq!(r.http_status, 502);
    assert!(!r.restart_worker);
    assert_eq!(response(r#"{"http_status":200.0}"#).http_status, 502);
}

#[test]
fn status_keeps_its_low_bits() {
    assert_eq!(response(r#"{"http_status":65536}"#).http_status, 0);
    assert_eq!(response(r#"{"http_status":65736}"#).http_status, 200);
    assert_eq!(response(r#"{"http_status":18446744073709551615}"#).http_status, 65535);
}

#[test]
fn body_that_is_no_string_is_encoded() {
    assert_eq!(response(r#"{"body":{"b": [1, null], "a": -2.5}}"#).body, br#"{"a":-2.5,"b":[1,null]}"#);
    assert_eq!(response(r#"{"body":null}"#).body, b"null");
    assert_eq!(response(r#"{"body":""}"#).body, b"");
}

#[test]
fn response_that_is_not_json() {
    let err = parse_worker_response(answer(0, b"nope"));
    match err {
        Err(WorkerError::Protocol(text)) => {
            let expected = serde_json::from_str::<serde_json::Value>("nope").unwrap_err();
            assert_eq!(text, expected.to_string());
        }
        _ => panic!("not a protocol error"),
    }
    assert!(matches!(parse_worker_response(answer(0, b"")), Err(WorkerError::Protocol(_))));
}

#[test]
fn fields_are_completed() {
    let r = worker_response(ResponseFields {
        http_status: Some(404),
        content_type: None,
        restart_worker: Some(false),
        body: BodyField::Encoded(vec![1, 2]),
    });
    assert_eq!((r.http_status, r.restart_worker), (404, false));
    assert_eq!(r.body, vec![1, 2]);
    let r = worker_response(ResponseFields {
        http_status: None,
        content_type: Some("a/b".to_string()),
        restart_worker: Some(true),
        body: BodyField::Unencodable,
    });
    assert_eq!(r.http_status, 502);
    assert_eq!(r.content_type, "a/b");
    assert!(r.restart_worker);
    assert_eq!(r.body, br#"{"error":"invalid_worker_body"}"#);
}

#[test]
fn null_asks_with_nothing() {
    assert_eq!(json_payload(&serde_json::Value::Null).unwrap(), Vec::<u8>::new());
}

#[test]
fn other_values_ask_with_their_text() {
    assert_eq!(json_payload(&value(r#"{ "adam_id" : "1" }"#)).unwrap(), br#"{"adam_id":"1"}"#);
    assert_eq!(json_payload(&value("false")).unwrap(), b"false");
}

#[test]
fn decrypted_samples_come_back() {
    let r = decrypt_reply(answer(1, &[0, 0, 0, 1, 0, 0, 0, 2, 5, 6]));
    assert_eq!(r.result.unwrap(), vec![vec![5, 6]]);
    assert!(!r.restart_worker);
    let r = decrypt_reply(answer(0x8003, &[0, 0, 0, 0]));
    assert_eq!(r.result.unwrap(), Vec::<Vec<u8>>::new());
}

#[test]
fn bad_samples_are_a_protocol_error() {
    let r = decrypt_reply(answer(1, &[0, 0]));
    match r.result {
        Err(WorkerError::Protocol(text)) => assert_eq!(text, "decrypt response too short"),
        _ => panic!("not a protocol error"),
    }
    assert!(!r.restart_worker);
}

#[test]
fn refused_batch_says_why() {
    let r = decrypt_reply(answer(2, br#"{"body":"no key","restart_worker":true}"#));
    match r.result {
        Err(WorkerError::Unavailable(text)) => assert_eq!(text, "no key"),
        _ => panic!("not unavailable"),
    }
    assert!(r.restart_worker);
    let r = decrypt_reply(answer(0, b"{"));
    assert!(matches!(r.result, Err(WorkerError::Protocol(_))));
    assert!(!r.restart_worker);
}

#[test]
fn refusal_that_is_not_utf8_is_still_text() {
    let r = decrypt_refusal(WorkerResponse {
        http_status: 500,
        content_type: "text/plain".to_string(),
        body: vec![b'a', 0xff, b'b'],
        restart_worker: false,
    });
    assert_eq!(r.result.unwrap_err().to_string(), "a\u{fffd}b");
    assert!(!r.restart_worker);
}

#[test]
fn decrypt_payload_is_the_batch() {
    let payload = decrypt_payload("1", "u", &[vec![7]]).unwrap();
    assert_eq!(payload, vec![0, 1, 0, 1, 0, 0, 0, 1, 0, 0, 0, 1, b'1', b'u', 7]);
    match decrypt_payload("1", "u", &[]) {
        Err(WorkerError::Protocol(text)) => assert_eq!(text, "decrypt batch must not be empty"),
        _ => panic!("not a protocol error"),
    }
    assert_eq!(OP_DECRYPT_BATCH, 7);
}

#[test]
fn worker_errors_read_as_their_text() {
    assert_eq!(WorkerError::Io("a".to_string()).to_string(), "a");
    assert_eq!(WorkerError::Protocol("b".to_string()).to_string(), "b");
    assert_eq!(WorkerError::Unavailable("c".to_string()).to_string(), "c");
}
