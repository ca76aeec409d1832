use wrapper_supervisor::error::{ErrorKind, ProtocolError};
use wrapper_supervisor::protocol::{
    build_http_decrypt_samples_payload, decrypt_batch_payload, parse_decrypt_samples_payload,
    parse_http_decrypt_batch,
};

fn http_body(adam: &[u8], uri: &[u8], lens: &[u32], samples: &[u8]) -> Vec<u8> {
    let mut out = Vec::new();
    out.extend_from_slice(&(adam.len() as u32).to_be_bytes());
    out.extend_from_slice(&(uri.len() as u32).to_be_bytes());
    out.extend_from_slice(&(lens.len() as u32).to_be_bytes());
    for len in lens {
        out.extend_from_slice(&len.to_be_bytes());
    }
    out.extend_from_slice(adam);
    out.extend_from_slice(uri);
    out.extend_from_slice(samples);
    out
}

fn refusal(body: &[u8]) -> ProtocolError {
    parse_http_decrypt_batch(body).unwrap_err()
}

#[test]
fn batch_needs_a_sample() {
    let err = decrypt_batch_payload("1", "u", &[]).unwrap_err();
    assert_eq!(err, ProtocolError::EmptyDecryptBatch);
    assert_eq!(err.kind(), ErrorKind::InvalidInput);
    assert_eq!(err.to_string(), "decrypt batch must not be empty");
}

#[test]
fn batch_refuses_an_empty_sample() {
    let err = decrypt_batch_payload("1", "u", &[vec![1], vec![]]).unwrap_err();
    assert_eq!(err, ProtocolError::UnencodableSample);
    assert_eq!(err.kind(), ErrorKind::InvalidInput);
    assert_eq!(err.to_string(), "invalid decrypt sample length");
}

#[test]
fn batch_field_limits() {
    let longest = "a".repeat(65535);
    let too_long = "a".repeat(65536);
    let out = decrypt_batch_payload(&longest, "", &[vec![1]]).unwrap();
    assert_eq!(&out[0..4], &[0xff, 0xff, 0, 0]);
    assert_eq!(out.len(), 8 + 4 + 65535 + 1);
    for (adam, uri) in [(&too_long, &longest), (&longest, &too_long)] {
        let err = decrypt_batch_payload(adam, uri, &[vec![1]]).unwrap_err();
        assert_eq!(err, ProtocolError::DecryptPayloadTooLarge);
        assert_eq!(err.to_string(), "decrypt payload too large");
    }
    let err = decrypt_batch_payload(&too_long, "", &[]).unwrap_err();
    assert_eq!(err, ProtocolError::DecryptPayloadTooLarge);
}

#[test]
fn batch_counts_bytes_and_not_characters() {
    let out = decrypt_batch_payload("\u{e9}", "\u{20ac}", &[vec![5]]).unwrap();
    assert_eq!(
        out,
        vec![0, 2, 0, 3, 0, 0, 0, 1, 0, 0, 0, 1, 0xc3, 0xa9, 0xe2, 0x82, 0xac, 5]
    );
}

#[test]
fn different_batches_have_different_payloads() {
    let a = decrypt_batch_payload("1", "2", &[vec![3], vec![4]]).unwrap();
    let b = decrypt_batch_payload("12", "", &[vec![3], vec![4]]).unwrap();
    let c = decrypt_batch_payload("1", "2", &[vec![3, 4]]).unwrap();
    assert_ne!(a, b);
    assert_ne!(a, c);
    assert_ne!(b, c);
}

#[test]
fn response_of_no_samples() {
    let payload = build_http_decrypt_samples_payload(&[]).unwrap();
    assert_eq!(payload, vec![0, 0, 0, 0]);
    assert_eq!(parse_decrypt_samples_payload(&payload).unwrap(), Vec::<Vec<u8>>::new());
}

#[test]
fn response_round_trip_keeps_empty_samples() {
    let samples = vec![vec![], vec![1, 2], vec![]];
    let payload = build_http_decrypt_samples_payload(&samples).unwrap();
    assert_eq!(payload, vec![0, 0, 0, 3, 0, 0, 0, 0, 0, 0, 0, 2, 0, 0, 0, 0, 1, 2]);
    assert_eq!(parse_decrypt_samples_payload(&payload).unwrap(), samples);
}

#[test]
fn response_that_was_read_is_written_back_the_same() {
    let payload = vec![0, 0, 0, 2, 0, 0, 0, 1, 0, 0, 0, 3, 9, 8, 7, 6];
    let samples = parse_decrypt_samples_payload(&payload).unwrap();
    assert_eq!(samples, vec![vec![9], vec![8, 7, 6]]);
    assert_eq!(build_http_decrypt_samples_payload(&samples).unwrap(), payload);
}

#[test]
fn responses_that_are_refused() {
    for n in 0..4 {
        let err = parse_decrypt_samples_payload(&[0, 0, 0, 1][0..n]).unwrap_err();
        assert_eq!(err, ProtocolError::ResponseTooShort);
        assert_eq!(err.to_string(), "decrypt response too short");
    }
    let err = parse_decrypt_samples_payload(&[0, 0, 0, 1, 0, 0, 0]).unwrap_err();
    assert_eq!(err, ProtocolError::TruncatedLengthTable);
    assert_eq!(err.to_string(), "truncated decrypt length table");
    let err = parse_decrypt_samples_payload(&[0xff, 0xff, 0xff, 0xff, 0]).unwrap_err();
    assert_eq!(err.kind(), ErrorKind::InvalidData);
    let err = parse_decrypt_samples_payload(&[0, 0, 0, 1, 0, 0, 0, 2, 1]).unwrap_err();
    assert_eq!(err, ProtocolError::TruncatedSample);
    assert_eq!(err.to_string(), "truncated decrypt sample");
    let err = parse_decrypt_samples_payload(&[0, 0, 0, 1, 0, 0, 0, 1, 1, 2]).unwrap_err();
    assert_eq!(err, ProtocolError::TrailingResponseBytes);
    assert_eq!(err.to_string(), "trailing decrypt response bytes");
}

#[test]
fn http_batch_is_exact() {
    let body = http_body(b"123", "skd://\u{e9}".as_bytes(), &[2, 1], &[1, 2, 3]);
    let (adam, uri, samples) = parse_http_decrypt_batch(&body).unwrap();
    assert_eq!(adam, "123");
    assert_eq!(uri, "skd://\u{e9}");
    assert_eq!(samples, vec![vec![1, 2], vec![3]]);
    assert_eq!(http_body(adam.as_bytes(), uri.as_bytes(), &[2, 1], &samples.concat()), body);
    for n in 0..body.len() {
        assert_eq!(refusal(&body[0..n]).kind(), ErrorKind::InvalidData);
    }
}

#[test]
fn http_batches_that_are_refused() {
    assert_eq!(refusal(&[0; 11]), ProtocolError::BatchTooShort);
    assert_eq!(refusal(&[0; 11]).to_string(), "decrypt batch too short");
    for (adam, uri, lens) in
        [(&b""[..], &b"u"[..], &[1u32][..]), (b"a", b"", &[1]), (b"a", b"u", &[])]
    {
        let err = refusal(&http_body(adam, uri, lens, &[1]));
        assert_eq!(err, ProtocolError::EmptyBatchField);
        assert_eq!(err.to_string(), "empty decrypt batch field");
    }
    let mut cut = http_body(b"a", b"u", &[1], &[]);
    cut.pop();
    assert_eq!(refusal(&cut), ProtocolError::TruncatedBatchHeader);
    assert_eq!(refusal(&cut).to_string(), "truncated decrypt batch header");
    let zero = http_body(b"a", b"u", &[1, 0], &[1]);
    assert_eq!(refusal(&zero), ProtocolError::BadSampleLength);
    assert_eq!(refusal(&zero).to_string(), "invalid decrypt sample length");
    let long = http_body(b"a", b"u", &[1], &[1, 2]);
    assert_eq!(refusal(&long), ProtocolError::TrailingBatchBytes);
    assert_eq!(refusal(&long).to_string(), "trailing decrypt batch bytes");
    let short = http_body(b"a", b"u", &[2], &[1]);
    assert_eq!(refusal(&short), ProtocolError::TruncatedSample);
}

#[test]
fn http_batch_sample_limit() {
    let at = http_body(b"a", b"u", &[64 * 1024 * 1024], &[1]);
    assert_eq!(refusal(&at), ProtocolError::TruncatedSample);
    let over = http_body(b"a", b"u", &[64 * 1024 * 1024 + 1], &[1]);
    assert_eq!(refusal(&over), ProtocolError::BadSampleLength);
}

#[test]
fn http_batch_text_must_be_utf8() {
    let adam = http_body(&[0xff], &[0xff], &[1], &[1]);
    assert_eq!(refusal(&adam), ProtocolError::AdamNotUtf8);
    assert_eq!(refusal(&adam).to_string(), "adam_id is not utf-8");
    let uri = http_body(b"a", &[0xc3], &[1], &[1]);
    assert_eq!(refusal(&uri), ProtocolError::UriNotUtf8);
    assert_eq!(refusal(&uri).to_string(), "uri is not utf-8");
    let length_first = http_body(&[0xff], b"u", &[0], &[1]);
    assert_eq!(refusal(&length_first), ProtocolError::BadSampleLength);
    let text_first = http_body(&[0xff], b"u", &[9], &[1]);
    assert_eq!(refusal(&text_first), ProtocolError::AdamNotUtf8);
}

#[test]
fn errors_that_no_test_can_reach_read_as_they_should() {
    for (err, kind, text) in [
        (ProtocolError::PayloadTooLarge, ErrorKind::InvalidInput, "payload too large"),
        (ProtocolError::TooManySamples, ErrorKind::InvalidInput, "too many decrypt samples"),
        (ProtocolError::SampleTooLarge, ErrorKind::InvalidInput, "decrypt sample too large"),
        (ProtocolError::ResponseTooLarge, ErrorKind::InvalidInput, "decrypt response too large"),
        (ProtocolError::ResponseOverflow, ErrorKind::InvalidData, "decrypt response too large"),
        (ProtocolError::BatchOverflow, ErrorKind::InvalidData, "decrypt batch too large"),
    ] {
        assert_eq!(err.kind(), kind);
        assert_eq!(err.to_string(), text);
        assert_eq!(err.to_io().kind, kind);
        assert_eq!(err.to_io().message, text);
    }
}
