use wrapper_supervisor::error::{ErrorKind, ProtocolError};
use wrapper_supervisor::protocol::{
    build_http_decrypt_samples_payload, decrypt_batch_payload, parse_decrypt_header,
    parse_decrypt_samples_payload, parse_header, parse_http_decrypt_batch, read_decrypt_frame,
    read_frame, write_decrypt_frame, write_frame, DecryptFrame, Frame, DECRYPT_HEADER_LEN,
    DECRYPT_KIND_BATCH, DECRYPT_KIND_CLOSE, DECRYPT_KIND_ERROR, DECRYPT_KIND_OK, DECRYPT_MAGIC,
    DECRYPT_VERSION, HEADER_LEN, KIND_REQUEST, KIND_RESPONSE, MAGIC, OP_DECRYPT_BATCH, OP_HEALTH,
    OP_LOGIN, OP_LOGIN_2FA, OP_LOGOUT, OP_ME, OP_PLAYBACK, VERSION,
};

#[test]
fn frame_round_trip() {
    let frame = Frame {
        kind: KIND_REQUEST,
        request_id: 42,
        opcode: OP_HEALTH,
        flags: 7,
        payload: b"hello".to_vec(),
    };
    let mut bytes = Vec::new();
    write_frame(&mut bytes, &frame).unwrap();
    let decoded = read_frame(bytes.as_slice()).unwrap();
    assert_eq!(decoded.kind, frame.kind);
    assert_eq!(decoded.request_id, frame.request_id);
    assert_eq!(decoded.opcode, frame.opcode);
    assert_eq!(decoded.flags, frame.flags);
    assert_eq!(decoded.payload, frame.payload);
}

#[test]
fn bad_magic_is_rejected() {
    let mut bytes = vec![0u8; 20];
    bytes[4..6].copy_from_slice(&VERSION.to_be_bytes());
    let err = read_frame(bytes.as_slice()).unwrap_err();
    assert_eq!(err.kind(), ErrorKind::InvalidData);
}

#[test]
fn decrypt_batch_payload_layout() {
    let out = decrypt_batch_payload("123", "skd://x", &[vec![1, 2, 3, 4]]).unwrap();
    assert_eq!(&out[0..2], &3u16.to_be_bytes());
    assert_eq!(&out[2..4], &7u16.to_be_bytes());
    assert_eq!(&out[4..8], &1u32.to_be_bytes());
    assert_eq!(&out[8..12], &4u32.to_be_bytes());
    assert_eq!(&out[12..15], b"123");
    assert_eq!(&out[15..22], b"skd://x");
    assert_eq!(&out[22..], &[1, 2, 3, 4]);
}

#[test]
fn decrypt_samples_payload_round_trip() {
    let data = [
        2u32.to_be_bytes().as_slice(),
        3u32.to_be_bytes().as_slice(),
        2u32.to_be_bytes().as_slice(),
        b"abc",
        b"de",
    ]
    .concat();
    assert_eq!(
        parse_decrypt_samples_payload(&data).unwrap(),
        vec![b"abc".to_vec(), b"de".to_vec()]
    );
}

#[test]
fn http_decrypt_batch_round_trip() {
    let body = [
        3u32.to_be_bytes().as_slice(),
        7u32.to_be_bytes().as_slice(),
        2u32.to_be_bytes().as_slice(),
        4u32.to_be_bytes().as_slice(),
        3u32.to_be_bytes().as_slice(),
        b"123",
        b"skd://x",
        &[1, 2, 3, 4][..],
        &[5, 6, 7][..],
    ]
    .concat();
    let (adam, uri, samples) = parse_http_decrypt_batch(&body).unwrap();
    assert_eq!(adam, "123");
    assert_eq!(uri, "skd://x");
    assert_eq!(samples, vec![vec![1, 2, 3, 4], vec![5, 6, 7]]);
    let payload = build_http_decrypt_samples_payload(&samples).unwrap();
    assert_eq!(&payload[0..4], &2u32.to_be_bytes());
    assert_eq!(&payload[4..8], &4u32.to_be_bytes());
    assert_eq!(&payload[8..12], &3u32.to_be_bytes());
    assert_eq!(&payload[12..], &[1, 2, 3, 4, 5, 6, 7]);
}

#[test]
fn http_decrypt_batch_rejects_truncation() {
    assert!(parse_http_decrypt_batch(&[0, 0, 0, 3]).is_err());
    let body = [
        3u32.to_be_bytes().as_slice(),
        7u32.to_be_bytes().as_slice(),
        1u32.to_be_bytes().as_slice(),
        100u32.to_be_bytes().as_slice(),
        b"123",
        b"skd://x",
    ]
    .concat();
    assert!(parse_http_decrypt_batch(&body).is_err());
}

#[test]
fn constants_are_the_documented_ones() {
    assert_eq!(&MAGIC.to_be_bytes(), b"WV2I");
    assert_eq!(&DECRYPT_MAGIC.to_be_bytes(), b"WV2D");
    assert_eq!((VERSION, DECRYPT_VERSION), (1, 1));
    assert_eq!((KIND_REQUEST, KIND_RESPONSE), (1, 2));
    assert_eq!(
        [OP_HEALTH, OP_ME, OP_LOGIN, OP_LOGIN_2FA, OP_LOGOUT, OP_PLAYBACK, OP_DECRYPT_BATCH],
        [1, 2, 3, 4, 5, 6, 7]
    );
    assert_eq!(
        [DECRYPT_KIND_BATCH, DECRYPT_KIND_OK, DECRYPT_KIND_ERROR, DECRYPT_KIND_CLOSE],
        [1, 2, 3, 9]
    );
    assert_eq!((HEADER_LEN, DECRYPT_HEADER_LEN), (20, 16));
}

fn health_frame_bytes() -> Vec<u8> {
    vec![
        0x57, 0x56, 0x32, 0x49, 0, 1, 0, 1, 0x01, 0x02, 0x03, 0x04, 0, 1, 0x80, 7, 0, 0, 0, 2, 9, 8,
    ]
}

#[test]
fn frame_layout() {
    let frame = Frame {
        kind: KIND_REQUEST,
        request_id: 0x01020304,
        opcode: OP_HEALTH,
        flags: 0x8007,
        payload: vec![9, 8],
    };
    let mut bytes = vec![0xaa];
    write_frame(&mut bytes, &frame).unwrap();
    assert_eq!(bytes[0], 0xaa);
    assert_eq!(&bytes[1..], health_frame_bytes().as_slice());
}

#[test]
fn frame_is_read_from_the_front() {
    let mut bytes = health_frame_bytes();
    bytes.extend_from_slice(&[1, 2, 3]);
    let frame = read_frame(&bytes).unwrap();
    assert_eq!(frame.request_id, 0x01020304);
    assert_eq!(frame.flags, 0x8007);
    assert_eq!(frame.payload, vec![9, 8]);
}

#[test]
fn frame_that_was_read_is_written_back_the_same() {
    let bytes = health_frame_bytes();
    let mut again = Vec::new();
    write_frame(&mut again, &read_frame(&bytes).unwrap()).unwrap();
    assert_eq!(again, bytes);
}

#[test]
fn frame_header_is_read_alone() {
    let h = parse_header(&health_frame_bytes()[0..20]).unwrap();
    assert_eq!((h.kind, h.request_id, h.opcode, h.flags), (1, 0x01020304, 1, 0x8007));
    assert_eq!(h.payload_len, 2);
}

#[test]
fn short_frames_end_unexpectedly() {
    let bytes = health_frame_bytes();
    for n in 0..bytes.len() {
        let err = read_frame(&bytes[0..n]).unwrap_err();
        assert_eq!(err, ProtocolError::UnexpectedEnd);
        assert_eq!(err.kind(), ErrorKind::UnexpectedEof);
        assert_eq!(err.to_string(), "failed to fill whole buffer");
    }
}

#[test]
fn bad_frame_version_is_rejected() {
    let mut bytes = health_frame_bytes();
    bytes[5] = 2;
    let err = read_frame(&bytes).unwrap_err();
    assert_eq!(err, ProtocolError::BadIpcVersion);
    assert_eq!(err.to_string(), "bad ipc version");
    bytes[0] = 0;
    let err = read_frame(&bytes).unwrap_err();
    assert_eq!(err, ProtocolError::BadIpcMagic);
    assert_eq!(err.to_string(), "bad ipc magic");
}

fn decrypt_frame_bytes() -> Vec<u8> {
    vec![0x57, 0x56, 0x32, 0x44, 0, 1, 0, 9, 0xff, 0xff, 0xff, 0xfe, 0, 0, 0, 3, 7, 0, 5]
}

#[test]
fn decrypt_frame_layout() {
    let frame =
        DecryptFrame { kind: DECRYPT_KIND_CLOSE, request_id: 0xfffffffe, payload: vec![7, 0, 5] };
    let mut bytes = Vec::new();
    write_decrypt_frame(&mut bytes, &frame).unwrap();
    assert_eq!(bytes, decrypt_frame_bytes());
}

#[test]
fn decrypt_frame_round_trip() {
    let frame = read_decrypt_frame(&decrypt_frame_bytes()).unwrap();
    assert_eq!(frame.kind, DECRYPT_KIND_CLOSE);
    assert_eq!(frame.request_id, 0xfffffffe);
    assert_eq!(frame.payload, vec![7, 0, 5]);
    let mut again = Vec::new();
    write_decrypt_frame(&mut again, &frame).unwrap();
    assert_eq!(again, decrypt_frame_bytes());
    let h = parse_decrypt_header(&decrypt_frame_bytes()[0..16]).unwrap();
    assert_eq!((h.kind, h.request_id, h.payload_len), (9, 0xfffffffe, 3));
}

#[test]
fn bad_decrypt_frames_are_rejected() {
    let bytes = decrypt_frame_bytes();
    for n in 0..bytes.len() {
        assert_eq!(read_decrypt_frame(&bytes[0..n]).unwrap_err(), ProtocolError::UnexpectedEnd);
    }
    let mut version = decrypt_frame_bytes();
    version[4] = 1;
    let err = read_decrypt_frame(&version).unwrap_err();
    assert_eq!(err, ProtocolError::BadDecryptVersion);
    assert_eq!(err.to_string(), "bad decrypt version");
    let mut magic = decrypt_frame_bytes();
    magic[3] = 0x49;
    let err = read_decrypt_frame(&magic).unwrap_err();
    assert_eq!(err, ProtocolError::BadDecryptMagic);
    assert_eq!(err.to_string(), "bad decrypt magic");
    assert_eq!(err.kind(), ErrorKind::InvalidData);
}
