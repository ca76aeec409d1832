//! The frames and payloads exchanged with the worker process and with clients.
//!
//! All integers are big-endian. An IPC frame (`WV2I`) carries one request or one
//! response over the pipes of the worker:
//!
//! ```text
//! magic u32, version u16, kind u16, request_id u32, opcode u16, flags u16,
//! payload_len u32, payload
//! ```
//!
//! A decrypt frame (`WV2D`) does the same for a client on the decrypt socket:
//!
//! ```text
//! magic u32, version u16, kind u16, request_id u32, payload_len u32, payload
//! ```

use vstd::prelude::*;

pub use crate::batch::{
    build_http_decrypt_samples_payload, decrypt_batch_payload, parse_decrypt_samples_payload,
    parse_http_decrypt_batch,
};
use crate::bytes;
use crate::error::ProtocolError;

verus! {

/// `WV2I`
pub const MAGIC: u32 = 0x57563249;

pub const VERSION: u16 = 1;

pub const KIND_REQUEST: u16 = 1;

pub const KIND_RESPONSE: u16 = 2;

pub const OP_HEALTH: u16 = 1;

pub const OP_ME: u16 = 2;

pub const OP_LOGIN: u16 = 3;

pub const OP_LOGIN_2FA: u16 = 4;

pub const OP_LOGOUT: u16 = 5;

pub const OP_PLAYBACK: u16 = 6;

pub const OP_DECRYPT_BATCH: u16 = 7;

/// `WV2D`
pub const DECRYPT_MAGIC: u32 = 0x57563244;

pub const DECRYPT_VERSION: u16 = 1;

pub const DECRYPT_KIND_BATCH: u16 = 1;

pub const DECRYPT_KIND_OK: u16 = 2;

pub const DECRYPT_KIND_ERROR: u16 = 3;

pub const DECRYPT_KIND_CLOSE: u16 = 9;

/// The number of bytes of an IPC frame before its payload.
pub const HEADER_LEN: usize = 20;

/// The number of bytes of a decrypt frame before its payload.
pub const DECRYPT_HEADER_LEN: usize = 16;

/// One request to the worker, or its response.
#[derive(Debug, Clone)]
pub struct Frame {
    pub kind: u16,
    pub request_id: u32,
    pub opcode: u16,
    pub flags: u16,
    pub payload: Vec<u8>,
}

/// What a [`Frame`] carries.
#[verifier::ext_equal]
pub struct FrameView {
    pub kind: u16,
    pub request_id: u32,
    pub opcode: u16,
    pub flags: u16,
    pub payload: Seq<u8>,
}

impl View for Frame {
    type V = FrameView;

    open spec fn view(&self) -> FrameView {
        FrameView {
            kind: self.kind,
            request_id: self.request_id,
            opcode: self.opcode,
            flags: self.flags,
            payload: self.payload@,
        }
    }
}

/// One message on the decrypt socket.
#[derive(Debug, Clone)]
pub struct DecryptFrame {
    pub kind: u16,
    pub request_id: u32,
    pub payload: Vec<u8>,
}

/// What a [`DecryptFrame`] carries.
#[verifier::ext_equal]
pub struct DecryptFrameView {
    pub kind: u16,
    pub request_id: u32,
    pub payload: Seq<u8>,
}

impl View for DecryptFrame {
    type V = DecryptFrameView;

    open spec fn view(&self) -> DecryptFrameView {
        DecryptFrameView {
            kind: self.kind,
            request_id: self.request_id,
            payload: self.payload@,
        }
    }
}

/// What the header of an IPC frame says of the frame.
#[derive(Debug, Clone, Copy, PartialEq, Eq, Structural)]
pub struct FrameHeader {
    pub kind: u16,
    pub request_id: u32,
    pub opcode: u16,
    pub flags: u16,
    pub payload_len: u32,
}

/// What the header of a decrypt frame says of the frame.
#[derive(Debug, Clone, Copy, PartialEq, Eq, Structural)]
pub struct DecryptFrameHeader {
    pub kind: u16,
    pub request_id: u32,
    pub payload_len: u32,
}

/// The bytes of the header `h`.
pub open spec fn header_bytes(h: FrameHeader) -> Seq<u8> {
    bytes::be_u32(MAGIC) + bytes::be_u16(VERSION) + bytes::be_u16(h.kind) + bytes::be_u32(
        h.request_id,
    ) + bytes::be_u16(h.opcode) + bytes::be_u16(h.flags) + bytes::be_u32(h.payload_len)
}

/// The bytes of the header `h`.
pub open spec fn decrypt_header_bytes(h: DecryptFrameHeader) -> Seq<u8> {
    bytes::be_u32(DECRYPT_MAGIC) + bytes::be_u16(DECRYPT_VERSION) + bytes::be_u16(h.kind)
        + bytes::be_u32(h.request_id) + bytes::be_u32(h.payload_len)
}

/// The header of the frame `f`.
pub open spec fn header_of(f: FrameView) -> FrameHeader {
    FrameHeader {
        kind: f.kind,
        request_id: f.request_id,
        opcode: f.opcode,
        flags: f.flags,
        payload_len: f.payload.len() as u32,
    }
}

/// The header of the frame `f`.
pub open spec fn decrypt_header_of(f: DecryptFrameView) -> DecryptFrameHeader {
    DecryptFrameHeader {
        kind: f.kind,
        request_id: f.request_id,
        payload_len: f.payload.len() as u32,
    }
}

/// The bytes of the frame `f`.
pub open spec fn frame_bytes(f: FrameView) -> Seq<u8> {
    header_bytes(header_of(f)) + f.payload
}

/// The bytes of the frame `f`.
pub open spec fn decrypt_frame_bytes(f: DecryptFrameView) -> Seq<u8> {
    decrypt_header_bytes(decrypt_header_of(f)) + f.payload
}

/// What the first twenty bytes of `b` say as the header of an IPC frame.
pub open spec fn decode_header(b: Seq<u8>) -> Result<FrameHeader, ProtocolError> {
    if bytes::u32_at(b, 0) != MAGIC {
        Err(ProtocolError::BadIpcMagic)
    } else if bytes::u16_at(b, 4) != VERSION {
        Err(ProtocolError::BadIpcVersion)
    } else {
        Ok(
            FrameHeader {
                kind: bytes::u16_at(b, 6),
                request_id: bytes::u32_at(b, 8),
                opcode: bytes::u16_at(b, 12),
                flags: bytes::u16_at(b, 14),
                payload_len: bytes::u32_at(b, 16),
            },
        )
    }
}

/// What the first sixteen bytes of `b` say as the header of a decrypt frame.
pub open spec fn decode_decrypt_header(b: Seq<u8>) -> Result<DecryptFrameHeader, ProtocolError> {
    if bytes::u32_at(b, 0) != DECRYPT_MAGIC {
        Err(ProtocolError::BadDecryptMagic)
    } else if bytes::u16_at(b, 4) != DECRYPT_VERSION {
        Err(ProtocolError::BadDecryptVersion)
    } else {
        Ok(
            DecryptFrameHeader {
                kind: bytes::u16_at(b, 6),
                request_id: bytes::u32_at(b, 8),
                payload_len: bytes::u32_at(b, 12),
            },
        )
    }
}

/// The IPC frame that the bytes `b` start with.
pub open spec fn decode_frame(b: Seq<u8>) -> Result<FrameView, ProtocolError> {
    if b.len() < HEADER_LEN {
        Err(ProtocolError::UnexpectedEnd)
    } else {
        match decode_header(b) {
            Err(e) => Err(e),
            Ok(h) => if b.len() < HEADER_LEN + h.payload_len {
                Err(ProtocolError::UnexpectedEnd)
            } else {
                Ok(
                    FrameView {
                        kind: h.kind,
                        request_id: h.request_id,
                        opcode: h.opcode,
                        flags: h.flags,
                        payload: b.subrange(HEADER_LEN as int, HEADER_LEN + h.payload_len),
                    },
                )
            },
        }
    }
}

/// The decrypt frame that the bytes `b` start with.
pub open spec fn decode_decrypt_frame(b: Seq<u8>) -> Result<DecryptFrameView, ProtocolError> {
    if b.len() < DECRYPT_HEADER_LEN {
        Err(ProtocolError::UnexpectedEnd)
    } else {
        match decode_decrypt_header(b) {
            Err(e) => Err(e),
            Ok(h) => if b.len() < DECRYPT_HEADER_LEN + h.payload_len {
                Err(ProtocolError::UnexpectedEnd)
            } else {
                Ok(
                    DecryptFrameView {
                        kind: h.kind,
                        request_id: h.request_id,
                        payload: b.subrange(
                            DECRYPT_HEADER_LEN as int,
                            DECRYPT_HEADER_LEN + h.payload_len,
                        ),
                    },
                )
            },
        }
    }
}

/// What a frame stands for is what its fields hold.
pub proof fn law_frame_fields(f: Frame, d: DecryptFrame)
    ensures
        f@.kind == f.kind,
        f@.request_id == f.request_id,
        f@.opcode == f.opcode,
        f@.flags == f.flags,
        f@.payload == f.payload@,
        d@.kind == d.kind,
        d@.request_id == d.request_id,
        d@.payload == d.payload@,
{
}

/// Each field of an IPC frame stands at its place: after `WV2I` and the version the kind,
/// the request id, the opcode, the flags, the payload length, and the payload.
pub proof fn law_frame_layout(f: FrameView)
    requires
        f.payload.len() <= u32::MAX,
    ensures
        ({
            let b = frame_bytes(f);
            &&& b.len() == 20 + f.payload.len()
            &&& b.subrange(0, 4) == seq![0x57u8, 0x56u8, 0x32u8, 0x49u8]
            &&& b.subrange(4, 6) == seq![0u8, 1u8]
            &&& b.subrange(6, 8) == bytes::be_u16(f.kind)
            &&& b.subrange(8, 12) == bytes::be_u32(f.request_id)
            &&& b.subrange(12, 14) == bytes::be_u16(f.opcode)
            &&& b.subrange(14, 16) == bytes::be_u16(f.flags)
            &&& b.subrange(16, 20) == bytes::be_u32(f.payload.len() as u32)
            &&& b.subrange(20, b.len() as int) == f.payload
            &&& bytes::u16_at(b, 6) == f.kind
            &&& bytes::u32_at(b, 8) == f.request_id
            &&& bytes::u16_at(b, 12) == f.opcode
            &&& bytes::u16_at(b, 14) == f.flags
            &&& bytes::u32_at(b, 16) == f.payload.len()
        }),
{
    let b = frame_bytes(f);
    let n = f.payload.len() as u32;
    assert(b.subrange(0, 4) =~= seq![0x57u8, 0x56u8, 0x32u8, 0x49u8]);
    assert(b.subrange(4, 6) =~= seq![0u8, 1u8]);
    assert(b.subrange(6, 8) =~= bytes::be_u16(f.kind));
    assert(b.subrange(8, 12) =~= bytes::be_u32(f.request_id));
    assert(b.subrange(12, 14) =~= bytes::be_u16(f.opcode));
    assert(b.subrange(14, 16) =~= bytes::be_u16(f.flags));
    assert(b.subrange(16, 20) =~= bytes::be_u32(n));
    assert(b.subrange(20, b.len() as int) =~= f.payload);
    bytes::lemma_u16_placed(b, 6, f.kind);
    bytes::lemma_u32_placed(b, 8, f.request_id);
    bytes::lemma_u16_placed(b, 12, f.opcode);
    bytes::lemma_u16_placed(b, 14, f.flags);
    bytes::lemma_u32_placed(b, 16, n);
}

/// Each field of a decrypt frame stands at its place: after `WV2D` and the version the
/// kind, the request id, the payload length, and the payload.
pub proof fn law_decrypt_frame_layout(f: DecryptFrameView)
    requires
        f.payload.len() <= u32::MAX,
    ensures
        ({
            let b = decrypt_frame_bytes(f);
            &&& b.len() == 16 + f.payload.len()
            &&& b.subrange(0, 4) == seq![0x57u8, 0x56u8, 0x32u8, 0x44u8]
            &&& b.subrange(4, 6) == seq![0u8, 1u8]
            &&& b.subrange(6, 8) == bytes::be_u16(f.kind)
            &&& b.subrange(8, 12) == bytes::be_u32(f.request_id)
            &&& b.subrange(12, 16) == bytes::be_u32(f.payload.len() as u32)
            &&& b.subrange(16, b.len() as int) == f.payload
            &&& bytes::u16_at(b, 6) == f.kind
            &&& bytes::u32_at(b, 8) == f.request_id
            &&& bytes::u32_at(b, 12) == f.payload.len()
        }),
{
    let b = decrypt_frame_bytes(f);
    let n = f.payload.len() as u32;
    assert(b.subrange(0, 4) =~= seq![0x57u8, 0x56u8, 0x32u8, 0x44u8]);
    assert(b.subrange(4, 6) =~= seq![0u8, 1u8]);
    assert(b.subrange(6, 8) =~= bytes::be_u16(f.kind));
    assert(b.subrange(8, 12) =~= bytes::be_u32(f.request_id));
    assert(b.subrange(12, 16) =~= bytes::be_u32(n));
    assert(b.subrange(16, b.len() as int) =~= f.payload);
    bytes::lemma_u16_placed(b, 6, f.kind);
    bytes::lemma_u32_placed(b, 8, f.request_id);
    bytes::lemma_u32_placed(b, 12, n);
}

/// Reading an IPC frame: every field is taken from its own place. Bytes are refused that
/// are too few, that do not start as a frame of this channel, or that are of another
/// version; nothing else is refused, whatever the kind, opcode, flags or id.
pub proof fn law_frame_read(b: Seq<u8>)
    ensures
        decode_frame(b) is Ok <==> b.len() >= 20 && b.subrange(0, 6) == seq![0x57u8, 0x56u8, 0x32u8, 0x49u8, 0u8, 1u8] && b.len() >= 20
            + bytes::u32_at(b, 16),
        decode_frame(b) matches Ok(f) ==> {
            &&& f.kind == bytes::u16_at(b, 6)
            &&& f.request_id == bytes::u32_at(b, 8)
            &&& f.opcode == bytes::u16_at(b, 12)
            &&& f.flags == bytes::u16_at(b, 14)
            &&& f.payload == b.subrange(20, 20 + bytes::u32_at(b, 16))
        },
        b.len() < 20 ==> decode_frame(b) == Err::<FrameView, ProtocolError>(
            ProtocolError::UnexpectedEnd,
        ),
        b.len() >= 20 && b.subrange(0, 4) != seq![0x57u8, 0x56u8, 0x32u8, 0x49u8] ==> decode_frame(b)
            == Err::<FrameView, ProtocolError>(ProtocolError::BadIpcMagic),
        b.len() >= 20 && b.subrange(0, 4) == seq![0x57u8, 0x56u8, 0x32u8, 0x49u8] && b.subrange(4, 6)
            != seq![0u8, 1u8] ==> decode_frame(b) == Err::<FrameView, ProtocolError>(
            ProtocolError::BadIpcVersion,
        ),
        b.len() >= 20 && b.subrange(0, 6) == seq![0x57u8, 0x56u8, 0x32u8, 0x49u8, 0u8, 1u8] && b.len() < 20 + bytes::u32_at(b, 16)
            ==> decode_frame(b) == Err::<FrameView, ProtocolError>(ProtocolError::UnexpectedEnd),
{
    if b.len() >= 20 {
        law_header_read(b);
    }
}

/// Reading the header of an IPC frame, of which there are at least twenty bytes.
pub proof fn law_header_read(b: Seq<u8>)
    requires
        b.len() >= 20,
    ensures
        decode_header(b) is Ok <==> b.subrange(0, 6) == seq![0x57u8, 0x56u8, 0x32u8, 0x49u8, 0u8, 1u8],
        decode_header(b) matches Ok(h) ==> {
            &&& h.kind == bytes::u16_at(b, 6)
            &&& h.request_id == bytes::u32_at(b, 8)
            &&& h.opcode == bytes::u16_at(b, 12)
            &&& h.flags == bytes::u16_at(b, 14)
            &&& h.payload_len == bytes::u32_at(b, 16)
        },
        b.subrange(0, 4) != seq![0x57u8, 0x56u8, 0x32u8, 0x49u8] <==> decode_header(b) == Err::<
            FrameHeader,
            ProtocolError,
        >(ProtocolError::BadIpcMagic),
        b.subrange(0, 4) == seq![0x57u8, 0x56u8, 0x32u8, 0x49u8] && b.subrange(4, 6) != seq![
            0u8,
            1u8,
        ] <==> decode_header(b) == Err::<FrameHeader, ProtocolError>(ProtocolError::BadIpcVersion),
{
    lemma_mark(b, 0x49, MAGIC);
}

/// The magic number and the version are read exactly from the bytes that spell them.
proof fn lemma_mark(b: Seq<u8>, mark: u8, magic: u32)
    requires
        b.len() >= 6,
        magic == 0x57563200 + mark,
    ensures
        bytes::u32_at(b, 0) == magic <==> b.subrange(0, 4) == seq![0x57u8, 0x56u8, 0x32u8, mark],
        bytes::u16_at(b, 4) == 1 <==> b.subrange(4, 6) == seq![0u8, 1u8],
        b.subrange(0, 6) == seq![0x57u8, 0x56u8, 0x32u8, mark, 0u8, 1u8] <==> b.subrange(0, 4) == seq![0x57u8, 0x56u8, 0x32u8, mark]
            && b.subrange(4, 6) == seq![0u8, 1u8],
{
    let head = b.subrange(0, 4);
    let version = b.subrange(4, 6);
    assert(head[0] == b[0] && head[1] == b[1] && head[2] == b[2] && head[3] == b[3]);
    assert(version[0] == b[4] && version[1] == b[5]);
    if b[0] == 0x57 && b[1] == 0x56 && b[2] == 0x32 && b[3] == mark {
        assert(head =~= seq![0x57u8, 0x56u8, 0x32u8, mark]);
    }
    if b[4] == 0 && b[5] == 1 {
        assert(version =~= seq![0u8, 1u8]);
    }
    if head == seq![0x57u8, 0x56u8, 0x32u8, mark] {
        assert(head[0] == 0x57 && head[1] == 0x56 && head[2] == 0x32 && head[3] == mark);
    }
    if version == seq![0u8, 1u8] {
        assert(version[0] == 0 && version[1] == 1);
    }
    let first = b.subrange(0, 6);
    let expected = seq![0x57u8, 0x56u8, 0x32u8, mark, 0u8, 1u8];
    assert(first.subrange(0, 4) =~= head && first.subrange(4, 6) =~= version);
    assert(expected.subrange(0, 4) =~= seq![0x57u8, 0x56u8, 0x32u8, mark]);
    assert(expected.subrange(4, 6) =~= seq![0u8, 1u8]);
    assert(first =~= head + version);
    assert(expected =~= seq![0x57u8, 0x56u8, 0x32u8, mark] + seq![0u8, 1u8]);
}

/// Reading the header of a decrypt frame, of which there are at least sixteen bytes.
pub proof fn law_decrypt_header_read(b: Seq<u8>)
    requires
        b.len() >= 16,
    ensures
        decode_decrypt_header(b) is Ok <==> b.subrange(0, 6) == seq![0x57u8, 0x56u8, 0x32u8, 0x44u8, 0u8, 1u8],
        decode_decrypt_header(b) matches Ok(h) ==> {
            &&& h.kind == bytes::u16_at(b, 6)
            &&& h.request_id == bytes::u32_at(b, 8)
            &&& h.payload_len == bytes::u32_at(b, 12)
        },
        b.subrange(0, 4) != seq![0x57u8, 0x56u8, 0x32u8, 0x44u8] <==> decode_decrypt_header(b)
            == Err::<DecryptFrameHeader, ProtocolError>(ProtocolError::BadDecryptMagic),
        b.subrange(0, 4) == seq![0x57u8, 0x56u8, 0x32u8, 0x44u8] && b.subrange(4, 6) != seq![
            0u8,
            1u8,
        ] <==> decode_decrypt_header(b) == Err::<DecryptFrameHeader, ProtocolError>(
            ProtocolError::BadDecryptVersion,
        ),
{
    lemma_mark(b, 0x44, DECRYPT_MAGIC);
}

/// Reading a decrypt frame: every field is taken from its own place, and only bytes that
/// are too few, of another channel or of another version are refused.
pub proof fn law_decrypt_frame_read(b: Seq<u8>)
    ensures
        decode_decrypt_frame(b) is Ok <==> b.len() >= 16 && b.subrange(0, 6) == seq![0x57u8, 0x56u8, 0x32u8, 0x44u8, 0u8, 1u8] && b.len()
            >= 16 + bytes::u32_at(b, 12),
        decode_decrypt_frame(b) matches Ok(f) ==> {
            &&& f.kind == bytes::u16_at(b, 6)
            &&& f.request_id == bytes::u32_at(b, 8)
            &&& f.payload == b.subrange(16, 16 + bytes::u32_at(b, 12))
        },
        b.len() < 16 ==> decode_decrypt_frame(b) == Err::<DecryptFrameView, ProtocolError>(
            ProtocolError::UnexpectedEnd,
        ),
        b.len() >= 16 && b.subrange(0, 4) != seq![0x57u8, 0x56u8, 0x32u8, 0x44u8]
            ==> decode_decrypt_frame(b) == Err::<DecryptFrameView, ProtocolError>(
            ProtocolError::BadDecryptMagic,
        ),
        b.len() >= 16 && b.subrange(0, 4) == seq![0x57u8, 0x56u8, 0x32u8, 0x44u8] && b.subrange(4, 6)
            != seq![0u8, 1u8] ==> decode_decrypt_frame(b) == Err::<DecryptFrameView, ProtocolError>(
            ProtocolError::BadDecryptVersion,
        ),
        b.len() >= 16 && b.subrange(0, 6) == seq![0x57u8, 0x56u8, 0x32u8, 0x44u8, 0u8, 1u8] && b.len() < 16 + bytes::u32_at(b, 12)
            ==> decode_decrypt_frame(b) == Err::<DecryptFrameView, ProtocolError>(
            ProtocolError::UnexpectedEnd,
        ),
{
    if b.len() >= 16 {
        law_decrypt_header_read(b);
    }
}

/// The header of an IPC frame reads back as it was written, whatever follows it.
pub proof fn law_header_round_trip(h: FrameHeader, rest: Seq<u8>)
    ensures
        header_bytes(h).len() == HEADER_LEN,
        decode_header(header_bytes(h) + rest) == Ok::<FrameHeader, ProtocolError>(h),
{
    let b = header_bytes(h) + rest;
    assert(b.subrange(0, 4) =~= bytes::be_u32(MAGIC));
    assert(b.subrange(4, 6) =~= bytes::be_u16(VERSION));
    assert(b.subrange(6, 8) =~= bytes::be_u16(h.kind));
    assert(b.subrange(8, 12) =~= bytes::be_u32(h.request_id));
    assert(b.subrange(12, 14) =~= bytes::be_u16(h.opcode));
    assert(b.subrange(14, 16) =~= bytes::be_u16(h.flags));
    assert(b.subrange(16, 20) =~= bytes::be_u32(h.payload_len));
    bytes::lemma_u32_placed(b, 0, MAGIC);
    bytes::lemma_u16_placed(b, 4, VERSION);
    bytes::lemma_u16_placed(b, 6, h.kind);
    bytes::lemma_u32_placed(b, 8, h.request_id);
    bytes::lemma_u16_placed(b, 12, h.opcode);
    bytes::lemma_u16_placed(b, 14, h.flags);
    bytes::lemma_u32_placed(b, 16, h.payload_len);
}

/// The header of a decrypt frame reads back as it was written, whatever follows it.
pub proof fn law_decrypt_header_round_trip(h: DecryptFrameHeader, rest: Seq<u8>)
    ensures
        decrypt_header_bytes(h).len() == DECRYPT_HEADER_LEN,
        decode_decrypt_header(decrypt_header_bytes(h) + rest) == Ok::<
            DecryptFrameHeader,
            ProtocolError,
        >(h),
{
    let b = decrypt_header_bytes(h) + rest;
    assert(b.subrange(0, 4) =~= bytes::be_u32(DECRYPT_MAGIC));
    assert(b.subrange(4, 6) =~= bytes::be_u16(DECRYPT_VERSION));
    assert(b.subrange(6, 8) =~= bytes::be_u16(h.kind));
    assert(b.subrange(8, 12) =~= bytes::be_u32(h.request_id));
    assert(b.subrange(12, 16) =~= bytes::be_u32(h.payload_len));
    bytes::lemma_u32_placed(b, 0, DECRYPT_MAGIC);
    bytes::lemma_u16_placed(b, 4, DECRYPT_VERSION);
    bytes::lemma_u16_placed(b, 6, h.kind);
    bytes::lemma_u32_placed(b, 8, h.request_id);
    bytes::lemma_u32_placed(b, 12, h.payload_len);
}

/// A header that was read is written back as the bytes that it was read from.
pub proof fn law_header_canonical(b: Seq<u8>)
    requires
        b.len() >= HEADER_LEN,
    ensures
        decode_header(b) matches Ok(h) ==> header_bytes(h) == b.take(HEADER_LEN as int),
{
    if let Ok(h) = decode_header(b) {
        bytes::law_u32_bytes(b, 0);
        bytes::law_u16_bytes(b, 4);
        bytes::law_u16_bytes(b, 6);
        bytes::law_u32_bytes(b, 8);
        bytes::law_u16_bytes(b, 12);
        bytes::law_u16_bytes(b, 14);
        bytes::law_u32_bytes(b, 16);
        assert(b.take(20) =~= b.subrange(0, 4) + b.subrange(4, 6) + b.subrange(6, 8) + b.subrange(
            8,
            12,
        ) + b.subrange(12, 14) + b.subrange(14, 16) + b.subrange(16, 20));
    }
}

/// A header that was read is written back as the bytes that it was read from.
pub proof fn law_decrypt_header_canonical(b: Seq<u8>)
    requires
        b.len() >= DECRYPT_HEADER_LEN,
    ensures
        decode_decrypt_header(b) matches Ok(h) ==> decrypt_header_bytes(h) == b.take(
            DECRYPT_HEADER_LEN as int,
        ),
{
    if let Ok(h) = decode_decrypt_header(b) {
        bytes::law_u32_bytes(b, 0);
        bytes::law_u16_bytes(b, 4);
        bytes::law_u16_bytes(b, 6);
        bytes::law_u32_bytes(b, 8);
        bytes::law_u32_bytes(b, 12);
        assert(b.take(16) =~= b.subrange(0, 4) + b.subrange(4, 6) + b.subrange(6, 8) + b.subrange(
            8,
            12,
        ) + b.subrange(12, 16));
    }
}

/// A frame reads back as it was written, whatever follows it on the channel.
pub proof fn law_frame_round_trip(f: FrameView, rest: Seq<u8>)
    requires
        f.payload.len() <= u32::MAX,
    ensures
        frame_bytes(f).len() == HEADER_LEN + f.payload.len(),
        decode_frame(frame_bytes(f) + rest) == Ok::<FrameView, ProtocolError>(f),
{
    let b = frame_bytes(f) + rest;
    law_header_round_trip(header_of(f), f.payload + rest);
    assert(b =~= header_bytes(header_of(f)) + (f.payload + rest));
    assert(b.subrange(20, 20 + f.payload.len() as int) =~= f.payload);
}

/// A decrypt frame reads back as it was written, whatever follows it on the channel.
pub proof fn law_decrypt_frame_round_trip(f: DecryptFrameView, rest: Seq<u8>)
    requires
        f.payload.len() <= u32::MAX,
    ensures
        decrypt_frame_bytes(f).len() == DECRYPT_HEADER_LEN + f.payload.len(),
        decode_decrypt_frame(decrypt_frame_bytes(f) + rest) == Ok::<
            DecryptFrameView,
            ProtocolError,
        >(f),
{
    let b = decrypt_frame_bytes(f) + rest;
    law_decrypt_header_round_trip(decrypt_header_of(f), f.payload + rest);
    assert(b =~= decrypt_header_bytes(decrypt_header_of(f)) + (f.payload + rest));
    assert(b.subrange(16, 16 + f.payload.len() as int) =~= f.payload);
}

/// Bytes that read as a frame start with exactly the bytes of that frame: no
/// frame has two encodings, and what is left for the next read is what follows.
pub proof fn law_frame_canonical(b: Seq<u8>)
    ensures
        decode_frame(b) matches Ok(f) ==> f.payload.len() <= u32::MAX && frame_bytes(f)
            == b.take(HEADER_LEN + f.payload.len()),
{
    if let Ok(f) = decode_frame(b) {
        law_header_canonical(b);
        assert(b.take(HEADER_LEN + f.payload.len()) =~= b.take(HEADER_LEN as int) + f.payload);
    }
}

/// Bytes that read as a decrypt frame start with exactly the bytes of that frame.
pub proof fn law_decrypt_frame_canonical(b: Seq<u8>)
    ensures
        decode_decrypt_frame(b) matches Ok(f) ==> f.payload.len() <= u32::MAX
            && decrypt_frame_bytes(f) == b.take(DECRYPT_HEADER_LEN + f.payload.len()),
{
    if let Ok(f) = decode_decrypt_frame(b) {
        law_decrypt_header_canonical(b);
        assert(b.take(DECRYPT_HEADER_LEN + f.payload.len()) =~= b.take(DECRYPT_HEADER_LEN as int)
            + f.payload);
    }
}

/// Appends the bytes of `frame` to `w`. A payload that its length field cannot
/// hold is refused, and nothing is written then.
pub fn write_frame(w: &mut Vec<u8>, frame: &Frame) -> (r: Result<(), ProtocolError>)
    ensures
        r == (if frame@.payload.len() > u32::MAX {
            Err::<(), ProtocolError>(ProtocolError::PayloadTooLarge)
        } else {
            Ok(())
        }),
        final(w)@ == (if frame@.payload.len() > u32::MAX {
            old(w)@
        } else {
            old(w)@ + frame_bytes(frame@)
        }),
{
    if frame.payload.len() > u32::MAX as usize {
        return Err(ProtocolError::PayloadTooLarge);
    }
    bytes::put_u32(w, MAGIC);
    bytes::put_u16(w, VERSION);
    bytes::put_u16(w, frame.kind);
    bytes::put_u32(w, frame.request_id);
    bytes::put_u16(w, frame.opcode);
    bytes::put_u16(w, frame.flags);
    bytes::put_u32(w, frame.payload.len() as u32);
    bytes::put_bytes(w, frame.payload.as_slice());
    assert(w@ =~= old(w)@ + frame_bytes(frame@));
    Ok(())
}

/// Appends the bytes of `frame` to `w`. A payload that its length field cannot
/// hold is refused, and nothing is written then.
pub fn write_decrypt_frame(w: &mut Vec<u8>, frame: &DecryptFrame) -> (r: Result<(), ProtocolError>)
    ensures
        r == (if frame@.payload.len() > u32::MAX {
            Err::<(), ProtocolError>(ProtocolError::DecryptPayloadTooLarge)
        } else {
            Ok(())
        }),
        final(w)@ == (if frame@.payload.len() > u32::MAX {
            old(w)@
        } else {
            old(w)@ + decrypt_frame_bytes(frame@)
        }),
{
    if frame.payload.len() > u32::MAX as usize {
        return Err(ProtocolError::DecryptPayloadTooLarge);
    }
    bytes::put_u32(w, DECRYPT_MAGIC);
    bytes::put_u16(w, DECRYPT_VERSION);
    bytes::put_u16(w, frame.kind);
    bytes::put_u32(w, frame.request_id);
    bytes::put_u32(w, frame.payload.len() as u32);
    bytes::put_bytes(w, frame.payload.as_slice());
    assert(w@ =~= old(w)@ + decrypt_frame_bytes(frame@));
    Ok(())
}

/// Reads the header of an IPC frame; any bytes after the header are not looked at.
pub fn parse_header(h: &[u8]) -> (r: Result<FrameHeader, ProtocolError>)
    ensures
        h@.len() < HEADER_LEN ==> r == Err::<FrameHeader, ProtocolError>(
            ProtocolError::UnexpectedEnd,
        ),
        h@.len() >= HEADER_LEN ==> r == decode_header(h@),
{
    if h.len() < HEADER_LEN {
        return Err(ProtocolError::UnexpectedEnd);
    }
    if bytes::get_u32(h, 0) != MAGIC {
        return Err(ProtocolError::BadIpcMagic);
    }
    if bytes::get_u16(h, 4) != VERSION {
        return Err(ProtocolError::BadIpcVersion);
    }
    Ok(
        FrameHeader {
            kind: bytes::get_u16(h, 6),
            request_id: bytes::get_u32(h, 8),
            opcode: bytes::get_u16(h, 12),
            flags: bytes::get_u16(h, 14),
            payload_len: bytes::get_u32(h, 16),
        },
    )
}

/// Reads the header of a decrypt frame; any bytes after the header are not looked at.
pub fn parse_decrypt_header(h: &[u8]) -> (r: Result<DecryptFrameHeader, ProtocolError>)
    ensures
        h@.len() < DECRYPT_HEADER_LEN ==> r == Err::<DecryptFrameHeader, ProtocolError>(
            ProtocolError::UnexpectedEnd,
        ),
        h@.len() >= DECRYPT_HEADER_LEN ==> r == decode_decrypt_header(h@),
{
    if h.len() < DECRYPT_HEADER_LEN {
        return Err(ProtocolError::UnexpectedEnd);
    }
    if bytes::get_u32(h, 0) != DECRYPT_MAGIC {
        return Err(ProtocolError::BadDecryptMagic);
    }
    if bytes::get_u16(h, 4) != DECRYPT_VERSION {
        return Err(ProtocolError::BadDecryptVersion);
    }
    Ok(
        DecryptFrameHeader {
            kind: bytes::get_u16(h, 6),
            request_id: bytes::get_u32(h, 8),
            payload_len: bytes::get_u32(h, 12),
        },
    )
}

/// Reads the IPC frame that `r` starts with.
pub fn read_frame(r: &[u8]) -> (out: Result<Frame, ProtocolError>)
    ensures
        match out {
            Ok(f) => decode_frame(r@) == Ok::<FrameView, ProtocolError>(f@),
            Err(e) => decode_frame(r@) == Err::<FrameView, ProtocolError>(e),
        },
{
    let h = match parse_header(r) {
        Ok(h) => h,
        Err(e) => {
            return Err(e);
        },
    };
    let payload_len: usize = h.payload_len as usize;
    if r.len() - HEADER_LEN < payload_len {
        return Err(ProtocolError::UnexpectedEnd);
    }
    let payload = vstd::slice::slice_to_vec(
        vstd::slice::slice_subrange(r, HEADER_LEN, HEADER_LEN + payload_len),
    );
    Ok(
        Frame {
            kind: h.kind,
            request_id: h.request_id,
            opcode: h.opcode,
            flags: h.flags,
            payload,
        },
    )
}

/// Reads the decrypt frame that `r` starts with.
pub fn read_decrypt_frame(r: &[u8]) -> (out: Result<DecryptFrame, ProtocolError>)
    ensures
        match out {
            Ok(f) => decode_decrypt_frame(r@) == Ok::<DecryptFrameView, ProtocolError>(f@),
            Err(e) => decode_decrypt_frame(r@) == Err::<DecryptFrameView, ProtocolError>(e),
        },
{
    let h = match parse_decrypt_header(r) {
        Ok(h) => h,
        Err(e) => {
            return Err(e);
        },
    };
    let payload_len: usize = h.payload_len as usize;
    if r.len() - DECRYPT_HEADER_LEN < payload_len {
        return Err(ProtocolError::UnexpectedEnd);
    }
    let payload = vstd::slice::slice_to_vec(
        vstd::slice::slice_subrange(r, DECRYPT_HEADER_LEN, DECRYPT_HEADER_LEN + payload_len),
    );
    Ok(DecryptFrame { kind: h.kind, request_id: h.request_id, payload })
}

} // verus!
