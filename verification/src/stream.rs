//! Frames over pipes that take and give bytes in pieces, and that are watched
//! with a deadline.
//!
//! Times are nanoseconds on one clock that never goes back.

use vstd::prelude::*;

use crate::bytes;
use crate::error::{ErrorKind, IoError, IoErrorView, ProtocolError};
use crate::protocol;
use crate::protocol::{Frame, FrameHeader, FrameView};
use crate::settings::NANOS_PER_MILLI;

verus! {

/// What the bytes received so far amount to.
pub enum Received {
    /// The beginning of a frame.
    More,
    /// A whole frame.
    Done(FrameView),
    /// A header that is no header.
    Bad(ProtocolError),
}

/// What the bytes `b` amount to, if they all came in while a frame was read.
pub open spec fn received_state(b: Seq<u8>) -> Received {
    if b.len() < protocol::HEADER_LEN {
        Received::More
    } else {
        match protocol::decode_header(b) {
            Err(e) => Received::Bad(e),
            Ok(h) => if b.len() < protocol::HEADER_LEN + h.payload_len {
                Received::More
            } else {
                Received::Done(
                    FrameView {
                        kind: h.kind,
                        request_id: h.request_id,
                        opcode: h.opcode,
                        flags: h.flags,
                        payload: b.skip(protocol::HEADER_LEN as int),
                    },
                )
            },
        }
    }
}

/// How many bytes may be read next: up to the end of the header, and then up to
/// the end of the payload.
pub open spec fn missing(b: Seq<u8>) -> int {
    if b.len() < protocol::HEADER_LEN {
        protocol::HEADER_LEN - b.len()
    } else {
        protocol::HEADER_LEN + bytes::u32_at(b, 16) - b.len()
    }
}

/// A frame of which some bytes have come in and some are missing.
pub struct FrameReader {
    header: Vec<u8>,
    head: Option<FrameHeader>,
    payload: Vec<u8>,
}

/// A frame that is being read, or one that has been.
pub enum ReadState {
    More(FrameReader),
    Done(Frame),
}

/// A read that came to nothing for now: to be tried again.
pub open spec fn is_transient(kind: ErrorKind) -> bool {
    kind == ErrorKind::Interrupted || kind == ErrorKind::WouldBlock
}

impl FrameReader {
    #[verifier::type_invariant]
    spec fn inv(self) -> bool {
        match self.head {
            None => self.header@.len() < protocol::HEADER_LEN && self.payload@.len() == 0,
            Some(h) => {
                &&& self.header@.len() == protocol::HEADER_LEN
                &&& protocol::decode_header(self.header@) == Ok::<FrameHeader, ProtocolError>(h)
                &&& self.payload@.len() < h.payload_len
            },
        }
    }

    /// The bytes that have come in.
    pub closed spec fn received(&self) -> Seq<u8> {
        self.header@ + self.payload@
    }

    /// Nothing has come in yet.
    pub fn new() -> (r: FrameReader)
        ensures
            r.received() == Seq::<u8>::empty(),
    {
        let r = FrameReader { header: Vec::new(), head: None, payload: Vec::new() };
        assert(r.received() =~= Seq::<u8>::empty());
        r
    }

    /// How many bytes may be read next, at most; there is always at least one.
    pub fn wanted(&self) -> (r: usize)
        ensures
            r == missing(self.received()),
            r > 0,
    {
        proof {
            use_type_invariant(self);
            lemma_header_prefix(self.header@, self.payload@);
        }
        match &self.head {
            None => {
                assert(self.received() =~= self.header@);
                protocol::HEADER_LEN - self.header.len()
            },
            Some(h) => h.payload_len as usize - self.payload.len(),
        }
    }

    /// Takes in `chunk`.
    pub fn feed(self, chunk: &[u8]) -> (r: Result<ReadState, ProtocolError>)
        requires
            chunk@.len() <= missing(self.received()),
        ensures
            match received_state(self.received() + chunk@) {
                Received::More => r matches Ok(ReadState::More(next)) && next.received()
                    == self.received() + chunk@,
                Received::Done(f) => r matches Ok(ReadState::Done(frame)) && frame@ == f,
                Received::Bad(e) => r == Err::<ReadState, ProtocolError>(e),
            },
    {
        proof {
            use_type_invariant(&self);
            lemma_header_prefix(self.header@, self.payload@);
        }
        let ghost before = self.received();
        let FrameReader { header, head, payload } = self;
        let mut header = header;
        let mut payload = payload;
        match head {
            None => {
                assert(before =~= header@);
                bytes::put_bytes(&mut header, chunk);
                let ghost after = header@;
                assert(after == before + chunk@);
                if header.len() < protocol::HEADER_LEN {
                    let next = FrameReader { header, head: None, payload };
                    assert(next.received() =~= after);
                    return Ok(ReadState::More(next));
                }
                match protocol::parse_header(header.as_slice()) {
                    Err(e) => Err(e),
                    Ok(h) => {
                        if h.payload_len > 0 {
                            let next = FrameReader { header, head: Some(h), payload };
                            assert(next.received() =~= after);
                            Ok(ReadState::More(next))
                        } else {
                            assert(payload@ =~= after.skip(protocol::HEADER_LEN as int));
                            Ok(ReadState::Done(assemble(h, payload)))
                        }
                    },
                }
            },
            Some(h) => {
                bytes::put_bytes(&mut payload, chunk);
                let ghost after = before + chunk@;
                proof {
                    lemma_header_prefix(header@, payload@);
                }
                assert(after =~= header@ + payload@);
                if payload.len() < h.payload_len as usize {
                    let next = FrameReader { header, head: Some(h), payload };
                    assert(next.received() =~= after);
                    Ok(ReadState::More(next))
                } else {
                    assert(payload@ =~= after.skip(protocol::HEADER_LEN as int));
                    Ok(ReadState::Done(assemble(h, payload)))
                }
            },
        }
    }

    /// Goes on after a read: bytes are taken in; no bytes at all mean that the
    /// worker closed its end; a read that was interrupted or found nothing yet is
    /// tried again; any other failure ends the frame.
    pub fn progress(self, got: Result<Vec<u8>, IoError>) -> (r: Result<ReadState, IoError>)
        requires
            got matches Ok(chunk) ==> chunk@.len() <= missing(self.received()),
        ensures
            match got {
                Ok(chunk) => if chunk@.len() == 0 {
                    r is Err && r->Err_0@ == (IoErrorView {
                        kind: ErrorKind::UnexpectedEof,
                        message: "worker stdout closed"@,
                    })
                } else {
                    match received_state(self.received() + chunk@) {
                        Received::More => r matches Ok(ReadState::More(next)) && next.received()
                            == self.received() + chunk@,
                        Received::Done(f) => r matches Ok(ReadState::Done(frame)) && frame@ == f,
                        Received::Bad(e) => r is Err && r->Err_0@ == (IoErrorView {
                            kind: e.spec_kind(),
                            message: e.text(),
                        }),
                    }
                },
                Err(e) => if is_transient(e@.kind) {
                    r matches Ok(ReadState::More(next)) && next.received() == self.received()
                } else {
                    r is Err && r->Err_0@ == e@
                },
            },
    {
        match got {
            Ok(chunk) => {
                if chunk.is_empty() {
                    return Err(IoError::new(ErrorKind::UnexpectedEof, "worker stdout closed"));
                }
                match self.feed(chunk.as_slice()) {
                    Ok(state) => Ok(state),
                    Err(e) => Err(e.to_io()),
                }
            },
            Err(e) => if e.kind == ErrorKind::Interrupted || e.kind == ErrorKind::WouldBlock {
                Ok(ReadState::More(self))
            } else {
                Err(e)
            },
        }
    }
}

fn assemble(h: FrameHeader, payload: Vec<u8>) -> (r: Frame)
    ensures
        r@ == (FrameView {
            kind: h.kind,
            request_id: h.request_id,
            opcode: h.opcode,
            flags: h.flags,
            payload: payload@,
        }),
{
    Frame { kind: h.kind, request_id: h.request_id, opcode: h.opcode, flags: h.flags, payload }
}

/// What follows a whole header does not change what the header says.
proof fn lemma_header_prefix(header: Seq<u8>, rest: Seq<u8>)
    ensures
        header.len() >= protocol::HEADER_LEN ==> protocol::decode_header(header + rest)
            == protocol::decode_header(header) && bytes::u32_at(header + rest, 16)
            == bytes::u32_at(header, 16),
{
    if header.len() >= protocol::HEADER_LEN {
        let all = header + rest;
        assert(forall|i: int| 0 <= i < protocol::HEADER_LEN ==> #[trigger] all[i] == header[i]);
    }
}

/// However the bytes of a frame come in, the frame is complete with its last
/// byte, is then the frame that was written, and is not complete before.
pub proof fn law_frame_in_pieces(f: FrameView, n: int)
    requires
        f.payload.len() <= u32::MAX,
        0 <= n <= protocol::frame_bytes(f).len(),
    ensures
        received_state(protocol::frame_bytes(f).take(n)) == (if n < protocol::frame_bytes(f).len() {
            Received::More
        } else {
            Received::Done(f)
        }),
{
    let b = protocol::frame_bytes(f);
    protocol::law_frame_round_trip(f, Seq::empty());
    assert(b + Seq::<u8>::empty() =~= b);
    let part = b.take(n);
    if n >= protocol::HEADER_LEN {
        protocol::law_header_round_trip(
            protocol::header_of(f),
            part.skip(protocol::HEADER_LEN as int),
        );
        assert(part =~= protocol::header_bytes(protocol::header_of(f)) + part.skip(
            protocol::HEADER_LEN as int,
        ));
    }
    if n == b.len() {
        assert(part.skip(protocol::HEADER_LEN as int) =~= f.payload);
    }
}

/// Bytes that came in piece by piece and make up a frame read as that frame in
/// one piece too.
pub proof fn law_pieces_agree(b: Seq<u8>)
    ensures
        missing(b) == 0 ==> (received_state(b) matches Received::Done(f) ==> protocol::decode_frame(
            b,
        ) == Ok::<FrameView, ProtocolError>(f)),
        received_state(b) matches Received::Bad(e) ==> protocol::decode_frame(b) == Err::<
            FrameView,
            ProtocolError,
        >(e),
        received_state(b) is More ==> protocol::decode_frame(b) == Err::<FrameView, ProtocolError>(
            ProtocolError::UnexpectedEnd,
        ),
{
    if b.len() >= protocol::HEADER_LEN {
        if let Ok(h) = protocol::decode_header(b) {
            if b.len() == protocol::HEADER_LEN + h.payload_len {
                assert(b.skip(protocol::HEADER_LEN as int) =~= b.subrange(
                    protocol::HEADER_LEN as int,
                    protocol::HEADER_LEN + h.payload_len,
                ));
            }
        }
    }
}

/// A frame of which some bytes are still to be sent.
pub struct FrameWriter {
    bytes: Vec<u8>,
    sent: usize,
}

/// A frame that is being sent, or one that has been.
pub enum WriteState {
    More(FrameWriter),
    Done,
}

impl FrameWriter {
    #[verifier::type_invariant]
    spec fn inv(self) -> bool {
        self.sent < self.bytes@.len()
    }

    /// The bytes that are still to be sent.
    pub closed spec fn unsent(&self) -> Seq<u8> {
        self.bytes@.skip(self.sent as int)
    }

    /// Nothing of `frame` has been sent yet.
    pub fn new(frame: &Frame) -> (r: Result<FrameWriter, ProtocolError>)
        ensures
            match r {
                Ok(w) => frame@.payload.len() <= u32::MAX && w.unsent() == protocol::frame_bytes(
                    frame@,
                ),
                Err(e) => frame@.payload.len() > u32::MAX && e == ProtocolError::PayloadTooLarge,
            },
    {
        let mut bytes: Vec<u8> = Vec::new();
        match protocol::write_frame(&mut bytes, frame) {
            Ok(()) => {
                assert(bytes@ =~= protocol::frame_bytes(frame@));
                assert(bytes@.skip(0) =~= bytes@);
                Ok(FrameWriter { bytes, sent: 0 })
            },
            Err(e) => Err(e),
        }
    }

    /// The bytes to send next.
    pub fn pending(&self) -> (r: &[u8])
        ensures
            r@ == self.unsent(),
            r@.len() > 0,
    {
        proof {
            use_type_invariant(self);
        }
        assert(self.bytes@.skip(self.sent as int) =~= self.bytes@.subrange(
            self.sent as int,
            self.bytes@.len() as int,
        ));
        vstd::slice::slice_subrange(self.bytes.as_slice(), self.sent, self.bytes.len())
    }

    /// Goes on after a write: the bytes that it took are not sent again; none
    /// taken means that the worker closed its end; a write that was interrupted
    /// or could take nothing yet is tried again; any other failure ends the frame.
    pub fn progress(self, wrote: Result<usize, IoError>) -> (r: Result<WriteState, IoError>)
        requires
            wrote matches Ok(n) ==> n <= self.unsent().len(),
        ensures
            match wrote {
                Ok(n) => if n == 0 {
                    r is Err && r->Err_0@ == (IoErrorView {
                        kind: ErrorKind::WriteZero,
                        message: "worker stdin closed"@,
                    })
                } else if n < self.unsent().len() {
                    r matches Ok(WriteState::More(next)) && next.unsent() == self.unsent().skip(
                        n as int,
                    )
                } else {
                    r == Ok::<WriteState, IoError>(WriteState::Done)
                },
                Err(e) => if is_transient(e@.kind) {
                    r matches Ok(WriteState::More(next)) && next.unsent() == self.unsent()
                } else {
                    r is Err && r->Err_0@ == e@
                },
            },
    {
        proof {
            use_type_invariant(&self);
        }
        match wrote {
            Ok(n) => {
                if n == 0 {
                    return Err(IoError::new(ErrorKind::WriteZero, "worker stdin closed"));
                }
                let ghost rest = self.unsent();
                let FrameWriter { bytes, sent } = self;
                if n < bytes.len() - sent {
                    let next = FrameWriter { bytes, sent: sent + n };
                    assert(next.unsent() =~= rest.skip(n as int));
                    Ok(WriteState::More(next))
                } else {
                    Ok(WriteState::Done)
                }
            },
            Err(e) => if e.kind == ErrorKind::Interrupted || e.kind == ErrorKind::WouldBlock {
                Ok(WriteState::More(self))
            } else {
                Err(e)
            },
        }
    }
}

/// What writes that took `counts` bytes of `b` one after another have sent.
pub open spec fn sent_by(b: Seq<u8>, counts: Seq<nat>) -> Seq<u8>
    decreases counts.len(),
{
    if counts.len() == 0 {
        Seq::empty()
    } else {
        b.take(counts.first() as int) + sent_by(b.skip(counts.first() as int), counts.drop_first())
    }
}

/// What such writes leave to be sent.
pub open spec fn left_by(b: Seq<u8>, counts: Seq<nat>) -> Seq<u8>
    decreases counts.len(),
{
    if counts.len() == 0 {
        b
    } else {
        left_by(b.skip(counts.first() as int), counts.drop_first())
    }
}

/// No write takes more than is left.
pub open spec fn writable(b: Seq<u8>, counts: Seq<nat>) -> bool
    decreases counts.len(),
{
    counts.len() > 0 ==> counts.first() <= b.len() && writable(
        b.skip(counts.first() as int),
        counts.drop_first(),
    )
}

/// In however many writes bytes are sent, each is sent once and in its place.
pub proof fn law_sent_in_pieces(b: Seq<u8>, counts: Seq<nat>)
    requires
        writable(b, counts),
    ensures
        sent_by(b, counts) + left_by(b, counts) == b,
    decreases counts.len(),
{
    if counts.len() > 0 {
        let n = counts.first() as int;
        law_sent_in_pieces(b.skip(n), counts.drop_first());
        assert(sent_by(b, counts) + left_by(b, counts) =~= b.take(n) + (sent_by(
            b.skip(n),
            counts.drop_first(),
        ) + left_by(b.skip(n), counts.drop_first())));
        assert(b.take(n) + b.skip(n) =~= b);
    } else {
        assert(Seq::<u8>::empty() + b =~= b);
    }
}

/// The failure of a channel that was not ready in time.
pub open spec fn ipc_timeout() -> IoErrorView {
    IoErrorView { kind: ErrorKind::TimedOut, message: "worker ipc response timed out"@ }
}

fn timed_out() -> (r: IoError)
    ensures
        r@ == ipc_timeout(),
{
    IoError::new(ErrorKind::TimedOut, "worker ipc response timed out")
}

/// How many milliseconds a poll may take that is made at `now`: what is left
/// until `deadline`, rounded down, as far as a poll can be told. At or after the
/// deadline there is no poll.
pub fn poll_timeout(now: u64, deadline: u128) -> (r: Result<i32, IoError>)
    ensures
        now >= deadline ==> r is Err && r->Err_0@ == ipc_timeout(),
        now < deadline ==> r is Ok && r->Ok_0 == (if (deadline - now) / NANOS_PER_MILLI as int
            > i32::MAX {
            i32::MAX as int
        } else {
            (deadline - now) / NANOS_PER_MILLI as int
        }),
        r matches Ok(millis) ==> 0 <= millis && now + millis * NANOS_PER_MILLI <= deadline,
{
    if now as u128 >= deadline {
        return Err(timed_out());
    }
    let left: u128 = (deadline - now as u128) / NANOS_PER_MILLI;
    let millis: i32 = if left > i32::MAX as u128 {
        i32::MAX
    } else {
        left as i32
    };
    Ok(millis)
}

/// What a poll of one descriptor said.
pub enum PollOutcome {
    /// Events came: their bits.
    Events(i16),
    /// The time was up.
    Expired,
    /// The poll failed.
    Failed(IoError),
}

/// What to do after a poll.
pub enum PollStep {
    /// Use the descriptor.
    Ready,
    /// Poll again.
    Again,
    /// Give up.
    Fail(IoError),
}

/// The bits with which a poll reports, whatever it was asked for: an error, that the
/// other end hung up, and that the descriptor is not open.
#[derive(Debug, Clone, Copy, PartialEq, Eq, Structural)]
pub struct FaultBits {
    pub error: i16,
    pub hang_up: i16,
    pub invalid: i16,
}

impl FaultBits {
    /// `events` hold one of the three: the other end is gone.
    pub open spec fn among(self, events: i16) -> bool {
        ||| events & self.error != 0
        ||| events & self.hang_up != 0
        ||| events & self.invalid != 0
    }

    /// Whether `events` hold one of the three.
    pub fn is_fault(&self, events: i16) -> (r: bool)
        ensures
            r == self.among(events),
    {
        let error: i16 = self.error;
        let hang_up: i16 = self.hang_up;
        let invalid: i16 = self.invalid;
        assert((events & (error | hang_up | invalid) != 0) == (events & error != 0 || events
            & hang_up != 0 || events & invalid != 0)) by (bit_vector);
        events & (error | hang_up | invalid) != 0
    }
}

/// `r` is what follows a poll that ended at `now`. An error, a hang-up and a descriptor
/// that is not open mean that the other end is gone, which `closed_message` says; other
/// events mean that the descriptor is ready. A poll that was interrupted is repeated, but not at or
/// after the deadline.
pub open spec fn follows_poll(
    outcome: PollOutcome,
    faults: FaultBits,
    closed_message: Seq<char>,
    now: u64,
    deadline: u128,
    r: PollStep,
) -> bool {
    match outcome {
        PollOutcome::Events(bits) => if faults.among(bits) {
            r matches PollStep::Fail(e) && e@ == (IoErrorView {
                kind: ErrorKind::UnexpectedEof,
                message: closed_message,
            })
        } else {
            r is Ready
        },
        PollOutcome::Expired => r matches PollStep::Fail(e) && e@ == ipc_timeout(),
        PollOutcome::Failed(failure) => if failure@.kind != ErrorKind::Interrupted {
            r matches PollStep::Fail(e) && e@ == failure@
        } else if now >= deadline {
            r matches PollStep::Fail(e) && e@ == ipc_timeout()
        } else {
            r is Again
        },
    }
}

/// Goes on after a poll that ended at `now`.
pub fn wait_fd(
    outcome: PollOutcome,
    faults: FaultBits,
    closed_message: &str,
    now: u64,
    deadline: u128,
) -> (r: PollStep)
    ensures
        follows_poll(outcome, faults, closed_message@, now, deadline, r),
{
    match outcome {
        PollOutcome::Events(bits) => if faults.is_fault(bits) {
            PollStep::Fail(IoError::new(ErrorKind::UnexpectedEof, closed_message))
        } else {
            PollStep::Ready
        },
        PollOutcome::Expired => PollStep::Fail(timed_out()),
        PollOutcome::Failed(failure) => if failure.kind != ErrorKind::Interrupted {
            PollStep::Fail(failure)
        } else if now as u128 >= deadline {
            PollStep::Fail(timed_out())
        } else {
            PollStep::Again
        },
    }
}

/// Goes on after a poll of the pipe that the worker answers on.
pub fn wait_readable(outcome: PollOutcome, faults: FaultBits, now: u64, deadline: u128) -> (r: PollStep)
    ensures
        follows_poll(outcome, faults, "worker stdout closed"@, now, deadline, r),
{
    wait_fd(outcome, faults, "worker stdout closed", now, deadline)
}

/// Goes on after a poll of the pipe that the worker is asked on.
pub fn wait_writable(outcome: PollOutcome, faults: FaultBits, now: u64, deadline: u128) -> (r: PollStep)
    ensures
        follows_poll(outcome, faults, "worker stdin closed"@, now, deadline, r),
{
    wait_fd(outcome, faults, "worker stdin closed", now, deadline)
}

/// What the bytes that came in amount to: less than a header, or less than the payload that
/// the header announces, is the beginning of a frame; a header that is none is noticed as
/// soon as it is there; and otherwise the frame is there, every field taken from its place.
pub proof fn law_received(b: Seq<u8>)
    ensures
        ({
            let magic = b.subrange(0, 4) == seq![0x57u8, 0x56u8, 0x32u8, 0x49u8];
            let version = b.subrange(4, 6) == seq![0u8, 1u8];
            let whole = 20 + bytes::u32_at(b, 16);
            &&& b.len() < 20 ==> received_state(b) is More
            &&& b.len() >= 20 && !magic ==> received_state(b) == Received::Bad(
                ProtocolError::BadIpcMagic,
            )
            &&& b.len() >= 20 && magic && !version ==> received_state(b) == Received::Bad(
                ProtocolError::BadIpcVersion,
            )
            &&& b.len() >= 20 && magic && version && b.len() < whole ==> received_state(b) is More
            &&& b.len() >= 20 && magic && version && b.len() >= whole ==> received_state(b)
                == Received::Done(
                FrameView {
                    kind: bytes::u16_at(b, 6),
                    request_id: bytes::u32_at(b, 8),
                    opcode: bytes::u16_at(b, 12),
                    flags: bytes::u16_at(b, 14),
                    payload: b.subrange(20, b.len() as int),
                },
            )
        }),
{
    if b.len() >= 20 {
        protocol::law_header_read(b);
        assert(b.skip(20) =~= b.subrange(20, b.len() as int));
    }
}

/// What is missing is the rest of the header, and then the rest of the payload that the
/// header announces: never a byte of the next frame.
pub proof fn law_missing(b: Seq<u8>)
    ensures
        b.len() < 20 ==> missing(b) + b.len() == 20,
        b.len() >= 20 ==> missing(b) + b.len() == 20 + bytes::u32_at(b, 16),
{
}

/// A poll that brought events makes the pipe ready exactly when none of them is a fault,
/// and says that it is closed otherwise; one that brought none is out of time; one that
/// failed has failed, unless it was only interrupted and there is time to try again.
pub proof fn law_after_poll(
    faults: FaultBits,
    bits: i16,
    failure: IoError,
    message: Seq<char>,
    now: u64,
    deadline: u128,
    r: PollStep,
)
    ensures
        follows_poll(PollOutcome::Events(bits), faults, message, now, deadline, r) <==> (if bits & (
        faults.error | faults.hang_up | faults.invalid) == 0 {
            r is Ready
        } else {
            r is Fail && r->Fail_0.kind == ErrorKind::UnexpectedEof && r->Fail_0.message@ == message
        }),
        follows_poll(PollOutcome::Expired, faults, message, now, deadline, r) <==> r is Fail
            && r->Fail_0.kind == ErrorKind::TimedOut && r->Fail_0.message@
            == "worker ipc response timed out"@,
        failure.kind != ErrorKind::Interrupted ==> (follows_poll(
            PollOutcome::Failed(failure),
            faults,
            message,
            now,
            deadline,
            r,
        ) <==> r is Fail && r->Fail_0.kind == failure.kind && r->Fail_0.message@
            == failure.message@),
        failure.kind == ErrorKind::Interrupted && now < deadline ==> (follows_poll(
            PollOutcome::Failed(failure),
            faults,
            message,
            now,
            deadline,
            r,
        ) <==> r is Again),
        failure.kind == ErrorKind::Interrupted && now >= deadline ==> (follows_poll(
            PollOutcome::Failed(failure),
            faults,
            message,
            now,
            deadline,
            r,
        ) <==> r is Fail && r->Fail_0.kind == ErrorKind::TimedOut && r->Fail_0.message@
            == "worker ipc response timed out"@),
{
    let error = faults.error;
    let hang_up = faults.hang_up;
    let invalid = faults.invalid;
    assert((bits & (error | hang_up | invalid) != 0) == (bits & error != 0 || bits & hang_up != 0
        || bits & invalid != 0)) by (bit_vector);
}

/// Only a read or write that was interrupted, or that found the pipe not ready, is made
/// again.
pub proof fn law_made_again(kind: ErrorKind)
    ensures
        is_transient(kind) <==> kind is Interrupted || kind is WouldBlock,
{
}

} // verus!
