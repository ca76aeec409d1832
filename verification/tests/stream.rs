use wrapper_supervisor::error::{ErrorKind, IoError};
use wrapper_supervisor::protocol::{read_frame, Frame, KIND_RESPONSE, OP_ME};
use wrapper_supervisor::stream::{
    poll_timeout, wait_fd, wait_readable, wait_writable, FaultBits, FrameReader, FrameWriter,
    PollOutcome, PollStep, ReadState, WriteState,
};

fn frame(payload: &[u8]) -> Frame {
    Frame {
        kind: KIND_RESPONSE,
        request_id: 77,
        opcode: OP_ME,
        flags: 3,
        payload: payload.to_vec(),
    }
}

fn bytes_of(frame: &Frame) -> Vec<u8> {
    FrameWriter::new(frame).unwrap().pending().to_vec()
}

fn more(state: Result<ReadState, IoError>) -> FrameReader {
    match state {
        Ok(ReadState::More(r)) => r,
        _ => panic!("the frame should not be complete"),
    }
}

fn done(state: Result<ReadState, IoError>) -> Frame {
    match state {
        Ok(ReadState::Done(f)) => f,
        _ => panic!("the frame should be complete"),
    }
}

fn failure(state: Result<ReadState, IoError>) -> IoError {
    match state {
        Err(e) => e,
        _ => panic!("the read should have failed"),
    }
}

fn unsent(state: Result<WriteState, IoError>) -> FrameWriter {
    match state {
        Ok(WriteState::More(w)) => w,
        _ => panic!("the frame should not be sent yet"),
    }
}

fn write_failure(state: Result<WriteState, IoError>) -> IoError {
    match state {
        Err(e) => e,
        _ => panic!("the write should have failed"),
    }
}

#[test]
fn frame_comes_in_byte_by_byte() {
    let sent = frame(b"abc");
    let bytes = bytes_of(&sent);
    let mut reader = FrameReader::new();
    for i in 0..bytes.len() - 1 {
        reader = more(reader.progress(Ok(vec![bytes[i]])));
    }
    let got = done(reader.progress(Ok(vec![bytes[bytes.len() - 1]])));
    assert_eq!((got.kind, got.request_id, got.opcode, got.flags), (2, 77, 2, 3));
    assert_eq!(got.payload, b"abc");
    assert_eq!(read_frame(&bytes).unwrap().payload, got.payload);
}

#[test]
fn frame_comes_in_two_reads() {
    let bytes = bytes_of(&frame(b"abc"));
    let reader = FrameReader::new();
    assert_eq!(reader.wanted(), 20);
    let reader = more(reader.progress(Ok(bytes[0..20].to_vec())));
    assert_eq!(reader.wanted(), 3);
    let got = done(reader.progress(Ok(bytes[20..].to_vec())));
    assert_eq!(got.payload, b"abc");
}

#[test]
fn frame_without_payload_ends_with_its_header() {
    let bytes = bytes_of(&frame(b""));
    assert_eq!(bytes.len(), 20);
    let got = done(FrameReader::new().progress(Ok(bytes)));
    assert_eq!(got.payload, b"");
    assert_eq!(got.request_id, 77);
}

#[test]
fn closed_pipe_ends_the_read() {
    let e = failure(FrameReader::new().progress(Ok(Vec::new())));
    assert_eq!(e.kind, ErrorKind::UnexpectedEof);
    assert_eq!(e.message, "worker stdout closed");
}

#[test]
fn read_is_tried_again() {
    let bytes = bytes_of(&frame(b"x"));
    let reader = more(FrameReader::new().progress(Ok(bytes[0..5].to_vec())));
    let reader = more(reader.progress(Err(IoError::new(ErrorKind::Interrupted, "eintr"))));
    let reader = more(reader.progress(Err(IoError::new(ErrorKind::WouldBlock, "eagain"))));
    assert_eq!(reader.wanted(), 15);
    let e = failure(reader.progress(Err(IoError::new(ErrorKind::Other, "gone"))));
    assert_eq!(e.kind, ErrorKind::Other);
    assert_eq!(e.message, "gone");
}

#[test]
fn bad_header_ends_the_read() {
    let mut bytes = bytes_of(&frame(b"x"));
    bytes[5] = 9;
    let e = failure(FrameReader::new().progress(Ok(bytes[0..20].to_vec())));
    assert_eq!(e.kind, ErrorKind::InvalidData);
    assert_eq!(e.message, "bad ipc version");
    bytes[0] = 0;
    let e = failure(FrameReader::new().progress(Ok(bytes[0..20].to_vec())));
    assert_eq!(e.message, "bad ipc magic");
}

#[test]
fn frame_is_sent_in_pieces() {
    let sent = frame(b"abc");
    let whole = bytes_of(&sent);
    let mut writer = FrameWriter::new(&sent).unwrap();
    let mut out = Vec::new();
    for n in [1, 2, 18] {
        out.extend_from_slice(&writer.pending()[0..n]);
        writer = unsent(writer.progress(Ok(n)));
        writer = unsent(writer.progress(Err(IoError::new(ErrorKind::WouldBlock, "eagain"))));
        writer = unsent(writer.progress(Err(IoError::new(ErrorKind::Interrupted, "eintr"))));
    }
    assert_eq!(writer.pending(), &whole[21..]);
    out.extend_from_slice(writer.pending());
    assert!(matches!(writer.progress(Ok(2)), Ok(WriteState::Done)));
    assert_eq!(out, whole);
    assert_eq!(read_frame(&out).unwrap().payload, b"abc");
}

#[test]
fn closed_pipe_ends_the_write() {
    let e = write_failure(FrameWriter::new(&frame(b"")).unwrap().progress(Ok(0)));
    assert_eq!(e.kind, ErrorKind::WriteZero);
    assert_eq!(e.message, "worker stdin closed");
    let broken = Err(IoError::new(ErrorKind::Other, "epipe"));
    let e = write_failure(FrameWriter::new(&frame(b"")).unwrap().progress(broken));
    assert_eq!(e.kind, ErrorKind::Other);
    assert_eq!(e.message, "epipe");
}

#[test]
fn poll_takes_what_is_left() {
    assert_eq!(poll_timeout(5, 3_999_999 + 5).unwrap(), 3);
    assert_eq!(poll_timeout(5, 4_000_000 + 5).unwrap(), 4);
    assert_eq!(poll_timeout(5, 6).unwrap(), 0);
    assert_eq!(poll_timeout(0, u128::MAX).unwrap(), i32::MAX);
    for deadline in [0, 4, 5] {
        let e = poll_timeout(5, deadline).unwrap_err();
        assert_eq!(e.kind, ErrorKind::TimedOut);
        assert_eq!(e.message, "worker ipc response timed out");
    }
}

const FAULTS: FaultBits = FaultBits { error: 8, hang_up: 16, invalid: 32 };

fn poll_failure(step: PollStep) -> IoError {
    match step {
        PollStep::Fail(e) => e,
        _ => panic!("the wait should have failed"),
    }
}

#[test]
fn events_after_a_poll() {
    for bits in [0, 1, 4, 5, 2, 64] {
        let step = wait_fd(PollOutcome::Events(bits), FAULTS, "closed", 0, 9);
        assert!(matches!(step, PollStep::Ready));
    }
    for bits in [8, 16, 32, 1 | 8, 1 | 16, 4 | 32, 8 | 16 | 32] {
        let e = poll_failure(wait_fd(PollOutcome::Events(bits), FAULTS, "closed", 0, 9));
        assert_eq!(e.kind, ErrorKind::UnexpectedEof);
        assert_eq!(e.message, "closed");
    }
}

#[test]
fn polls_without_events() {
    let e = poll_failure(wait_fd(PollOutcome::Expired, FAULTS, "closed", 0, 9));
    assert_eq!(e.kind, ErrorKind::TimedOut);
    assert_eq!(e.message, "worker ipc response timed out");
    let interrupted = || PollOutcome::Failed(IoError::new(ErrorKind::Interrupted, "eintr"));
    assert!(matches!(wait_fd(interrupted(), FAULTS, "closed", 8, 9), PollStep::Again));
    let e = poll_failure(wait_fd(interrupted(), FAULTS, "closed", 9, 9));
    assert_eq!(e.kind, ErrorKind::TimedOut);
    let broken = PollOutcome::Failed(IoError::new(ErrorKind::Other, "ebadf"));
    let e = poll_failure(wait_fd(broken, FAULTS, "closed", 0, 9));
    assert_eq!(e.kind, ErrorKind::Other);
    assert_eq!(e.message, "ebadf");
}

#[test]
fn closed_pipes_are_told_apart() {
    let e = poll_failure(wait_readable(PollOutcome::Events(16), FAULTS, 0, 9));
    assert_eq!(e.kind, ErrorKind::UnexpectedEof);
    assert_eq!(e.message, "worker stdout closed");
    let e = poll_failure(wait_writable(PollOutcome::Events(16), FAULTS, 0, 9));
    assert_eq!(e.kind, ErrorKind::UnexpectedEof);
    assert_eq!(e.message, "worker stdin closed");
    assert!(matches!(wait_readable(PollOutcome::Events(1), FAULTS, 0, 9), PollStep::Ready));
    assert!(matches!(wait_writable(PollOutcome::Events(4), FAULTS, 0, 9), PollStep::Ready));
    let e = poll_failure(wait_writable(PollOutcome::Expired, FAULTS, 0, 9));
    assert_eq!(e.kind, ErrorKind::TimedOut);
}

#[test]
fn each_fault_bit_counts_alone() {
    for bits in 0..64 {
        assert_eq!(FAULTS.is_fault(bits), bits >= 8);
    }
    let none = FaultBits { error: 0, hang_up: 0, invalid: 0 };
    assert!(!none.is_fault(-1));
    assert!(FaultBits { error: 0, hang_up: 0, invalid: i16::MIN }.is_fault(-1));
}
