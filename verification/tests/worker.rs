use wrapper_supervisor::error::{ErrorKind, IoError, WorkerError};
use wrapper_supervisor::protocol::{
    read_frame, Frame, KIND_REQUEST, KIND_RESPONSE, OP_DECRYPT_BATCH, OP_HEALTH, OP_PLAYBACK,
};
use wrapper_supervisor::reply::parse_worker_response;
use wrapper_supervisor::settings::{Settings, WorkerEnv};
use wrapper_supervisor::stream::poll_timeout;
use wrapper_supervisor::worker::{
    lock_worker_timeout, probe_ready, probe_request, restart_due, Abandoned, Ask, EnsureStep, Launch,
    LockAttempt, LockStep, Recovery, Request, RequestLock, Slot, SlotStep, StartupFailure,
    StartupStep, Worker, EXIT_RESTART, LOCK_RETRY_MILLIS, RESTART_DELAY_SECS,
};

const MILLI: u64 = 1_000_000;
const SECOND: u64 = 1_000_000_000;

fn settings(startup_secs: &str, busy_ms: &str, restarts: &str, timeout_secs: &str) -> Settings {
    Settings::from_env(&WorkerEnv {
        startup_timeout_secs: Some(startup_secs.to_string()),
        busy_timeout_ms: Some(busy_ms.to_string()),
        max_restarts: Some(restarts.to_string()),
        request_timeout_secs: Some(timeout_secs.to_string()),
        max_waiters: None,
        exit_on_startup_failure: Some("0".to_string()),
    })
}

fn worker_with(settings: Settings) -> Worker {
    Worker::new("/bin/worker", "test".to_string(), settings)
}

fn worker() -> Worker {
    worker_with(settings("5", "500", "2", "5"))
}

fn answer_to(frame: &Frame) -> Frame {
    Frame {
        kind: KIND_RESPONSE,
        request_id: frame.request_id,
        opcode: frame.opcode,
        flags: 0,
        payload: br#"{"http_status":200,"content_type":"application/json","body":""}"#.to_vec(),
    }
}

fn timed_out() -> IoError {
    IoError::new(ErrorKind::TimedOut, "worker ipc response timed out")
}

fn start(w: &mut Worker, pid: u32) {
    assert!(matches!(w.ensure_started(Some(Slot::Empty)), EnsureStep::Start));
    assert_eq!(w.spawn_ready().attempt, 1);
    w.spawn(Launch::Running(pid)).unwrap();
    probe_ready(Ok(answer_to(&probe_request()))).unwrap();
    w.startup_succeeded();
}

fn admitted(w: &mut Worker, now: u64) -> Request {
    match w.request(OP_PLAYBACK, Vec::new(), now, now) {
        Ok(r) => r,
        Err(_) => panic!("the request should be let in"),
    }
}

fn sent(w: &mut Worker, ask: Ask, now: u64) -> Result<Request, WorkerError> {
    w.request(ask.opcode, ask.payload, now, now)
}

fn held(w: &mut Worker, now: u64) -> Request {
    let request = admitted(w, now);
    assert!(matches!(w.request_lock(&request, LockAttempt::Held, now), RequestLock::Proceed));
    request
}

fn refused(r: Result<Request, WorkerError>) -> WorkerError {
    match r {
        Err(e) => e,
        Ok(_) => panic!("the request should be refused"),
    }
}

fn abandoned<T>(r: Result<T, Abandoned>) -> Abandoned {
    match r {
        Err(a) => a,
        Ok(_) => panic!("the worker should be given up"),
    }
}

#[test]
fn healthy_worker_passes_probe_and_serves_health() {
    let mut w = worker_with(settings("5", "500", "2", "5"));
    start(&mut w, 4711);
    assert!(matches!(w.ensure_started(Some(Slot::Alive)), EnsureStep::Ready));
    let request = match sent(&mut w, Worker::health(), SECOND) {
        Ok(r) => r,
        Err(_) => panic!("health should be let in"),
    };
    assert!(matches!(w.request_lock(&request, LockAttempt::Held, SECOND), RequestLock::Proceed));
    assert!(matches!(w.request_slot(&request, Slot::Alive), SlotStep::Send));
    assert!(w.request_written(&request, Ok(())).is_ok());
    let reply = match w.request_reply(&request, Ok(answer_to(&request.frame))) {
        Ok(f) => f,
        Err(_) => panic!("health should succeed"),
    };
    let h = parse_worker_response(reply).unwrap();
    assert_eq!(h.http_status, 200);
    let snap = w.snapshot(2 * SECOND);
    assert_eq!(snap.pid, Some(4711));
    assert_eq!(snap.startup_failures, 0);
}

#[test]
fn wedged_worker_fails_probe_within_startup_timeout() {
    let mut w = worker_with(settings("1", "500", "2", "10"));
    let mut now = 0;
    let mut startup = w.spawn_ready();
    let err = loop {
        w.spawn(Launch::Running(99)).unwrap();
        assert_eq!(w.snapshot(now).pid, Some(99));
        let deadline = w.settings().startup_deadline(now);
        now = deadline as u64;
        let late = poll_timeout(now, deadline).unwrap_err();
        assert!(matches!(probe_ready(Err(late)), Err(WorkerError::Io(_))));
        match w.startup_failed(startup, StartupFailure::Probe) {
            StartupStep::Retry(following, secs) => {
                startup = following;
                now += secs * SECOND;
            }
            StartupStep::GiveUp(e) => break e,
            StartupStep::Exit(_) => panic!("the supervisor should go on serving"),
        }
    };
    assert!(
        err.to_string().contains("failed to become ready"),
        "unexpected error"
    );
    assert_eq!(err.to_string(), "worker failed to become ready after 2 attempts");
    assert!(now < 8 * SECOND, "probe failure took too long");
    assert_eq!(now, 3 * SECOND);
    assert_eq!(w.snapshot(now).startup_failures, 2);
    assert_eq!(w.snapshot(now).pid, None);
}

#[test]
fn busy_worker_fails_fast_instead_of_waiting_full_timeout() {
    let mut w = worker_with(settings("5", "300", "2", "3"));
    start(&mut w, 7);
    let first = held(&mut w, 0);
    let begin = 200 * MILLI;
    let second = admitted(&mut w, begin);
    assert_eq!(w.snapshot(begin).waiting_count, 1);
    let mut now = begin;
    let (err, recovery) = loop {
        match w.request_lock(&second, LockAttempt::Busy, now) {
            RequestLock::Retry(millis) => now += millis * MILLI,
            RequestLock::Fail(e, recovery) => break (e, recovery),
            RequestLock::Proceed => panic!("the worker is not free"),
        }
    };
    assert!(
        err.to_string().contains("worker busy timed out"),
        "unexpected error"
    );
    assert!(now - begin < 2500 * MILLI, "second request waited too long");
    assert_eq!(now - begin, 300 * MILLI);
    assert_eq!(recovery, Recovery::Kill(7));
    let snap = w.snapshot(now);
    assert_eq!((snap.waiting_count, snap.timeout_count, snap.restart_count), (0, 1, 1));
    assert_eq!(snap.pid, None);
    assert_eq!(snap.last_error, Some("worker busy timed out".to_string()));
    assert_eq!(snap.last_restart_reason, Some("lock wait timeout".to_string()));
    assert_eq!(snap.current_request.map(|c| c.id), Some(first.frame.request_id));
}

#[test]
fn new_record() {
    let w = worker();
    assert_eq!(w.launcher(), "/bin/worker");
    assert_eq!(w.version(), "test");
    let snap = w.snapshot(9);
    assert_eq!(snap.pid, None);
    assert_eq!((snap.request_timeout_secs, snap.startup_timeout_secs), (5, 5));
    assert_eq!((snap.busy_timeout_ms, snap.max_waiters, snap.max_restarts), (500, 16, 2));
    assert_eq!((snap.restart_count, snap.timeout_count), (0, 0));
    assert_eq!((snap.waiting_count, snap.startup_failures), (0, 0));
    assert_eq!(snap.current_request, None);
    assert_eq!((snap.last_error, snap.last_restart_reason), (None, None));
}

#[test]
fn request_frames_are_numbered() {
    let mut w = worker();
    for id in 1..4 {
        let r = w.request(OP_PLAYBACK, vec![id as u8], 10, 13).ok().unwrap();
        assert_eq!((r.frame.kind, r.frame.request_id), (KIND_REQUEST, id));
        assert_eq!((r.frame.opcode, r.frame.flags), (OP_PLAYBACK, 0));
        assert_eq!(r.frame.payload, vec![id as u8]);
        assert_eq!(r.request_deadline, 5_000_000_010);
        assert_eq!(r.lock_deadline, 500_000_013);
    }
    assert_eq!(w.snapshot(10).waiting_count, 3);
}

#[test]
fn full_queue_turns_requests_away() {
    let mut s = settings("5", "500", "2", "5");
    s.max_waiters = 2;
    let mut w = worker_with(s);
    admitted(&mut w, 0);
    let second = admitted(&mut w, 0);
    let err = refused(w.request(OP_PLAYBACK, Vec::new(), 0, 0));
    assert!(matches!(err, WorkerError::Unavailable(_)));
    assert_eq!(err.to_string(), "worker busy: 2 requests already waiting");
    assert_eq!(w.snapshot(0).waiting_count, 2);
    assert_eq!(w.snapshot(0).last_error, None);
    assert!(matches!(w.request_lock(&second, LockAttempt::Held, 0), RequestLock::Proceed));
    assert_eq!(admitted(&mut w, 0).frame.request_id, 4);
}

#[test]
fn request_leaves_nothing_behind() {
    let mut w = worker();
    let r = held(&mut w, 5);
    let snap = w.snapshot(5 + 1_999_999);
    assert_eq!(snap.waiting_count, 0);
    let current = snap.current_request.unwrap();
    assert_eq!((current.id, current.opcode, current.elapsed_ms), (1, OP_PLAYBACK, 1));
    assert!(w.request_reply(&r, Ok(answer_to(&r.frame))).is_ok());
    assert_eq!(w.snapshot(9).current_request, None);
    let r = held(&mut w, 5);
    abandoned(w.request_written(&r, Err(timed_out())));
    assert_eq!(w.snapshot(9).current_request, None);
    let r = held(&mut w, 5);
    let e = w.request_without_worker(&r, WorkerError::Unavailable("x".to_string()));
    assert_eq!(e.to_string(), "x");
    assert_eq!(w.snapshot(9).current_request, None);
    assert_eq!(w.snapshot(9).waiting_count, 0);
}

#[test]
fn broken_lock_ends_the_request() {
    let mut w = worker();
    let r = admitted(&mut w, 0);
    match w.request_lock(&r, LockAttempt::Poisoned, 0) {
        RequestLock::Fail(e, recovery) => {
            assert!(matches!(e, WorkerError::Unavailable(_)));
            assert_eq!(e.to_string(), "worker mutex poisoned");
            assert_eq!(recovery, Recovery::Wait);
        }
        _ => panic!("the request should end"),
    }
    let snap = w.snapshot(0);
    assert_eq!((snap.waiting_count, snap.timeout_count), (0, 0));
    assert_eq!(snap.last_error, Some("worker mutex poisoned".to_string()));
}

#[test]
fn lock_steps() {
    assert!(matches!(lock_worker_timeout(LockAttempt::Held, 9, 5), LockStep::Proceed));
    match lock_worker_timeout(LockAttempt::Busy, 4, 5) {
        LockStep::Retry(millis) => assert_eq!(millis, LOCK_RETRY_MILLIS),
        _ => panic!("there is time left"),
    }
    assert_eq!(LOCK_RETRY_MILLIS, 10);
    assert!(matches!(lock_worker_timeout(LockAttempt::Busy, 5, 5), LockStep::Fail(_)));
    assert!(matches!(lock_worker_timeout(LockAttempt::Poisoned, 0, 5), LockStep::Fail(_)));
}

#[test]
fn young_request_is_left_alone() {
    let mut w = worker();
    start(&mut w, 7);
    assert_eq!(w.recover_stuck_worker_or_exit("x", 999 * SECOND), Recovery::Wait);
    w.track_request(1, OP_PLAYBACK, 100);
    assert_eq!(w.recover_stuck_worker_or_exit("x", 100 + 500 * MILLI - 1), Recovery::Wait);
    assert_eq!(w.snapshot(0).restart_count, 0);
    assert_eq!(w.snapshot(0).pid, Some(7));
    assert_eq!(w.recover_stuck_worker_or_exit("x", 100 + 500 * MILLI), Recovery::Kill(7));
    assert_eq!(w.snapshot(0).restart_count, 1);
    assert_eq!(w.recover_stuck_worker_or_exit("x", 999 * SECOND), Recovery::Exit(EXIT_RESTART));
    assert_eq!(EXIT_RESTART, 70);
    assert_eq!(w.snapshot(0).restart_count, 1);
}

#[test]
fn clock_that_seems_to_go_back_means_no_time_passed() {
    let mut w = worker();
    w.track_request(1, OP_PLAYBACK, 100);
    assert_eq!(w.recover_stuck_worker_or_exit("x", 0), Recovery::Wait);
    assert_eq!(w.snapshot(0).current_request.unwrap().elapsed_ms, 0);
}

#[test]
fn end_of_one_request_keeps_the_other() {
    let mut w = worker();
    w.track_request(2, OP_PLAYBACK, 0);
    w.untrack_request(1);
    assert_eq!(w.snapshot(0).current_request.unwrap().id, 2);
    w.untrack_request(2);
    assert_eq!(w.snapshot(0).current_request, None);
}

#[test]
fn waits_are_balanced() {
    let mut w = worker();
    w.untrack_wait();
    assert_eq!(w.snapshot(0).waiting_count, u32::MAX);
    w.track_wait();
    assert_eq!(w.snapshot(0).waiting_count, 0);
    w.track_wait();
    w.untrack_wait();
    assert_eq!(w.snapshot(0).waiting_count, 0);
}

#[test]
fn slot_decides_what_to_do_first() {
    let mut w = worker();
    let r = held(&mut w, 0);
    assert!(matches!(w.request_slot(&r, Slot::Empty), SlotStep::StartAndCheck));
    assert!(matches!(w.request_slot(&r, Slot::Exited), SlotStep::StartAndSend));
    assert!(matches!(w.request_slot(&r, Slot::Alive), SlotStep::Send));
    assert!(w.snapshot(0).current_request.is_some());
    match w.request_slot(&r, Slot::Unknown(IoError::new(ErrorKind::Other, "echild"))) {
        SlotStep::Fail(WorkerError::Io(text)) => assert_eq!(text, "echild"),
        _ => panic!("the request should end"),
    }
    assert_eq!(w.snapshot(0).current_request, None);
    assert_eq!(w.snapshot(0).last_error, None);
}

#[test]
fn failures_on_the_pipes_discard_the_worker() {
    let other = || IoError::new(ErrorKind::UnexpectedEof, "gone");
    let mut w = worker();
    let cases = [
        (true, timed_out(), "write timeout", 1),
        (true, other(), "ipc write error", 1),
        (false, timed_out(), "response timeout", 2),
        (false, other(), "ipc read error", 2),
    ];
    let mut restarts = 0;
    for (writing, e, reason, timeouts) in cases {
        start(&mut w, 5);
        let r = held(&mut w, 0);
        let message = e.message.clone();
        let a = if writing {
            abandoned(w.request_written(&r, Err(e)))
        } else {
            abandoned(w.request_reply(&r, Err(e)))
        };
        restarts += 1;
        assert_eq!(a.reason, reason);
        assert!(matches!(a.error, WorkerError::Io(_)));
        assert_eq!(a.error.to_string(), message);
        let snap = w.snapshot(0);
        assert_eq!((snap.pid, snap.restart_count, snap.timeout_count), (None, restarts, timeouts));
        assert_eq!(snap.last_error, Some(message));
        assert_eq!(snap.last_restart_reason, Some(reason.to_string()));
    }
}

#[test]
fn answer_to_another_request_discards_the_worker() {
    for change in 0..3 {
        let mut w = worker();
        start(&mut w, 5);
        let r = held(&mut w, 0);
        let mut reply = answer_to(&r.frame);
        match change {
            0 => reply.kind = KIND_REQUEST,
            1 => reply.request_id += 1,
            _ => reply.opcode = OP_HEALTH,
        }
        let a = abandoned(w.request_reply(&r, Ok(reply)));
        assert_eq!(a.reason, "mismatched ipc response");
        assert!(matches!(a.error, WorkerError::Protocol(_)));
        assert_eq!(a.error.to_string(), "mismatched ipc response");
        let snap = w.snapshot(0);
        assert_eq!((snap.pid, snap.restart_count, snap.timeout_count), (None, 1, 0));
        assert_eq!(snap.last_error, Some("mismatched ipc response".to_string()));
        assert_eq!(snap.current_request, None);
    }
}

#[test]
fn answer_clears_startup_failures() {
    let mut w = worker();
    let startup = w.spawn_ready();
    w.startup_failed(startup, StartupFailure::Spawn);
    assert_eq!(w.snapshot(0).startup_failures, 1);
    let r = held(&mut w, 0);
    assert!(w.request_reply(&r, Ok(answer_to(&r.frame))).is_ok());
    assert_eq!(w.snapshot(0).startup_failures, 0);
}

#[test]
fn probe_asks_for_health() {
    let probe = probe_request();
    assert_eq!((probe.kind, probe.request_id, probe.opcode), (KIND_REQUEST, 0, OP_HEALTH));
    assert_eq!((probe.flags, probe.payload.len()), (0, 0));
}

#[test]
fn probe_accepts_any_health_response() {
    let mut reply = answer_to(&probe_request());
    reply.request_id = 12345;
    assert!(probe_ready(Ok(reply.clone())).is_ok());
    reply.kind = KIND_REQUEST;
    let text = "worker returned a non-health frame during startup probe";
    assert_eq!(probe_ready(Ok(reply.clone())).unwrap_err().to_string(), text);
    reply.kind = KIND_RESPONSE;
    reply.opcode = OP_PLAYBACK;
    let e = probe_ready(Ok(reply)).unwrap_err();
    assert!(matches!(e, WorkerError::Protocol(_)));
    assert_eq!(e.to_string(), text);
    let e = probe_ready(Err(timed_out())).unwrap_err();
    assert!(matches!(e, WorkerError::Io(_)));
    assert_eq!(e.to_string(), "worker ipc response timed out");
}

#[test]
fn launches() {
    let mut w = worker();
    for (launch, text) in [
        (Launch::Failed(IoError::new(ErrorKind::Other, "enoent")), "enoent"),
        (Launch::NoStdin, "worker stdin unavailable"),
        (Launch::NoStdout, "worker stdout unavailable"),
        (Launch::Blocking(IoError::new(ErrorKind::Other, "ebadf")), "ebadf"),
    ] {
        let e = w.spawn(launch).unwrap_err();
        assert!(matches!(e, WorkerError::Io(_)));
        assert_eq!(e.to_string(), text);
        assert_eq!(w.snapshot(0).pid, None);
    }
    w.spawn(Launch::Running(3)).unwrap();
    assert_eq!(w.snapshot(0).pid, Some(3));
}

#[test]
fn exiting_supervisor_exits_at_the_last_failure() {
    let mut s = settings("5", "500", "3", "5");
    s.exit_on_startup_failure = true;
    let mut w = worker_with(s);
    let mut startup = w.spawn_ready();
    assert_eq!((startup.attempt, startup.attempts), (1, 3));
    for attempt in 2..4 {
        match w.startup_failed(startup, StartupFailure::Spawn) {
            StartupStep::Retry(following, secs) => {
                assert_eq!((following.attempt, following.attempts), (attempt, 3));
                assert_eq!(secs, RESTART_DELAY_SECS);
                startup = following;
            }
            _ => panic!("there are attempts left"),
        }
    }
    match w.startup_failed(startup, StartupFailure::Probe) {
        StartupStep::Exit(status) => assert_eq!(status, 70),
        _ => panic!("the supervisor should exit"),
    }
    assert_eq!(w.snapshot(0).startup_failures, 3);
}

#[test]
fn failures_of_earlier_runs_count() {
    let mut s = settings("5", "500", "2", "5");
    s.exit_on_startup_failure = true;
    let mut w = worker_with(s);
    assert_eq!(w.note_startup_failure(), None);
    let startup = w.spawn_ready();
    assert!(matches!(w.startup_failed(startup, StartupFailure::Spawn), StartupStep::Exit(70)));
    s.exit_on_startup_failure = false;
    let mut w = worker_with(s);
    for _ in 0..5 {
        assert_eq!(w.note_startup_failure(), None);
    }
}

#[test]
fn at_least_one_startup_is_tried() {
    let mut s = settings("5", "500", "2", "5");
    s.max_startup_failures = 0;
    let mut w = worker_with(s);
    let startup = w.spawn_ready();
    assert_eq!((startup.attempt, startup.attempts), (1, 1));
    match w.startup_failed(startup, StartupFailure::Spawn) {
        StartupStep::GiveUp(e) => {
            assert_eq!(e.to_string(), "worker failed to become ready after 1 attempts");
        }
        _ => panic!("there is no attempt left"),
    }
}

#[test]
fn failed_spawn_keeps_the_process_id() {
    let mut w = worker();
    start(&mut w, 5);
    let startup = w.spawn_ready();
    w.startup_failed(startup, StartupFailure::Spawn);
    assert_eq!(w.snapshot(0).pid, Some(5));
    w.startup_failed(startup, StartupFailure::Probe);
    assert_eq!(w.snapshot(0).pid, None);
}

#[test]
fn places_for_the_worker() {
    let mut w = worker();
    start(&mut w, 5);
    match w.ensure_started(None) {
        EnsureStep::Fail(WorkerError::Unavailable(e)) => assert_eq!(e, "worker mutex poisoned"),
        _ => panic!("the lock is broken"),
    }
    match w.ensure_started(Some(Slot::Unknown(IoError::new(ErrorKind::Other, "echild")))) {
        EnsureStep::Fail(WorkerError::Io(e)) => assert_eq!(e, "echild"),
        _ => panic!("the process is not known"),
    }
    assert_eq!(w.snapshot(0).pid, Some(5));
    assert!(matches!(w.ensure_started(Some(Slot::Exited)), EnsureStep::Start));
    assert_eq!(w.snapshot(0).pid, None);
}

#[test]
fn worker_asks_to_be_restarted() {
    let mut w = worker();
    start(&mut w, 5);
    assert!(w.restart_after_delay(true).is_none());
    assert_eq!(w.snapshot(0).pid, Some(5));
    let restart = w.restart_after_delay(false).unwrap();
    assert_eq!(restart.reason, "restart requested by worker response");
    assert_eq!(restart.delay_secs, 1);
    let snap = w.snapshot(0);
    assert_eq!((snap.pid, snap.restart_count), (None, 1));
    assert_eq!(
        snap.last_restart_reason,
        Some("restart requested by worker response".to_string())
    );
    assert!(restart_due(false, false));
    assert!(!restart_due(false, true));
    assert!(!restart_due(true, false));
}

#[test]
fn json_requests() {
    let mut w = worker();
    let value: serde_json::Value = serde_json::from_str(r#"{ "adam_id" : "1" }"#).unwrap();
    let ask = Worker::request_json(OP_PLAYBACK, &value).unwrap();
    let r = sent(&mut w, ask, 0).ok().unwrap();
    assert_eq!(r.frame.payload, br#"{"adam_id":"1"}"#);
    assert_eq!(r.frame.opcode, OP_PLAYBACK);
    let ask = Worker::request_json(OP_HEALTH, &serde_json::Value::Null).unwrap();
    let r = sent(&mut w, ask, 0).ok().unwrap();
    assert_eq!(r.frame.payload, b"");
    let r = sent(&mut w, Worker::health(), 0).ok().unwrap();
    assert_eq!((r.frame.opcode, r.frame.payload.len(), r.frame.request_id), (OP_HEALTH, 0, 3));
}

#[test]
fn decrypt_requests() {
    let mut w = worker();
    let err = match Worker::decrypt_batch("1", "u", vec![vec![]]) {
        Err(e) => e,
        Ok(_) => panic!("an empty sample should be refused"),
    };
    assert!(matches!(err, WorkerError::Protocol(_)));
    assert_eq!(err.to_string(), "invalid decrypt sample length");
    let ask = Worker::decrypt_batch("1", "u", vec![vec![7]]).unwrap();
    assert_eq!(ask.opcode, OP_DECRYPT_BATCH);
    let r = sent(&mut w, ask, 0).ok().unwrap();
    assert_eq!((r.frame.request_id, r.frame.opcode), (1, OP_DECRYPT_BATCH));
    assert_eq!(r.frame.payload, vec![0, 1, 0, 1, 0, 0, 0, 1, 0, 0, 0, 1, b'1', b'u', 7]);
    let mut bytes = Vec::new();
    wrapper_supervisor::protocol::write_frame(&mut bytes, &r.frame).unwrap();
    assert_eq!(read_frame(&bytes).unwrap().payload, r.frame.payload);
}

#[test]
fn fresh_worker_serves_after_a_failure() {
    for failure in 0..3 {
        let mut w = worker();
        start(&mut w, 5);
        let r = held(&mut w, 0);
        match failure {
            0 => {
                abandoned(w.request_reply(&r, Err(timed_out())));
            }
            1 => {
                abandoned(w.request_reply(&r, Ok(probe_request())));
            }
            _ => {
                assert!(w.request_reply(&r, Ok(answer_to(&r.frame))).is_ok());
                w.restart_after_delay(false).unwrap();
            }
        }
        assert_eq!(w.snapshot(0).pid, None);
        let r = held(&mut w, SECOND);
        assert!(matches!(w.request_slot(&r, Slot::Empty), SlotStep::StartAndCheck));
        start(&mut w, 6);
        assert!(matches!(w.request_slot(&r, Slot::Alive), SlotStep::Send));
        assert!(w.request_written(&r, Ok(())).is_ok());
        assert!(w.request_reply(&r, Ok(answer_to(&r.frame))).is_ok());
        let snap = w.snapshot(SECOND);
        assert_eq!((snap.pid, snap.startup_failures), (Some(6), 0));
        assert_eq!((snap.waiting_count, snap.restart_count), (0, 1));
        assert_eq!(snap.current_request, None);
    }
}

#[test]
fn queue_stays_bounded() {
    let mut s = settings("5", "500", "2", "5");
    s.max_waiters = 2;
    let mut w = worker_with(s);
    let first = admitted(&mut w, 0);
    let second = admitted(&mut w, 0);
    refused(w.request(OP_PLAYBACK, Vec::new(), 0, 0));
    assert_eq!(w.snapshot(0).waiting_count, 2);
    assert!(matches!(w.request_lock(&first, LockAttempt::Held, 0), RequestLock::Proceed));
    assert_eq!(w.snapshot(0).waiting_count, 1);
    let step = w.request_lock(&second, LockAttempt::Busy, SECOND);
    assert!(matches!(step, RequestLock::Fail(_, _)));
    assert_eq!(w.snapshot(0).waiting_count, 0);
    let third = admitted(&mut w, SECOND);
    let step = w.request_lock(&third, LockAttempt::Poisoned, SECOND);
    assert!(matches!(step, RequestLock::Fail(_, _)));
    abandoned(w.request_written(&first, Err(timed_out())));
    assert_eq!(w.snapshot(0).waiting_count, 0);
}
