//! The one worker process: what is known of it, who may use it, and what is to
//! be done when it fails.
//!
//! The process, its pipes and the lock on them belong to the caller. A
//! [`Worker`] is the record kept beside them, and each of its methods is one
//! decision: it is told what happened, brings the record up to date, and says
//! what to do next. Times are nanoseconds on one clock that never goes back.

use vstd::prelude::*;
use vstd::utf8;

use crate::batch;
use crate::error::{io_err, ErrorKind, IoError, IoErrorView, WorkerError, WorkerErrorView};
use crate::json;
use crate::json::Json;
use crate::layout;
use crate::protocol;
use crate::protocol::{Frame, FrameView};
use crate::reply;
use crate::settings::{Settings, NANOS_PER_MILLI};
use crate::text;

verus! {

/// The exit status that asks the platform to restart the whole process.
pub const EXIT_RESTART: i32 = 70;

/// How long to wait between two attempts to get hold of a worker in use.
pub const LOCK_RETRY_MILLIS: u64 = 10;

/// How long to wait before another worker is started.
pub const RESTART_DELAY_SECS: u64 = 1;

/// The request that the worker is working on.
#[derive(Debug, Clone, Copy, PartialEq, Eq, Structural)]
pub struct CurrentRequest {
    pub id: u32,
    pub opcode: u16,
    pub started: u64,
}

/// The record kept of the worker process.
pub struct Worker {
    launcher: String,
    version: String,
    settings: Settings,
    next_id: u32,
    restart_count: u32,
    timeout_count: u32,
    waiting_count: u32,
    startup_failures: u32,
    pid: u32,
    current: Option<CurrentRequest>,
    last_error: Option<String>,
    last_restart_reason: Option<String>,
}

/// What the record says. The process id is zero while there is no worker that
/// can be signalled.
#[verifier::ext_equal]
pub struct WorkerView {
    pub launcher: Seq<char>,
    pub version: Seq<char>,
    pub settings: Settings,
    pub next_id: u32,
    pub restart_count: u32,
    pub timeout_count: u32,
    pub waiting_count: u32,
    pub startup_failures: u32,
    pub pid: u32,
    pub current: Option<CurrentRequest>,
    pub last_error: Option<Seq<char>>,
    pub last_restart_reason: Option<Seq<char>>,
}

/// The text of an optional string.
pub open spec fn opt_text(s: Option<String>) -> Option<Seq<char>> {
    match s {
        Some(s) => Some(s@),
        None => None,
    }
}

impl View for Worker {
    type V = WorkerView;

    closed spec fn view(&self) -> WorkerView {
        WorkerView {
            launcher: self.launcher@,
            version: self.version@,
            settings: self.settings,
            next_id: self.next_id,
            restart_count: self.restart_count,
            timeout_count: self.timeout_count,
            waiting_count: self.waiting_count,
            startup_failures: self.startup_failures,
            pid: self.pid,
            current: self.current,
            last_error: opt_text(self.last_error),
            last_restart_reason: opt_text(self.last_restart_reason),
        }
    }
}

/// The number after `n` on a 32-bit counter that starts again at zero.
pub open spec fn next(n: u32) -> u32 {
    if n == u32::MAX {
        0
    } else {
        (n + 1) as u32
    }
}

/// The number before `n` on such a counter.
pub open spec fn previous(n: u32) -> u32 {
    if n == 0 {
        u32::MAX
    } else {
        (n - 1) as u32
    }
}

/// The time from `started` to `now`.
pub open spec fn elapsed(started: u64, now: u64) -> nat {
    if now >= started {
        (now - started) as nat
    } else {
        0
    }
}

/// What is to be done about a worker that does not answer.
#[derive(Debug, Clone, Copy, PartialEq, Eq, Structural)]
pub enum Recovery {
    /// Nothing: the current request may still end in time.
    Wait,
    /// Kill the process of this id.
    Kill(u32),
    /// Exit with this status: no process is known that could be killed.
    Exit(i32),
}

impl WorkerView {
    /// One more request waits.
    pub open spec fn waiting(self) -> WorkerView {
        WorkerView { waiting_count: next(self.waiting_count), ..self }
    }

    /// One request less waits.
    pub open spec fn not_waiting(self) -> WorkerView {
        WorkerView { waiting_count: previous(self.waiting_count), ..self }
    }

    /// The worker works on the request `id` since `now`.
    pub open spec fn working_on(self, id: u32, opcode: u16, now: u64) -> WorkerView {
        WorkerView { current: Some(CurrentRequest { id, opcode, started: now }), ..self }
    }

    /// The worker no longer works on the request `id`. What it does about any
    /// other request stays.
    pub open spec fn done_with(self, id: u32) -> WorkerView {
        match self.current {
            Some(c) => if c.id == id {
                WorkerView { current: None, ..self }
            } else {
                self
            },
            None => self,
        }
    }

    /// `error` is the last error.
    pub open spec fn with_error(self, error: Seq<char>) -> WorkerView {
        WorkerView { last_error: Some(error), ..self }
    }

    /// One more restart, for `reason`.
    pub open spec fn with_restart(self, reason: Seq<char>) -> WorkerView {
        WorkerView {
            restart_count: next(self.restart_count),
            last_restart_reason: Some(reason),
            ..self
        }
    }

    /// There is no worker process.
    pub open spec fn without_process(self) -> WorkerView {
        WorkerView { pid: 0, ..self }
    }

    /// The worker process was given up for `reason`.
    pub open spec fn abandoned(self, reason: Seq<char>) -> WorkerView {
        self.without_process().with_restart(reason)
    }

    /// One more request ran out of time.
    pub open spec fn with_timeout(self) -> WorkerView {
        WorkerView { timeout_count: next(self.timeout_count), ..self }
    }

    /// One more startup failed.
    pub open spec fn with_startup_failure(self) -> WorkerView {
        WorkerView { startup_failures: next(self.startup_failures), ..self }
    }

    /// The worker answered: no startup failure counts any more.
    pub open spec fn responsive(self) -> WorkerView {
        WorkerView { startup_failures: 0, ..self }
    }

    /// How many startups are tried, at least one.
    pub open spec fn attempts(self) -> u32 {
        if self.settings.max_startup_failures == 0 {
            1
        } else {
            self.settings.max_startup_failures
        }
    }

    /// The current request has held the worker for as long as another waits.
    pub open spec fn stuck(self, now: u64) -> bool {
        match self.current {
            Some(c) => elapsed(c.started, now) >= self.settings.busy_nanos(),
            None => false,
        }
    }

    /// What to do about a worker that another request waited for in vain.
    pub open spec fn recovery(self, now: u64) -> Recovery {
        if !self.stuck(now) {
            Recovery::Wait
        } else if self.pid == 0 {
            Recovery::Exit(EXIT_RESTART)
        } else {
            Recovery::Kill(self.pid)
        }
    }

    /// The record after that.
    pub open spec fn recovered(self, now: u64, reason: Seq<char>) -> WorkerView {
        match self.recovery(now) {
            Recovery::Wait => self,
            Recovery::Exit(_) => self.without_process(),
            Recovery::Kill(_) => self.without_process().with_restart(reason),
        }
    }
}

/// The request in flight, as a health report shows it.
#[derive(Debug, Clone, Copy, PartialEq, Eq, Structural)]
pub struct CurrentSnapshot {
    pub id: u32,
    pub opcode: u16,
    pub elapsed_ms: u64,
}

/// The record, as a health report shows it.
#[derive(Debug)]
pub struct WorkerSnapshot {
    pub pid: Option<u32>,
    pub request_timeout_secs: u64,
    pub startup_timeout_secs: u64,
    pub busy_timeout_ms: u64,
    pub max_waiters: u32,
    pub max_restarts: u32,
    pub restart_count: u32,
    pub timeout_count: u32,
    pub waiting_count: u32,
    pub startup_failures: u32,
    pub current_request: Option<CurrentSnapshot>,
    pub last_error: Option<String>,
    pub last_restart_reason: Option<String>,
}

/// The outcome of one attempt to get hold of the worker.
#[derive(Debug, Clone, Copy, PartialEq, Eq, Structural)]
pub enum LockAttempt {
    Held,
    Busy,
    Poisoned,
}

/// What to do after such an attempt.
pub enum LockStep {
    /// Go on, with the worker in hand.
    Proceed,
    /// Try again after so many milliseconds.
    Retry(u64),
    /// Give up.
    Fail(WorkerError),
}

/// Goes on after an attempt at `now` to get hold of the worker by `deadline`.
pub fn lock_worker_timeout(attempt: LockAttempt, now: u64, deadline: u128) -> (r: LockStep)
    ensures
        match attempt {
            LockAttempt::Held => r is Proceed,
            LockAttempt::Poisoned => r matches LockStep::Fail(e) && e@
                == WorkerErrorView::Unavailable("worker mutex poisoned"@),
            LockAttempt::Busy => if now >= deadline {
                r matches LockStep::Fail(e) && e@ == WorkerErrorView::Unavailable(
                    "worker busy timed out"@,
                )
            } else {
                r == LockStep::Retry(LOCK_RETRY_MILLIS)
            },
        },
{
    match attempt {
        LockAttempt::Held => LockStep::Proceed,
        LockAttempt::Poisoned => LockStep::Fail(
            WorkerError::Unavailable("worker mutex poisoned".to_string()),
        ),
        LockAttempt::Busy => if now as u128 >= deadline {
            LockStep::Fail(WorkerError::Unavailable("worker busy timed out".to_string()))
        } else {
            LockStep::Retry(LOCK_RETRY_MILLIS)
        },
    }
}

impl Worker {
    /// A record of a worker that was never started.
    pub fn new(launcher: &str, version: String, settings: Settings) -> (r: Worker)
        ensures
            r@ == (WorkerView {
                launcher: launcher@,
                version: version@,
                settings,
                next_id: 1,
                restart_count: 0,
                timeout_count: 0,
                waiting_count: 0,
                startup_failures: 0,
                pid: 0,
                current: None,
                last_error: None,
                last_restart_reason: None,
            }),
    {
        Worker {
            launcher: launcher.to_string(),
            version,
            settings,
            next_id: 1,
            restart_count: 0,
            timeout_count: 0,
            waiting_count: 0,
            startup_failures: 0,
            pid: 0,
            current: None,
            last_error: None,
            last_restart_reason: None,
        }
    }

    /// The program that is the worker.
    pub fn launcher(&self) -> (r: &str)
        ensures
            r@ == self@.launcher,
    {
        self.launcher.as_str()
    }

    /// The version of the supervisor.
    pub fn version(&self) -> (r: &str)
        ensures
            r@ == self@.version,
    {
        self.version.as_str()
    }

    /// How the worker is supervised.
    pub fn settings(&self) -> (r: Settings)
        ensures
            r == self@.settings,
    {
        self.settings
    }

    /// Counts a request that starts to wait for the worker.
    pub fn track_wait(&mut self)
        ensures
            final(self)@ == old(self)@.waiting(),
    {
        self.waiting_count = self.waiting_count.wrapping_add(1);
    }

    /// Counts a request that no longer waits for the worker.
    pub fn untrack_wait(&mut self)
        ensures
            final(self)@ == old(self)@.not_waiting(),
    {
        self.waiting_count = self.waiting_count.wrapping_sub(1);
    }

    /// Notes the request that the worker begins to work on.
    pub fn track_request(&mut self, id: u32, opcode: u16, now: u64)
        ensures
            final(self)@ == old(self)@.working_on(id, opcode, now),
    {
        self.current = Some(CurrentRequest { id, opcode, started: now });
    }

    /// Notes that the worker is done with a request. Where it works on another
    /// by now, that one stays noted.
    pub fn untrack_request(&mut self, id: u32)
        ensures
            final(self)@ == old(self)@.done_with(id),
    {
        match self.current {
            Some(c) => {
                if c.id == id {
                    self.current = None;
                }
            },
            None => {},
        }
    }

    /// Notes an error.
    pub fn record_error(&mut self, error: String)
        ensures
            final(self)@ == old(self)@.with_error(error@),
    {
        self.last_error = Some(error);
    }

    /// Counts a restart and notes its reason.
    pub fn record_restart(&mut self, reason: &str)
        ensures
            final(self)@ == old(self)@.with_restart(reason@),
    {
        self.restart_count = self.restart_count.wrapping_add(1);
        self.last_restart_reason = Some(reason.to_string());
    }

    /// Notes that the worker process was given up.
    pub fn abandon_locked_worker(&mut self, reason: &str)
        ensures
            final(self)@ == old(self)@.abandoned(reason@),
    {
        self.pid = 0;
        self.record_restart(reason);
    }

    /// Decides about a worker that a request waited for in vain. While the
    /// current request is younger than the time that another waits, nothing is
    /// done. After that the process is killed; where none is known, the whole
    /// supervisor has to go.
    pub fn recover_stuck_worker_or_exit(&mut self, reason: &str, now: u64) -> (r: Recovery)
        ensures
            r == old(self)@.recovery(now),
            final(self)@ == old(self)@.recovered(now, reason@),
            match old(self)@.current {
                Some(c) => if c.started <= now && now - c.started >= old(
                    self,
                )@.settings.busy_timeout_ms * 1_000_000 {
                    &&& old(self)@.pid != 0 ==> r == Recovery::Kill(old(self)@.pid)
                    &&& old(self)@.pid == 0 ==> r == Recovery::Exit(70)
                    &&& final(self)@.pid == 0
                } else {
                    old(self)@.settings.busy_timeout_ms > 0 ==> r == Recovery::Wait && final(self)@
                        == old(self)@
                },
                None => r == Recovery::Wait && final(self)@ == old(self)@,
            },
    {
        let stuck = match self.current {
            Some(c) => now.saturating_sub(c.started) as u128 >= self.settings.busy_timeout_ms as u128
                * NANOS_PER_MILLI,
            None => false,
        };
        if !stuck {
            return Recovery::Wait;
        }
        let pid: u32 = self.pid;
        self.pid = 0;
        if pid == 0 {
            return Recovery::Exit(EXIT_RESTART);
        }
        self.record_restart(reason);
        Recovery::Kill(pid)
    }

    /// What a health report at `now` shows.
    pub fn snapshot(&self, now: u64) -> (r: WorkerSnapshot)
        ensures
            r.pid == (if self@.pid == 0 {
                None
            } else {
                Some(self@.pid)
            }),
            r.request_timeout_secs == self@.settings.request_timeout_secs,
            r.startup_timeout_secs == self@.settings.startup_timeout_secs,
            r.busy_timeout_ms == self@.settings.busy_timeout_ms,
            r.max_waiters == self@.settings.max_waiters,
            r.max_restarts == self@.settings.max_startup_failures,
            r.restart_count == self@.restart_count,
            r.timeout_count == self@.timeout_count,
            r.waiting_count == self@.waiting_count,
            r.startup_failures == self@.startup_failures,
            match self@.current {
                Some(c) => r.current_request is Some && r.current_request->0.id == c.id
                    && r.current_request->0.opcode == c.opcode && r.current_request->0.elapsed_ms
                    == elapsed(c.started, now) / NANOS_PER_MILLI as nat,
                None => r.current_request is None,
            },
            opt_text(r.last_error) == self@.last_error,
            opt_text(r.last_restart_reason) == self@.last_restart_reason,
    {
        WorkerSnapshot {
            pid: if self.pid == 0 {
                None
            } else {
                Some(self.pid)
            },
            request_timeout_secs: self.settings.request_timeout_secs,
            startup_timeout_secs: self.settings.startup_timeout_secs,
            busy_timeout_ms: self.settings.busy_timeout_ms,
            max_waiters: self.settings.max_waiters,
            max_restarts: self.settings.max_startup_failures,
            restart_count: self.restart_count,
            timeout_count: self.timeout_count,
            waiting_count: self.waiting_count,
            startup_failures: self.startup_failures,
            current_request: match self.current {
                Some(c) => Some(
                    CurrentSnapshot {
                        id: c.id,
                        opcode: c.opcode,
                        elapsed_ms: now.saturating_sub(c.started) / (NANOS_PER_MILLI as u64),
                    },
                ),
                None => None,
            },
            last_error: self.last_error.clone(),
            last_restart_reason: self.last_restart_reason.clone(),
        }
    }
}

/// What the worker is to be asked, ready to become a request.
pub struct Ask {
    pub opcode: u16,
    pub payload: Vec<u8>,
}

/// What an [`Ask`] is about.
#[verifier::ext_equal]
pub struct AskView {
    pub opcode: u16,
    pub payload: Seq<u8>,
}

impl View for Ask {
    type V = AskView;

    open spec fn view(&self) -> AskView {
        AskView { opcode: self.opcode, payload: self.payload@ }
    }
}

/// A request that was let in: the frame to send, when it runs out of time, and
/// when it gives up waiting for the worker.
pub struct Request {
    pub frame: Frame,
    pub request_deadline: u128,
    pub lock_deadline: u128,
}

/// What a [`Request`] is about.
#[verifier::ext_equal]
pub struct RequestView {
    pub frame: FrameView,
    pub request_deadline: nat,
    pub lock_deadline: nat,
}

impl View for Request {
    type V = RequestView;

    open spec fn view(&self) -> RequestView {
        RequestView {
            frame: self.frame@,
            request_deadline: self.request_deadline as nat,
            lock_deadline: self.lock_deadline as nat,
        }
    }
}

/// The frame that asks the worker for `opcode`.
pub open spec fn request_frame(id: u32, opcode: u16, payload: Seq<u8>) -> FrameView {
    FrameView { kind: protocol::KIND_REQUEST, request_id: id, opcode, flags: 0, payload }
}

/// `response` answers `request`: it is a response to this very request.
pub open spec fn answers(request: FrameView, response: FrameView) -> bool {
    &&& response.kind == protocol::KIND_RESPONSE
    &&& response.request_id == request.request_id
    &&& response.opcode == request.opcode
}

impl WorkerView {
    /// As many requests wait as may.
    pub open spec fn full(self) -> bool {
        self.waiting_count >= self.settings.max_waiters
    }

    /// The next request id has been given out.
    pub open spec fn numbered(self) -> WorkerView {
        WorkerView { next_id: next(self.next_id), ..self }
    }

    /// Why a request is turned away while the queue is full.
    pub open spec fn busy_error(self) -> WorkerErrorView {
        WorkerErrorView::Unavailable(
            "worker busy: "@ + text::decimal(self.waiting_count as nat)
                + " requests already waiting"@,
        )
    }

    /// The request that came at `now`, was let in, and waits since `wait_start`.
    pub open spec fn admitted(
        self,
        opcode: u16,
        payload: Seq<u8>,
        now: u64,
        wait_start: u64,
    ) -> RequestView {
        RequestView {
            frame: request_frame(self.next_id, opcode, payload),
            request_deadline: now as nat + self.settings.request_nanos(),
            lock_deadline: wait_start as nat + self.settings.busy_nanos(),
        }
    }

    /// The record after a request was let in or turned away.
    pub open spec fn after_request(self) -> WorkerView {
        if self.full() {
            self.numbered()
        } else {
            self.numbered().waiting()
        }
    }

    /// The record after a request got hold of the worker.
    pub open spec fn after_lock(self, id: u32, opcode: u16, now: u64) -> WorkerView {
        self.not_waiting().working_on(id, opcode, now)
    }

    /// The record after a request waited for the worker in vain.
    pub open spec fn after_lock_timeout(self, now: u64) -> WorkerView {
        self.with_timeout().recovered(now, "lock wait timeout"@).with_error(
            "worker busy timed out"@,
        ).not_waiting()
    }

    /// The record after a request found that the lock on the worker is broken.
    pub open spec fn after_lock_poisoned(self) -> WorkerView {
        self.with_error("worker mutex poisoned"@).not_waiting()
    }

    /// The record after the pipes failed during the request `id`.
    pub open spec fn after_failure(
        self,
        id: u32,
        failure: IoErrorView,
        timeout_reason: Seq<char>,
        other_reason: Seq<char>,
    ) -> WorkerView {
        if failure.kind == ErrorKind::TimedOut {
            self.with_timeout().abandoned(timeout_reason).with_error(failure.message).done_with(id)
        } else {
            self.abandoned(other_reason).with_error(failure.message).done_with(id)
        }
    }

    /// The record after the worker answered something else than the request `id`.
    pub open spec fn after_mismatch(self, id: u32) -> WorkerView {
        self.abandoned("mismatched ipc response"@).with_error("mismatched ipc response"@).done_with(id)
    }

    /// The record after the worker answered the request `id`.
    pub open spec fn after_answer(self, id: u32) -> WorkerView {
        self.responsive().done_with(id)
    }
}

/// What to do after an attempt of a request to get hold of the worker.
pub enum RequestLock {
    /// The worker is this request's now.
    Proceed,
    /// Try again after so many milliseconds.
    Retry(u64),
    /// The request ends with this error. The recovery is to be carried out first.
    Fail(WorkerError, Recovery),
}

/// What the place for the worker process holds.
pub enum Slot {
    /// No process.
    Empty,
    /// A process that runs.
    Alive,
    /// A process that has ended.
    Exited,
    /// A process of which that could not be found out.
    Unknown(IoError),
}

/// What a request has to do before it can be sent.
pub enum SlotStep {
    /// Nothing.
    Send,
    /// Start a worker, and look at the place for it again.
    StartAndCheck,
    /// Start a worker.
    StartAndSend,
    /// The request ends with this error.
    Fail(WorkerError),
}

/// The end of a request whose worker process is to be thrown away.
pub struct Abandoned {
    pub error: WorkerError,
    pub reason: &'static str,
}

impl Worker {
    /// Lets a request in that comes at `now`, or turns it away where too many
    /// wait already. Either way it takes a request id. One that is let in has its
    /// time from `now` on, and waits for the worker from `wait_start` on.
    pub fn request(&mut self, opcode: u16, payload: Vec<u8>, now: u64, wait_start: u64) -> (r:
        Result<Request, WorkerError>)
        ensures
            final(self)@ == old(self)@.after_request(),
            old(self)@.full() ==> r is Err && r->Err_0@ == old(self)@.busy_error(),
            !old(self)@.full() ==> r is Ok && r->Ok_0@ == old(self)@.admitted(
                opcode,
                payload@,
                now,
                wait_start,
            ),
    {
        let id: u32 = self.next_id;
        self.next_id = self.next_id.wrapping_add(1);
        if self.waiting_count >= self.settings.max_waiters {
            return Err(
                WorkerError::Unavailable(
                    text::with_number(
                        "worker busy: ",
                        self.waiting_count,
                        " requests already waiting",
                    ),
                ),
            );
        }
        self.track_wait();
        Ok(
            Request {
                frame: Frame {
                    kind: protocol::KIND_REQUEST,
                    request_id: id,
                    opcode,
                    flags: 0,
                    payload,
                },
                request_deadline: self.settings.request_deadline(now),
                lock_deadline: self.settings.busy_deadline(wait_start),
            },
        )
    }

    /// Goes on with a request after an attempt at `now` to get hold of the worker.
    pub fn request_lock(&mut self, request: &Request, attempt: LockAttempt, now: u64) -> (r:
        RequestLock)
        ensures
            match attempt {
                LockAttempt::Held => {
                    &&& r is Proceed
                    &&& final(self)@ == old(self)@.after_lock(
                        request@.frame.request_id,
                        request@.frame.opcode,
                        now,
                    )
                },
                LockAttempt::Busy => if now < request@.lock_deadline {
                    &&& r == RequestLock::Retry(LOCK_RETRY_MILLIS)
                    &&& final(self)@ == old(self)@
                } else {
                    &&& r matches RequestLock::Fail(e, recovery) && e@
                        == WorkerErrorView::Unavailable("worker busy timed out"@) && recovery
                        == old(self)@.with_timeout().recovery(now)
                    &&& final(self)@ == old(self)@.after_lock_timeout(now)
                },
                LockAttempt::Poisoned => {
                    &&& r matches RequestLock::Fail(e, recovery) && e@
                        == WorkerErrorView::Unavailable("worker mutex poisoned"@) && recovery
                        == Recovery::Wait
                    &&& final(self)@ == old(self)@.after_lock_poisoned()
                },
            },
    {
        match lock_worker_timeout(attempt, now, request.lock_deadline) {
            LockStep::Proceed => {
                self.untrack_wait();
                self.track_request(request.frame.request_id, request.frame.opcode, now);
                RequestLock::Proceed
            },
            LockStep::Retry(millis) => RequestLock::Retry(millis),
            LockStep::Fail(e) => {
                let mut recovery = Recovery::Wait;
                if attempt == LockAttempt::Busy {
                    self.timeout_count = self.timeout_count.wrapping_add(1);
                    recovery = self.recover_stuck_worker_or_exit("lock wait timeout", now);
                }
                self.record_error(e.to_string());
                self.untrack_wait();
                RequestLock::Fail(e, recovery)
            },
        }
    }

    /// Goes on with a request that has the worker in hand and looked at the
    /// process. A worker that was started for an empty place is looked at again; one
    /// that was started for a process that had ended is used as it is.
    pub fn request_slot(&mut self, request: &Request, slot: Slot) -> (r: SlotStep)
        ensures
            match slot {
                Slot::Empty => r is StartAndCheck && final(self)@ == old(self)@,
                Slot::Alive => r is Send && final(self)@ == old(self)@,
                Slot::Exited => r is StartAndSend && final(self)@ == old(self)@,
                Slot::Unknown(failure) => {
                    &&& r matches SlotStep::Fail(e) && e@ == WorkerErrorView::Io(failure@.message)
                    &&& final(self)@ == old(self)@.done_with(request@.frame.request_id)
                },
            },
    {
        match slot {
            Slot::Empty => SlotStep::StartAndCheck,
            Slot::Alive => SlotStep::Send,
            Slot::Exited => SlotStep::StartAndSend,
            Slot::Unknown(failure) => {
                self.untrack_request(request.frame.request_id);
                SlotStep::Fail(io_err(failure))
            },
        }
    }

    /// Ends a request for which no worker could be started.
    pub fn request_without_worker(&mut self, request: &Request, error: WorkerError) -> (r:
        WorkerError)
        ensures
            r@ == error@,
            final(self)@ == old(self)@.done_with(request@.frame.request_id),
    {
        self.untrack_request(request.frame.request_id);
        error
    }

    fn request_failed(
        &mut self,
        request: &Request,
        failure: IoError,
        timeout_reason: &'static str,
        other_reason: &'static str,
    ) -> (r: Abandoned)
        ensures
            r.error@ == WorkerErrorView::Io(failure@.message),
            r.reason@ == (if failure@.kind == ErrorKind::TimedOut {
                timeout_reason@
            } else {
                other_reason@
            }),
            final(self)@ == old(self)@.after_failure(
                request@.frame.request_id,
                failure@,
                timeout_reason@,
                other_reason@,
            ),
    {
        let mut reason = other_reason;
        if failure.kind == ErrorKind::TimedOut {
            self.timeout_count = self.timeout_count.wrapping_add(1);
            reason = timeout_reason;
        }
        self.abandon_locked_worker(reason);
        self.record_error(failure.message.clone());
        self.untrack_request(request.frame.request_id);
        Abandoned { error: io_err(failure), reason }
    }

    /// Goes on with a request after its frame was sent, or failed to be. A worker
    /// that could not be written to is thrown away.
    pub fn request_written(&mut self, request: &Request, outcome: Result<(), IoError>) -> (r: Result<
        (),
        Abandoned,
    >)
        ensures
            match outcome {
                Ok(_) => r is Ok && final(self)@ == old(self)@,
                Err(failure) => {
                    &&& r is Err
                    &&& r->Err_0.error@ == WorkerErrorView::Io(failure@.message)
                    &&& r->Err_0.reason@ == (if failure@.kind == ErrorKind::TimedOut {
                        "write timeout"@
                    } else {
                        "ipc write error"@
                    })
                    &&& final(self)@ == old(self)@.after_failure(
                        request@.frame.request_id,
                        failure@,
                        "write timeout"@,
                        "ipc write error"@,
                    )
                },
            },
    {
        match outcome {
            Ok(()) => Ok(()),
            Err(failure) => Err(
                self.request_failed(request, failure, "write timeout", "ipc write error"),
            ),
        }
    }

    /// Ends a request with what the worker answered. A worker that did not answer,
    /// or answered something else, is thrown away: whatever it says next could be
    /// taken for the answer to another request.
    pub fn request_reply(&mut self, request: &Request, outcome: Result<Frame, IoError>) -> (r:
        Result<Frame, Abandoned>)
        ensures
            outcome matches Ok(response) ==> (r is Ok <==> response@.kind == 2
                && response@.request_id == request@.frame.request_id && response@.opcode
                == request@.frame.opcode),
            r matches Ok(f) ==> outcome is Ok && f@ == outcome->Ok_0@,
            match outcome {
                Ok(response) => if answers(request@.frame, response@) {
                    &&& r is Ok
                    &&& r->Ok_0@ == response@
                    &&& final(self)@ == old(self)@.after_answer(request@.frame.request_id)
                } else {
                    &&& r is Err
                    &&& r->Err_0.error@ == WorkerErrorView::Protocol("mismatched ipc response"@)
                    &&& r->Err_0.reason@ == "mismatched ipc response"@
                    &&& final(self)@ == old(self)@.after_mismatch(request@.frame.request_id)
                },
                Err(failure) => {
                    &&& r is Err
                    &&& r->Err_0.error@ == WorkerErrorView::Io(failure@.message)
                    &&& r->Err_0.reason@ == (if failure@.kind == ErrorKind::TimedOut {
                        "response timeout"@
                    } else {
                        "ipc read error"@
                    })
                    &&& final(self)@ == old(self)@.after_failure(
                        request@.frame.request_id,
                        failure@,
                        "response timeout"@,
                        "ipc read error"@,
                    )
                },
            },
    {
        match outcome {
            Ok(response) => {
                let id: u32 = request.frame.request_id;
                if response.kind != protocol::KIND_RESPONSE || response.request_id != id
                    || response.opcode != request.frame.opcode {
                    self.abandon_locked_worker("mismatched ipc response");
                    self.record_error("mismatched ipc response".to_string());
                    self.untrack_request(id);
                    return Err(
                        Abandoned {
                            error: WorkerError::Protocol("mismatched ipc response".to_string()),
                            reason: "mismatched ipc response",
                        },
                    );
                }
                self.startup_failures = 0;
                self.untrack_request(id);
                Ok(response)
            },
            Err(failure) => Err(
                self.request_failed(request, failure, "response timeout", "ipc read error"),
            ),
        }
    }

    /// What to ask for the health of the worker: as with the JSON value null.
    pub fn health() -> (r: Ask)
        ensures
            r@ == (AskView { opcode: protocol::OP_HEALTH, payload: Seq::<u8>::empty() }),
    {
        Ask { opcode: protocol::OP_HEALTH, payload: Vec::new() }
    }

    /// What to ask with a JSON value; null asks with nothing. The time of a request
    /// does not run yet while this is made.
    pub fn request_json(opcode: u16, payload: &serde_json::Value) -> (r: Result<Ask, WorkerError>)
        ensures
            r is Ok,
            r->Ok_0@ == (AskView {
                opcode,
                payload: if json::contents(*payload) == Json::Null {
                    Seq::<u8>::empty()
                } else {
                    json::encoded(json::contents(*payload))
                },
            }),
    {
        match reply::json_payload(payload) {
            Ok(payload) => Ok(Ask { opcode, payload }),
            Err(e) => Err(e),
        }
    }

    /// What to ask to have a batch decrypted. A batch that cannot be encoded is
    /// refused here, before it becomes a request: it takes no request id, and the
    /// time of a request does not run yet.
    pub fn decrypt_batch(adam: &str, uri: &str, samples: Vec<Vec<u8>>) -> (r: Result<
        Ask,
        WorkerError,
    >)
        ensures
            match batch::batch_refusal(
                utf8::encode_utf8(adam@),
                utf8::encode_utf8(uri@),
                layout::views(samples@),
            ) {
                Some(e) => r is Err && r->Err_0@ == WorkerErrorView::Protocol(e.text()),
                None => r is Ok && r->Ok_0@ == (AskView {
                    opcode: protocol::OP_DECRYPT_BATCH,
                    payload: batch::batch_bytes(
                        utf8::encode_utf8(adam@),
                        utf8::encode_utf8(uri@),
                        layout::views(samples@),
                    ),
                }),
            },
    {
        match reply::decrypt_payload(adam, uri, samples.as_slice()) {
            Ok(payload) => Ok(Ask { opcode: protocol::OP_DECRYPT_BATCH, payload }),
            Err(e) => Err(e),
        }
    }
}

/// What starting the worker process came to.
pub enum Launch {
    /// It could not be started.
    Failed(IoError),
    /// It has no standard input to write to.
    NoStdin,
    /// It has no standard output to read from.
    NoStdout,
    /// One of the two could not be made non-blocking.
    Blocking(IoError),
    /// It runs under this process id.
    Running(u32),
}

/// How far the attempts to start a worker have come.
#[derive(Debug, Clone, Copy, PartialEq, Eq, Structural)]
pub struct Startup {
    pub attempt: u32,
    pub attempts: u32,
}

/// Why an attempt to start a worker failed.
#[derive(Debug, Clone, Copy, PartialEq, Eq, Structural)]
pub enum StartupFailure {
    /// No process came up.
    Spawn,
    /// A process came up and did not answer as it should.
    Probe,
}

/// What to do after a failed attempt to start a worker.
pub enum StartupStep {
    /// Make this attempt, after so many seconds.
    Retry(Startup, u64),
    /// Exit with this status.
    Exit(i32),
    /// Give up, with this error.
    GiveUp(WorkerError),
}

/// Where a run of failed attempts leads.
pub enum StartupEnd {
    Trying(Startup),
    Exit,
    GiveUp,
}

/// What to do before the worker can be relied on.
pub enum EnsureStep {
    /// Nothing: it runs.
    Ready,
    /// Start a worker.
    Start,
    /// Nothing can be done.
    Fail(WorkerError),
}

/// A worker that is to be replaced: why it is thrown away, and how long to wait
/// before the place for it is looked at again.
pub struct Restart {
    pub reason: &'static str,
    pub delay_secs: u64,
}

/// Why a launch is no worker.
pub open spec fn launch_error(launch: Launch) -> Option<WorkerErrorView> {
    match launch {
        Launch::Failed(e) => Some(WorkerErrorView::Io(e@.message)),
        Launch::NoStdin => Some(WorkerErrorView::Io("worker stdin unavailable"@)),
        Launch::NoStdout => Some(WorkerErrorView::Io("worker stdout unavailable"@)),
        Launch::Blocking(e) => Some(WorkerErrorView::Io(e@.message)),
        Launch::Running(_) => None,
    }
}

/// `response` shows that a new worker is able to answer. Which request it names
/// does not matter.
pub open spec fn shows_readiness(response: FrameView) -> bool {
    response.kind == protocol::KIND_RESPONSE && response.opcode == protocol::OP_HEALTH
}

impl WorkerView {
    /// The worker process has the id `pid`.
    pub open spec fn with_process(self, pid: u32) -> WorkerView {
        WorkerView { pid, ..self }
    }

    /// The record after an attempt to start a worker failed.
    pub open spec fn failed(self, failure: StartupFailure) -> WorkerView {
        match failure {
            StartupFailure::Spawn => self.with_startup_failure(),
            StartupFailure::Probe => self.without_process().with_startup_failure(),
        }
    }

    /// So many startups have failed in a row that the supervisor has to go.
    pub open spec fn hopeless(self) -> bool {
        self.settings.exit_on_startup_failure && self.startup_failures >= self.attempts()
    }

    /// Where the attempt `startup` leads once its failure is noted.
    pub open spec fn end_of(self, startup: Startup) -> StartupEnd {
        if self.hopeless() {
            StartupEnd::Exit
        } else if startup.attempt < startup.attempts {
            StartupEnd::Trying(
                Startup { attempt: (startup.attempt + 1) as u32, attempts: startup.attempts },
            )
        } else {
            StartupEnd::GiveUp
        }
    }

    /// The attempts to start a worker, before the first.
    pub open spec fn first_startup(self) -> Startup {
        Startup { attempt: 1, attempts: self.attempts() }
    }
}

/// The record, and where it leads, after the attempt `startup` and those that
/// follow it failed one after another.
pub open spec fn failed_run(
    w: WorkerView,
    startup: Startup,
    failures: Seq<StartupFailure>,
) -> (WorkerView, StartupEnd)
    decreases failures.len(),
{
    if failures.len() == 0 {
        (w, StartupEnd::Trying(startup))
    } else {
        let after = w.failed(failures.first());
        match after.end_of(startup) {
            StartupEnd::Trying(next_startup) => failed_run(
                after,
                next_startup,
                failures.drop_first(),
            ),
            end => (after, end),
        }
    }
}

/// The frame that asks a new worker whether it is ready.
pub fn probe_request() -> (r: Frame)
    ensures
        r@ == request_frame(0, protocol::OP_HEALTH, Seq::<u8>::empty()),
{
    Frame {
        kind: protocol::KIND_REQUEST,
        request_id: 0,
        opcode: protocol::OP_HEALTH,
        flags: 0,
        payload: Vec::new(),
    }
}

/// Whether a worker is to be started once that time is over: only where the place
/// for it is still free, and can be looked at.
pub fn restart_due(lock_broken: bool, occupied: bool) -> (r: bool)
    ensures
        r == (!lock_broken && !occupied),
{
    !lock_broken && !occupied
}

/// Whether a new worker is ready, by its answer to that frame.
pub fn probe_ready(outcome: Result<Frame, IoError>) -> (r: Result<(), WorkerError>)
    ensures
        match outcome {
            Ok(response) => if shows_readiness(response@) {
                r is Ok
            } else {
                r is Err && r->Err_0@ == WorkerErrorView::Protocol(
                    "worker returned a non-health frame during startup probe"@,
                )
            },
            Err(failure) => r is Err && r->Err_0@ == WorkerErrorView::Io(failure@.message),
        },
{
    match outcome {
        Ok(response) => {
            if response.kind != protocol::KIND_RESPONSE || response.opcode != protocol::OP_HEALTH {
                return Err(
                    WorkerError::Protocol(
                        "worker returned a non-health frame during startup probe".to_string(),
                    ),
                );
            }
            Ok(())
        },
        Err(failure) => Err(io_err(failure)),
    }
}

impl Worker {
    /// Notes the process that a launch brought up.
    pub fn spawn(&mut self, launch: Launch) -> (r: Result<(), WorkerError>)
        ensures
            match launch_error(launch) {
                Some(e) => r is Err && r->Err_0@ == e && final(self)@ == old(self)@,
                None => r is Ok && final(self)@ == old(self)@.with_process(launch->Running_0),
            },
    {
        match launch {
            Launch::Failed(e) => Err(io_err(e)),
            Launch::NoStdin => Err(WorkerError::Io("worker stdin unavailable".to_string())),
            Launch::NoStdout => Err(WorkerError::Io("worker stdout unavailable".to_string())),
            Launch::Blocking(e) => Err(io_err(e)),
            Launch::Running(pid) => {
                self.pid = pid;
                Ok(())
            },
        }
    }

    /// Begins the attempts to start a worker that answers.
    pub fn spawn_ready(&self) -> (r: Startup)
        ensures
            r == self@.first_startup(),
    {
        let attempts: u32 = if self.settings.max_startup_failures == 0 {
            1
        } else {
            self.settings.max_startup_failures
        };
        Startup { attempt: 1, attempts }
    }

    /// Counts a failed startup. Returns the status to exit with, where so many
    /// failed in a row that the supervisor has to go.
    pub fn note_startup_failure(&mut self) -> (r: Option<i32>)
        ensures
            final(self)@ == old(self)@.with_startup_failure(),
            r == (if old(self)@.with_startup_failure().hopeless() {
                Some(EXIT_RESTART)
            } else {
                None
            }),
    {
        self.startup_failures = self.startup_failures.wrapping_add(1);
        if self.settings.exit_on_startup_failure && self.startup_failures
            >= self.spawn_ready().attempts {
            return Some(EXIT_RESTART);
        }
        None
    }

    /// Goes on after an attempt to start a worker failed.
    pub fn startup_failed(&mut self, startup: Startup, failure: StartupFailure) -> (r: StartupStep)
        ensures
            final(self)@ == old(self)@.failed(failure),
            match old(self)@.failed(failure).end_of(startup) {
                StartupEnd::Trying(next_startup) => r == StartupStep::Retry(
                    next_startup,
                    RESTART_DELAY_SECS,
                ),
                StartupEnd::Exit => r == StartupStep::Exit(EXIT_RESTART),
                StartupEnd::GiveUp => r matches StartupStep::GiveUp(e) && e@
                    == WorkerErrorView::Unavailable(
                    "worker failed to become ready after "@ + text::decimal(startup.attempts as nat)
                        + " attempts"@,
                ),
            },
    {
        match failure {
            StartupFailure::Spawn => {},
            StartupFailure::Probe => {
                self.pid = 0;
            },
        }
        match self.note_startup_failure() {
            Some(status) => StartupStep::Exit(status),
            None => {
                if startup.attempt < startup.attempts {
                    let following = Startup {
                        attempt: startup.attempt + 1,
                        attempts: startup.attempts,
                    };
                    StartupStep::Retry(following, RESTART_DELAY_SECS)
                } else {
                    StartupStep::GiveUp(
                        WorkerError::Unavailable(
                            text::with_number(
                                "worker failed to become ready after ",
                                startup.attempts,
                                " attempts",
                            ),
                        ),
                    )
                }
            },
        }
    }

    /// Notes that a new worker has shown that it answers.
    pub fn startup_succeeded(&mut self)
        ensures
            final(self)@ == old(self)@.responsive(),
    {
        self.startup_failures = 0;
    }

    /// Says what is missing before the worker can be relied on. The place for the
    /// process is not known where the lock on it is broken.
    pub fn ensure_started(&mut self, place: Option<Slot>) -> (r: EnsureStep)
        ensures
            match place {
                None => {
                    &&& r matches EnsureStep::Fail(e) && e@ == WorkerErrorView::Unavailable(
                        "worker mutex poisoned"@,
                    )
                    &&& final(self)@ == old(self)@
                },
                Some(Slot::Empty) => r is Start && final(self)@ == old(self)@,
                Some(Slot::Alive) => r is Ready && final(self)@ == old(self)@,
                Some(Slot::Exited) => r is Start && final(self)@ == old(self)@.without_process(),
                Some(Slot::Unknown(failure)) => {
                    &&& r matches EnsureStep::Fail(e) && e@ == WorkerErrorView::Io(failure@.message)
                    &&& final(self)@ == old(self)@
                },
            },
    {
        match place {
            None => EnsureStep::Fail(WorkerError::Unavailable("worker mutex poisoned".to_string())),
            Some(Slot::Empty) => EnsureStep::Start,
            Some(Slot::Alive) => EnsureStep::Ready,
            Some(Slot::Exited) => {
                self.pid = 0;
                EnsureStep::Start
            },
            Some(Slot::Unknown(failure)) => EnsureStep::Fail(io_err(failure)),
        }
    }

    /// Notes that the worker is to be replaced as its own answer asks, unless the
    /// lock on the place for it is broken.
    pub fn restart_after_delay(&mut self, lock_broken: bool) -> (r: Option<Restart>)
        ensures
            if lock_broken {
                r is None && final(self)@ == old(self)@
            } else {
                &&& r is Some
                &&& r->Some_0.reason@ == "restart requested by worker response"@
                &&& r->Some_0.delay_secs == RESTART_DELAY_SECS
                &&& final(self)@ == old(self)@.abandoned("restart requested by worker response"@)
            },
    {
        if lock_broken {
            return None;
        }
        self.abandon_locked_worker("restart requested by worker response");
        Some(
            Restart {
                reason: "restart requested by worker response",
                delay_secs: RESTART_DELAY_SECS,
            },
        )
    }
}

} // verus!
