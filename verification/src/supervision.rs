//! What holds of the supervision of the worker as a whole: over a request from
//! its beginning to its end, over requests in a row, and over startups in a row.

use vstd::prelude::*;

use crate::error::{ErrorKind, IoError, IoErrorView, WorkerErrorView};
use crate::protocol::FrameView;
use crate::text;
use crate::worker;
use crate::worker::{
    Ask, CurrentRequest, Launch, Recovery, Request, Startup, StartupEnd, StartupFailure, WorkerView,
};

verus! {

/// The number `k` steps after `n` on a 32-bit counter that starts again at zero.
pub open spec fn advanced(n: u32, k: nat) -> u32 {
    ((n + k) % 0x1_0000_0000) as u32
}

/// The counter after `k` numbers were taken from it.
pub open spec fn after_taking(n: u32, k: nat) -> u32
    decreases k,
{
    if k == 0 {
        n
    } else {
        worker::next(after_taking(n, (k - 1) as nat))
    }
}

proof fn lemma_after_taking(n: u32, k: nat)
    ensures
        after_taking(n, k) == advanced(n, k),
    decreases k,
{
    if k > 0 {
        lemma_after_taking(n, (k - 1) as nat);
    }
}

/// A request id comes back only after all others: of 4294967296 requests in a row no
/// two have the same.
pub proof fn law_request_ids_distinct(n: u32, i: nat, j: nat)
    requires
        i < j < i + 0x1_0000_0000,
    ensures
        after_taking(n, i) != after_taking(n, j),
{
    lemma_after_taking(n, i);
    lemma_after_taking(n, j);
    let a: int = n + i;
    let b: int = n + j;
    assert(a % 0x1_0000_0000 != b % 0x1_0000_0000);
}

/// To stop waiting takes back what to wait did, and the other way round.
pub proof fn law_wait_balanced(w: WorkerView)
    ensures
        w.waiting().not_waiting() == w,
        w.not_waiting().waiting() == w,
{
}

/// However a request that was let in ends, it is then counted neither among those
/// that wait nor as the one that the worker works on; and it has used up one id.
pub proof fn law_request_leaves_nothing(
    w: WorkerView,
    opcode: u16,
    now: u64,
    failure: IoErrorView,
    timeout_reason: Seq<char>,
    other_reason: Seq<char>,
)
    requires
        !w.full(),
    ensures
        ({
            let id = w.next_id;
            let held = w.after_request().after_lock(id, opcode, now);
            &&& held.waiting_count == w.waiting_count
            &&& held.current == Some(CurrentRequest { id, opcode, started: now })
            &&& held.after_answer(id).waiting_count == w.waiting_count
            &&& held.after_answer(id).current is None
            &&& held.after_answer(id).next_id == worker::next(w.next_id)
            &&& held.after_mismatch(id).waiting_count == w.waiting_count
            &&& held.after_mismatch(id).current is None
            &&& held.after_mismatch(id).next_id == worker::next(w.next_id)
            &&& held.after_failure(id, failure, timeout_reason, other_reason).waiting_count
                == w.waiting_count
            &&& held.after_failure(id, failure, timeout_reason, other_reason).current is None
            &&& held.after_failure(id, failure, timeout_reason, other_reason).next_id == worker::next(
                w.next_id,
            )
            &&& held.done_with(id).waiting_count == w.waiting_count
            &&& held.done_with(id).current is None
            &&& held.done_with(id).next_id == worker::next(w.next_id)
        }),
        w.after_request().after_lock_timeout(now).waiting_count == w.waiting_count,
        w.after_request().after_lock_timeout(now).current == w.current,
        w.after_request().after_lock_timeout(now).next_id == worker::next(w.next_id),
        w.after_request().after_lock_poisoned().waiting_count == w.waiting_count,
        w.after_request().after_lock_poisoned().current == w.current,
        w.after_request().after_lock_poisoned().next_id == worker::next(w.next_id),
{
}

/// A request that is turned away changes nothing but the next id.
pub proof fn law_turned_away(w: WorkerView)
    requires
        w.full(),
    ensures
        w.after_request() == (WorkerView { next_id: worker::next(w.next_id), ..w }),
{
}

/// No more requests wait than may.
pub open spec fn queue_bounded(w: WorkerView) -> bool {
    w.waiting_count <= w.settings.max_waiters
}

/// Never do more requests wait than may: a request that comes, whether it is let in or
/// turned away, does not make it so; nor does one of those that wait when it gets the
/// worker or gives up; nor does the end of a request, however it ends; nor does anything
/// that is done about the process. What may wait does not change either.
pub proof fn law_queue_bounded(
    w: WorkerView,
    id: u32,
    opcode: u16,
    now: u64,
    failure: IoErrorView,
    timeout_reason: Seq<char>,
    other_reason: Seq<char>,
    startup_failure: StartupFailure,
    pid: u32,
)
    requires
        queue_bounded(w),
    ensures
        queue_bounded(w.after_request()),
        w.waiting_count > 0 ==> {
            &&& queue_bounded(w.after_lock(id, opcode, now))
            &&& queue_bounded(w.after_lock_timeout(now))
            &&& queue_bounded(w.after_lock_poisoned())
        },
        queue_bounded(w.after_failure(id, failure, timeout_reason, other_reason)),
        queue_bounded(w.after_mismatch(id)),
        queue_bounded(w.after_answer(id)),
        queue_bounded(w.done_with(id)),
        queue_bounded(w.failed(startup_failure)),
        queue_bounded(w.with_process(pid)),
        queue_bounded(w.without_process()),
        queue_bounded(w.responsive()),
        queue_bounded(w.abandoned(other_reason)),
        queue_bounded(w.recovered(now, other_reason)),
        w.after_request().settings == w.settings,
        w.after_lock(id, opcode, now).settings == w.settings,
        w.after_lock_timeout(now).settings == w.settings,
        w.after_lock_poisoned().settings == w.settings,
        w.after_failure(id, failure, timeout_reason, other_reason).settings == w.settings,
        w.after_mismatch(id).settings == w.settings,
        w.after_answer(id).settings == w.settings,
        w.done_with(id).settings == w.settings,
        w.failed(startup_failure).settings == w.settings,
        w.with_process(pid).settings == w.settings,
        w.without_process().settings == w.settings,
        w.responsive().settings == w.settings,
        w.abandoned(other_reason).settings == w.settings,
        w.recovered(now, other_reason).settings == w.settings,
{
}

/// The end of one request does not hide that the worker is busy with another.
pub proof fn law_other_request_stays(w: WorkerView, id: u32, opcode: u16, now: u64, other: u32)
    requires
        other != id,
    ensures
        w.working_on(id, opcode, now).done_with(other) == w.working_on(id, opcode, now),
{
}

/// While no request holds the worker, or the one that does is younger than the time
/// that another waits, the worker is left alone.
pub proof fn law_patience(w: WorkerView, now: u64, reason: Seq<char>)
    requires
        w.current matches Some(c) ==> worker::elapsed(c.started, now) < w.settings.busy_nanos(),
    ensures
        w.recovery(now) == Recovery::Wait,
        w.recovered(now, reason) == w,
{
}

/// A process is killed once: unless another has been started since, the next recovery
/// kills none.
pub proof fn law_killed_once(w: WorkerView, now: u64, later: u64, reason: Seq<char>)
    requires
        w.recovery(now) is Kill,
    ensures
        w.recovery(now) == Recovery::Kill(w.pid),
        w.pid != 0,
        !(w.recovered(now, reason).recovery(later) is Kill),
{
}

/// A worker that was thrown away is not killed by its id, which may be another
/// process's by then, and was counted as one restart.
pub proof fn law_abandoned_not_killed(w: WorkerView, reason: Seq<char>, now: u64)
    ensures
        !(w.abandoned(reason).recovery(now) is Kill),
        w.abandoned(reason).restart_count == worker::next(w.restart_count),
        w.abandoned(reason).last_restart_reason == Some(reason),
{
}

/// A worker that failed during a request, or answered another, is gone from the record:
/// the requests that follow meet no process that could be killed for it, one restart
/// was counted, and the error is on record.
pub proof fn law_failure_discards_worker(
    w: WorkerView,
    id: u32,
    failure: IoErrorView,
    timeout_reason: Seq<char>,
    other_reason: Seq<char>,
)
    ensures
        ({
            let after = w.after_failure(id, failure, timeout_reason, other_reason);
            &&& after.pid == 0
            &&& after.restart_count == worker::next(w.restart_count)
            &&& after.timeout_count == (if failure.kind == ErrorKind::TimedOut {
                worker::next(w.timeout_count)
            } else {
                w.timeout_count
            })
            &&& after.last_error == Some(failure.message)
        }),
        ({
            let after = w.after_mismatch(id);
            &&& after.pid == 0
            &&& after.restart_count == worker::next(w.restart_count)
            &&& after.timeout_count == w.timeout_count
            &&& after.last_error == Some("mismatched ipc response"@)
        }),
{
}

/// The record after the next request was let in at `now`, got the worker, found none,
/// had one started under the id `pid`, and was answered by it.
pub open spec fn served_by_new_worker(w: WorkerView, opcode: u16, now: u64, pid: u32) -> WorkerView {
    w.after_request().after_lock(w.next_id, opcode, now).with_process(pid).responsive().after_answer(
        w.next_id,
    )
}

/// That record is in order: the new worker is on it, no failed startup counts, no request
/// is in flight, the queue is as it was, and no restart was counted on the way.
pub open spec fn in_good_order(w: WorkerView, opcode: u16, now: u64, pid: u32) -> bool {
    let after = served_by_new_worker(w, opcode, now, pid);
    &&& after.pid == pid
    &&& after.startup_failures == 0
    &&& after.current is None
    &&& after.waiting_count == w.waiting_count
    &&& after.restart_count == w.restart_count
    &&& after.next_id == worker::next(w.next_id)
}

/// After a crash, a timeout, a wrong answer or a restart that the worker asked for, a
/// fresh worker serves the next request: it is let in as long as the queue is not full,
/// and when the new worker has answered it, that worker is the one on record, no failed
/// startup counts, no request is in flight and the queue is as before.
pub proof fn law_fresh_worker_serves(
    w: WorkerView,
    id: u32,
    failure: IoErrorView,
    timeout_reason: Seq<char>,
    other_reason: Seq<char>,
    opcode: u16,
    now: u64,
    pid: u32,
)
    requires
        !w.full(),
    ensures
        ({
            let after = w.after_failure(id, failure, timeout_reason, other_reason);
            &&& after.pid == 0
            &&& !after.full()
            &&& after.waiting_count == w.waiting_count
            &&& in_good_order(after, opcode, now, pid)
        }),
        ({
            let after = w.after_mismatch(id);
            &&& after.pid == 0
            &&& !after.full()
            &&& after.waiting_count == w.waiting_count
            &&& in_good_order(after, opcode, now, pid)
        }),
        ({
            let after = w.abandoned(other_reason);
            &&& after.pid == 0
            &&& !after.full()
            &&& after.waiting_count == w.waiting_count
            &&& in_good_order(after, opcode, now, pid)
        }),
{
}

/// An answer clears the record of failed startups.
pub proof fn law_answer_clears_failures(w: WorkerView, id: u32)
    ensures
        w.after_answer(id).startup_failures == 0,
{
}

/// A process that came up and failed its probe leaves the record as if none had come up
/// and the one before it were gone.
pub proof fn law_failed_probe_forgets_process(w: WorkerView, pid: u32)
    ensures
        w.with_process(pid).failed(StartupFailure::Probe) == w.failed(StartupFailure::Probe),
        w.failed(StartupFailure::Probe).pid == 0,
{
}

proof fn lemma_failed_run_serving(w: WorkerView, startup: Startup, failures: Seq<StartupFailure>)
    requires
        !w.settings.exit_on_startup_failure,
        1 <= startup.attempt,
        startup.attempt + failures.len() <= startup.attempts + 1,
    ensures
        ({
            let (after, end) = worker::failed_run(w, startup, failures);
            &&& after.startup_failures == advanced(w.startup_failures, failures.len())
            &&& end == (if startup.attempt + failures.len() <= startup.attempts {
                StartupEnd::Trying(
                    Startup {
                        attempt: (startup.attempt + failures.len()) as u32,
                        attempts: startup.attempts,
                    },
                )
            } else if failures.len() == 0 {
                StartupEnd::Trying(startup)
            } else {
                StartupEnd::GiveUp
            })
        }),
    decreases failures.len(),
{
    if failures.len() > 0 {
        let after = w.failed(failures.first());
        assert(after.startup_failures == worker::next(w.startup_failures));
        match after.end_of(startup) {
            StartupEnd::Trying(following) => {
                lemma_failed_run_serving(after, following, failures.drop_first());
            },
            _ => {},
        }
    }
}

/// A supervisor that may not exit tries as often as it is set to, and gives up at the
/// last failure and not before. Each failure is counted.
pub proof fn law_serving_supervisor_gives_up(w: WorkerView, failures: Seq<StartupFailure>)
    requires
        !w.settings.exit_on_startup_failure,
        failures.len() <= w.attempts(),
    ensures
        ({
            let (after, end) = worker::failed_run(w, w.first_startup(), failures);
            &&& after.startup_failures == advanced(w.startup_failures, failures.len())
            &&& end == (if failures.len() == w.attempts() {
                StartupEnd::GiveUp
            } else {
                StartupEnd::Trying(
                    Startup { attempt: (1 + failures.len()) as u32, attempts: w.attempts() },
                )
            })
        }),
{
    lemma_failed_run_serving(w, w.first_startup(), failures);
}

proof fn lemma_failed_run_exiting(w: WorkerView, startup: Startup, failures: Seq<StartupFailure>)
    requires
        w.settings.exit_on_startup_failure,
        startup.attempts == w.attempts(),
        1 <= startup.attempt <= w.startup_failures + 1,
        w.startup_failures + failures.len() <= w.attempts(),
        w.startup_failures < w.attempts(),
    ensures
        ({
            let (after, end) = worker::failed_run(w, startup, failures);
            &&& after.startup_failures == w.startup_failures + failures.len()
            &&& end == (if w.startup_failures + failures.len() == w.attempts() {
                StartupEnd::Exit
            } else {
                StartupEnd::Trying(
                    Startup {
                        attempt: (startup.attempt + failures.len()) as u32,
                        attempts: w.attempts(),
                    },
                )
            })
        }),
    decreases failures.len(),
{
    if failures.len() > 0 {
        let after = w.failed(failures.first());
        assert(after.startup_failures == w.startup_failures + 1);
        assert(after.attempts() == w.attempts());
        match after.end_of(startup) {
            StartupEnd::Trying(following) => {
                lemma_failed_run_exiting(after, following, failures.drop_first());
            },
            _ => {},
        }
    }
}

/// A supervisor that may exit does so at the failure that makes as many in a row as it
/// is set to bear, those of earlier runs counted, and at no earlier one. It never gives
/// up in another way.
pub proof fn law_exiting_supervisor_exits(w: WorkerView, failures: Seq<StartupFailure>)
    requires
        w.settings.exit_on_startup_failure,
        w.startup_failures < w.attempts(),
        w.startup_failures + failures.len() <= w.attempts(),
    ensures
        ({
            let (after, end) = worker::failed_run(w, w.first_startup(), failures);
            &&& after.startup_failures == w.startup_failures + failures.len()
            &&& end == (if w.startup_failures + failures.len() == w.attempts() {
                StartupEnd::Exit
            } else {
                StartupEnd::Trying(
                    Startup { attempt: (1 + failures.len()) as u32, attempts: w.attempts() },
                )
            })
        }),
{
    lemma_failed_run_exiting(w, w.first_startup(), failures);
}

/// The counters go up and down by one, and from the highest number to zero and back.
pub proof fn law_counters(n: u32)
    ensures
        worker::next(n) as int == (n + 1) % 0x1_0000_0000,
        worker::previous(n) as int == (n + 0xffff_ffff) % 0x1_0000_0000,
        worker::next(worker::previous(n)) == n,
        worker::previous(worker::next(n)) == n,
{
}

/// The time that has passed and the time when it began make the time that it is; before it
/// began none has passed.
pub proof fn law_elapsed(started: u64, now: u64)
    ensures
        now >= started ==> worker::elapsed(started, now) + started == now,
        now < started ==> worker::elapsed(started, now) == 0,
{
}

/// What a request and what it asks for stand for is what their fields hold.
pub proof fn law_request_fields(r: Request, a: Ask)
    ensures
        r@.frame == r.frame@,
        r@.request_deadline == r.request_deadline,
        r@.lock_deadline == r.lock_deadline,
        a@.opcode == a.opcode,
        a@.payload == a.payload@,
{
}

/// The frame of a request: of the request kind, without flags, with the id, the opcode and
/// the payload that it is made from.
pub proof fn law_request_frame(id: u32, opcode: u16, payload: Seq<u8>)
    ensures
        ({
            let f = worker::request_frame(id, opcode, payload);
            f.kind == 1 && f.request_id == id && f.opcode == opcode && f.flags == 0 && f.payload
                == payload
        }),
{
}

/// A response is the answer to a request exactly when it is a response, of the same id, to
/// the same opcode. Whatever flags and payload it has, it stays the answer; with another
/// kind, id or opcode it is none.
pub proof fn law_answer_matched(
    request: FrameView,
    response: FrameView,
    flags: u16,
    payload: Seq<u8>,
    kind: u16,
    id: u32,
    opcode: u16,
)
    ensures
        worker::answers(request, FrameView { kind: 2, flags, payload, ..request }),
        worker::answers(request, response) <==> response.kind == 2 && response.request_id
            == request.request_id && response.opcode == request.opcode,
        worker::answers(request, FrameView { flags, payload, ..response }) <==> worker::answers(
            request,
            response,
        ),
        kind != 2 ==> !worker::answers(request, FrameView { kind, ..response }),
        id != request.request_id ==> !worker::answers(
            request,
            FrameView { request_id: id, ..response },
        ),
        opcode != request.opcode ==> !worker::answers(request, FrameView { opcode, ..response }),
{
}

/// A new worker has shown that it is ready by any response to the health opcode, whatever
/// its id, flags and payload, and by nothing else.
pub proof fn law_readiness_shown(response: FrameView, id: u32, flags: u16, payload: Seq<u8>)
    ensures
        worker::shows_readiness(response) <==> response.kind == 2 && response.opcode == 1,
        worker::shows_readiness(
            FrameView { kind: 2, opcode: 1, request_id: id, flags, payload },
        ),
{
}

/// Requests are turned away exactly while as many wait as may. One that is let in has the
/// next id, its whole time from when it came and its whole wait from when it began to wait;
/// it counts as one more that waits, and nothing else on record changes.
pub proof fn law_admission(w: WorkerView, opcode: u16, payload: Seq<u8>, now: u64, wait_start: u64)
    ensures
        w.full() <==> w.waiting_count >= w.settings.max_waiters,
        ({
            let r = w.admitted(opcode, payload, now, wait_start);
            &&& r.frame.kind == 1
            &&& r.frame.request_id == w.next_id
            &&& r.frame.opcode == opcode
            &&& r.frame.flags == 0
            &&& r.frame.payload == payload
            &&& r.request_deadline - now == 1000000000 * w.settings.request_timeout_secs
            &&& r.lock_deadline - wait_start == 1000000 * w.settings.busy_timeout_ms
        }),
        w.waiting_count < w.settings.max_waiters ==> w.after_request() == (WorkerView {
            next_id: worker::next(w.next_id),
            waiting_count: (w.waiting_count + 1) as u32,
            ..w
        }),
        w.waiting_count >= w.settings.max_waiters ==> w.after_request() == (WorkerView {
            next_id: worker::next(w.next_id),
            ..w
        }),
        w.busy_error() == WorkerErrorView::Unavailable(
            "worker busy: "@ + text::decimal(w.waiting_count as nat) + " requests already waiting"@,
        ),
{
}

/// A request that gets the worker no longer waits and is the current one from now on;
/// nothing else on record changes.
pub proof fn law_worker_taken(w: WorkerView, id: u32, opcode: u16, now: u64)
    ensures
        w.after_lock(id, opcode, now) == (WorkerView {
            waiting_count: worker::previous(w.waiting_count),
            current: Some(CurrentRequest { id, opcode, started: now }),
            ..w
        }),
{
}

/// A worker whose current request, whichever it is, has held it for as long as another
/// waits is stuck. Its process is killed, which counts as one restart for the reason given;
/// where no process is known, the supervisor exits with status 70. Either way no process is
/// on record after that, and nothing else has changed.
pub proof fn law_stuck_worker_recovered(
    w: WorkerView,
    current: CurrentRequest,
    now: u64,
    reason: Seq<char>,
)
    requires
        w.current == Some(current),
        now >= current.started,
        now - current.started >= 1000000 * w.settings.busy_timeout_ms,
    ensures
        w.stuck(now),
        w.pid != 0 ==> w.recovery(now) == Recovery::Kill(w.pid),
        w.pid == 0 ==> w.recovery(now) == Recovery::Exit(70),
        w.pid != 0 ==> w.recovered(now, reason) == (WorkerView {
            pid: 0,
            restart_count: worker::next(w.restart_count),
            last_restart_reason: Some(reason),
            ..w
        }),
        w.pid == 0 ==> w.recovered(now, reason) == w,
{
}

/// When the current request began and how long another waits decide about recovery, and
/// nothing else about the request or the record: not its id, not its opcode, not how many
/// wait or what went wrong before.
pub proof fn law_recovery_by_age(w: WorkerView, v: WorkerView, c: CurrentRequest, d: CurrentRequest, now: u64)
    requires
        w.current == Some(c),
        v.current == Some(d),
        c.started == d.started,
        w.settings.busy_timeout_ms == v.settings.busy_timeout_ms,
        w.pid == v.pid,
    ensures
        w.stuck(now) == v.stuck(now),
        w.recovery(now) == v.recovery(now),
{
}

/// A request that waited in vain counts as a timeout and no longer waits, and the error is
/// on record. A stuck worker is killed on the way, and only then is a restart counted.
pub proof fn law_waited_in_vain(w: WorkerView, now: u64)
    ensures
        ({
            let after = w.after_lock_timeout(now);
            let killed = w.stuck(now) && w.pid != 0;
            &&& after == (WorkerView {
                timeout_count: worker::next(w.timeout_count),
                waiting_count: worker::previous(w.waiting_count),
                last_error: Some("worker busy timed out"@),
                pid: if w.stuck(now) {
                    0
                } else {
                    w.pid
                },
                restart_count: if killed {
                    worker::next(w.restart_count)
                } else {
                    w.restart_count
                },
                last_restart_reason: if killed {
                    Some("lock wait timeout"@)
                } else {
                    w.last_restart_reason
                },
                ..w
            })
        }),
        w.with_timeout().recovery(now) == w.recovery(now),
        w.after_lock_poisoned() == (WorkerView {
            waiting_count: worker::previous(w.waiting_count),
            last_error: Some("worker mutex poisoned"@),
            ..w
        }),
{
}

/// A request that is done is no longer the current one; where another is, it stays so.
pub proof fn law_done(w: WorkerView, id: u32)
    ensures
        w.done_with(id) == (WorkerView {
            current: match w.current {
                Some(c) => if c.id == id {
                    None
                } else {
                    Some(c)
                },
                None => None,
            },
            ..w
        }),
{
}

/// What is on record after a request has ended: with an answer, that no startup counts as
/// failed; with a failure or a wrong answer, that the process is gone, one more restart and
/// its reason, the error, and one more timeout where it was one; and nothing else.
pub proof fn law_request_ended(
    w: WorkerView,
    id: u32,
    failure: IoErrorView,
    timeout_reason: Seq<char>,
    other_reason: Seq<char>,
)
    ensures
        w.after_answer(id) == (WorkerView {
            startup_failures: 0,
            current: w.done_with(id).current,
            ..w
        }),
        w.after_mismatch(id) == (WorkerView {
            pid: 0,
            restart_count: worker::next(w.restart_count),
            last_restart_reason: Some("mismatched ipc response"@),
            last_error: Some("mismatched ipc response"@),
            current: w.done_with(id).current,
            ..w
        }),
        w.after_failure(id, failure, timeout_reason, other_reason) == (WorkerView {
            pid: 0,
            restart_count: worker::next(w.restart_count),
            last_restart_reason: Some(
                if failure.kind == ErrorKind::TimedOut {
                    timeout_reason
                } else {
                    other_reason
                },
            ),
            last_error: Some(failure.message),
            timeout_count: if failure.kind == ErrorKind::TimedOut {
                worker::next(w.timeout_count)
            } else {
                w.timeout_count
            },
            current: w.done_with(id).current,
            ..w
        }),
{
}

/// The single notes change what they are about and nothing else.
pub proof fn law_notes(w: WorkerView, id: u32, opcode: u16, now: u64, note: Seq<char>, pid: u32)
    ensures
        w.waiting() == (WorkerView { waiting_count: worker::next(w.waiting_count), ..w }),
        w.not_waiting() == (WorkerView { waiting_count: worker::previous(w.waiting_count), ..w }),
        w.working_on(id, opcode, now) == (WorkerView {
            current: Some(CurrentRequest { id, opcode, started: now }),
            ..w
        }),
        w.with_error(note) == (WorkerView { last_error: Some(note), ..w }),
        w.with_restart(note) == (WorkerView {
            restart_count: worker::next(w.restart_count),
            last_restart_reason: Some(note),
            ..w
        }),
        w.abandoned(note) == (WorkerView {
            pid: 0,
            restart_count: worker::next(w.restart_count),
            last_restart_reason: Some(note),
            ..w
        }),
        w.with_process(pid) == (WorkerView { pid, ..w }),
        w.without_process() == (WorkerView { pid: 0, ..w }),
        w.responsive() == (WorkerView { startup_failures: 0, ..w }),
        w.with_startup_failure() == (WorkerView {
            startup_failures: worker::next(w.startup_failures),
            ..w
        }),
{
}

/// Startups are tried as often as is set, and at least once. A failed one counts, and one
/// whose process came up leaves none on record. The supervisor exits where it may and as
/// many have failed in a row as are tried; else it tries again while attempts are left, and
/// gives up at the last.
pub proof fn law_startup_failed(w: WorkerView, startup: Startup, failure: StartupFailure)
    ensures
        w.settings.max_startup_failures > 0 ==> w.attempts() == w.settings.max_startup_failures,
        w.settings.max_startup_failures == 0 ==> w.attempts() == 1,
        w.first_startup().attempt == 1,
        w.first_startup().attempts == w.attempts(),
        w.failed(StartupFailure::Spawn) == (WorkerView {
            startup_failures: worker::next(w.startup_failures),
            ..w
        }),
        w.failed(StartupFailure::Probe) == (WorkerView {
            startup_failures: worker::next(w.startup_failures),
            pid: 0,
            ..w
        }),
        w.hopeless() <==> w.settings.exit_on_startup_failure && w.startup_failures >= w.attempts(),
        w.end_of(startup) is Exit <==> w.hopeless(),
        w.end_of(startup) is Trying <==> !w.hopeless() && startup.attempt < startup.attempts,
        w.end_of(startup) is GiveUp <==> !w.hopeless() && startup.attempt >= startup.attempts,
        w.end_of(startup) matches StartupEnd::Trying(following) ==> following.attempt
            == startup.attempt + 1 && following.attempts == startup.attempts,
{
}

/// An optional text on record is the text, where there is one.
pub proof fn law_optional_text(s: String)
    ensures
        worker::opt_text(Some(s)) == Some(s@),
        worker::opt_text(None) is None,
{
}

/// A launch is a worker exactly when it runs; the error of any other says why.
pub proof fn law_launched(failure: IoError, pid: u32)
    ensures
        worker::launch_error(Launch::Running(pid)) is None,
        worker::launch_error(Launch::Failed(failure)) == Some(WorkerErrorView::Io(failure.message@)),
        worker::launch_error(Launch::Blocking(failure)) == Some(
            WorkerErrorView::Io(failure.message@),
        ),
        worker::launch_error(Launch::NoStdin) == Some(
            WorkerErrorView::Io("worker stdin unavailable"@),
        ),
        worker::launch_error(Launch::NoStdout) == Some(
            WorkerErrorView::Io("worker stdout unavailable"@),
        ),
{
}

} // verus!
