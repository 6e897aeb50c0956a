//! Whole coordinator runs: submissions, the worker, and finishing, against an in-memory
//! store that succeeds, fails or panics.

use transcript_pump::ack::RequiredAckWaiter;
use transcript_pump::coordinator::{
    required_outcome, AbandonmentAuthority, ActivePhase, JoinOutcome, QueuedLifecycle,
    SharedStatusState,
};
use transcript_pump::coordinator_model::{QUEUED_REQUIRED_DISCONNECT, STATUS_WORKER_PANIC};
use transcript_pump::error::{StatusSettlement, TranscriptPumpError};
use transcript_pump::fault::FirstFault;
use transcript_pump::status::{
    build_status, PumpState, PumpStatus, PumpSummary, StatusTransportDiagnostics,
    TerminalStatusSpec,
};
use transcript_pump::text::MAX_STATUS_ERROR_LEN;
use transcript_pump::worker::{StatusWorker, WorkerAction};

/// What a store does with one document.
enum Reply {
    Returns(Result<(), String>),
    Panics,
}

/// A store is the list of what it does with each state.
struct Store {
    running: Box<dyn Fn() -> Reply>,
    complete: Box<dyn Fn() -> Reply>,
    failed: Box<dyn Fn() -> Reply>,
    writes: Vec<PumpStatus>,
}

fn ok() -> Reply {
    Reply::Returns(Ok(()))
}

fn fails(message: &str) -> Reply {
    Reply::Returns(Err(message.to_string()))
}

fn store(
    running: impl Fn() -> Reply + 'static,
    complete: impl Fn() -> Reply + 'static,
    failed: impl Fn() -> Reply + 'static,
) -> Store {
    Store {
        running: Box::new(running),
        complete: Box::new(complete),
        failed: Box::new(failed),
        writes: Vec::new(),
    }
}

fn recording_store() -> Store {
    store(ok, ok, ok)
}

fn fail_state_store(fail: PumpState) -> Store {
    let reply = move |state: PumpState| {
        if state == fail {
            Reply::Returns(Err(format!(
                "persist pump status: simulated {state:?} write failure"
            )))
        } else {
            ok()
        }
    };
    store(
        move || reply(PumpState::Running),
        move || reply(PumpState::Complete),
        move || reply(PumpState::Failed),
    )
}

fn panic_store() -> Store {
    store(|| Reply::Panics, || Reply::Panics, || Reply::Panics)
}

fn long_error_store() -> Store {
    let long = || Reply::Returns(Err("x".repeat(5000)));
    store(long, long, long)
}

impl Store {
    fn write(&mut self, status: &PumpStatus) -> Reply {
        self.writes.push(status.clone());
        match status.state {
            PumpState::Running => (self.running)(),
            PumpState::Complete => (self.complete)(),
            PumpState::Failed => (self.failed)(),
        }
    }
}

/// A coordinator whose worker runs whenever it is let to.
struct Coordinator {
    shared: SharedStatusState,
    worker: StatusWorker,
    latch: FirstFault,
    store: Store,
    /// The worker's settlement once it has exited.
    exited: Option<StatusSettlement>,
    joined: bool,
}

impl Coordinator {
    fn spawn(store: Store) -> Self {
        Coordinator {
            shared: SharedStatusState::new(),
            worker: StatusWorker::new(),
            latch: FirstFault::default(),
            store,
            exited: None,
            joined: false,
        }
    }

    /// Let the worker take its next work. Returns the document it hands to the store.
    fn begin(&mut self) -> Option<PumpStatus> {
        match self.worker.next_action(&mut self.shared, 77) {
            WorkerAction::Write(status) => Some(status),
            WorkerAction::AwaitWake => None,
            other => panic!("unexpected action {other:?}"),
        }
    }

    /// Let the store answer, and everything that follows until the next work.
    fn answer(&mut self, status: PumpStatus) {
        let mut status = status;
        loop {
            let result = match self.store.write(&status) {
                Reply::Returns(result) => result,
                Reply::Panics => {
                    self.exited = Some(self.worker.unwound(&mut self.shared, &mut self.latch));
                    return;
                }
            };
            match self
                .worker
                .write_returned(&mut self.shared, &mut self.latch, result, 77)
            {
                WorkerAction::Continue => return,
                WorkerAction::Write(fallback) => status = fallback,
                WorkerAction::Exit(settlement) => {
                    self.exited = Some(settlement);
                    return;
                }
                WorkerAction::AwaitWake => panic!("a worker never waits for a wake mid-write"),
            }
        }
    }

    /// Let the worker drain all it can.
    fn drain(&mut self) {
        while self.exited.is_none() {
            match self.begin() {
                Some(status) => self.answer(status),
                None => return,
            }
        }
    }

    fn enqueue(&mut self, status: PumpStatus) -> Result<RequiredAckWaiter, TranscriptPumpError> {
        self.shared.enqueue_required(status)
    }

    fn submit_required(&mut self, status: PumpStatus) -> Result<(), TranscriptPumpError> {
        let waiter = self.enqueue(status)?;
        self.drain();
        assert!(
            waiter.is_observable(&self.shared.acks),
            "no submitter is left waiting"
        );
        required_outcome(waiter.wait(&self.shared.acks))
    }

    fn submit_periodic(&mut self, status: PumpStatus) {
        self.shared.submit_periodic(status);
    }

    fn finish(&mut self, terminal: TerminalStatusSpec) -> StatusSettlement {
        self.shared.begin_finish(terminal);
        self.drain();
        let outcome = if self.joined {
            JoinOutcome::AlreadyJoined
        } else {
            JoinOutcome::Settled(self.exited.take().expect("the worker exits"))
        };
        self.joined = true;
        self.exited = Some(StatusSettlement::default());
        let authority = AbandonmentAuthority::assume_worker_abandoned();
        self.shared.complete_finish(outcome, &authority)
    }

    fn complete(&mut self) -> StatusSettlement {
        self.finish(TerminalStatusSpec::complete(0, PumpSummary::default()))
    }
}

fn running_status() -> PumpStatus {
    build_status(
        PumpState::Running,
        0,
        0,
        &PumpSummary::default(),
        None,
        None,
        StatusTransportDiagnostics::default(),
    )
}

fn tuple(d: &StatusTransportDiagnostics) -> (u64, u64, u64, u64, u64, u64) {
    (
        d.submitted,
        d.written,
        d.coalesced,
        d.dropped,
        d.disconnected,
        d.write_failures,
    )
}

#[test]
fn live_pending_write_overlapping_finish_keeps_real_result() {
    let mut coordinator = Coordinator::spawn(recording_store());
    let waiter = coordinator.enqueue(running_status()).expect("enqueued");
    let status = coordinator.begin().expect("the store is entered");
    coordinator
        .shared
        .begin_finish(TerminalStatusSpec::complete(0, PumpSummary::default()));
    assert!(matches!(
        coordinator
            .shared
            .inner
            .active_required
            .as_ref()
            .map(|a| &a.phase),
        Some(ActivePhase::Pending)
    ));
    coordinator.shared.settle_active(None);
    assert!(
        !waiter.is_observable(&coordinator.shared.acks),
        "an unauthorized reconciler cannot resolve the live pending write"
    );
    coordinator.answer(status);
    let settlement = coordinator.complete();
    assert_eq!(
        waiter.wait(&coordinator.shared.acks),
        Ok(()),
        "the real store result wins"
    );
    assert_eq!(
        coordinator.store.writes.first().map(|s| s.state),
        Some(PumpState::Running)
    );
    assert_eq!(settlement.diagnostics.written, 2);
    assert_eq!(
        (
            settlement.diagnostics.write_failures,
            settlement.diagnostics.disconnected
        ),
        (0, 0)
    );
    assert!(settlement.diagnostics.is_balanced());
    assert!(coordinator.shared.is_quiescent());
}

#[test]
fn live_pending_write_overlapping_drop_keeps_real_result() {
    let mut coordinator = Coordinator::spawn(recording_store());
    let waiter = coordinator.enqueue(running_status()).expect("enqueued");
    let status = coordinator.begin().expect("the store is entered");
    coordinator.shared.settle_active(None);
    assert!(!waiter.is_observable(&coordinator.shared.acks));
    coordinator.answer(status);
    coordinator.drain();
    // The wake is gone: the worker settles, then the drop reconciles once more.
    coordinator.worker.wake_disconnected(&mut coordinator.shared);
    let authority = AbandonmentAuthority::assume_worker_abandoned();
    coordinator.shared.reconcile_abandoned(&authority);
    assert_eq!(waiter.wait(&coordinator.shared.acks), Ok(()));
    let d = coordinator.shared.diagnostics();
    assert_eq!(tuple(&d), (1, 1, 0, 0, 0, 0));
    assert!(d.is_balanced());
    assert!(coordinator.shared.is_quiescent());
}

#[test]
fn wake_disconnect_resolves_a_blocked_queued_submitter() {
    let mut coordinator = Coordinator::spawn(recording_store());
    assert!(coordinator.begin().is_none(), "the worker is idle");
    let waiter = coordinator.enqueue(running_status()).expect("enqueued");

    let settlement = coordinator
        .worker
        .wake_disconnected(&mut coordinator.shared);

    assert!(
        waiter.is_observable(&coordinator.shared.acks),
        "the worker's wake-disconnect reconciliation resolved the caller"
    );
    assert!(settlement.periodic_error.is_none());
    assert!(settlement.settlement_error.is_none());
    assert!(settlement.fallback_error.is_none());
    assert!(settlement.worker_error.is_none());
    assert_eq!(tuple(&settlement.diagnostics), (1, 0, 0, 0, 1, 0));

    assert_eq!(
        waiter
            .wait(&coordinator.shared.acks)
            .expect_err("the queued submitter is resolved disconnected"),
        QUEUED_REQUIRED_DISCONNECT,
        "the exact immutable disconnected result reaches the blocked caller"
    );
    assert!(
        coordinator.store.writes.is_empty(),
        "the never-woken command never reached the store"
    );
    let d = coordinator.shared.diagnostics();
    assert_eq!(tuple(&d), (1, 0, 0, 0, 1, 0));
    assert!(d.is_balanced(), "diagnostics balance independently: {d:?}");
    assert!(coordinator.shared.is_quiescent());
}

#[test]
fn coordinator_worker_finish_drop_reconcile_interleavings_converge() {
    // Normal finish.
    {
        let mut c = Coordinator::spawn(recording_store());
        assert!(c.submit_required(running_status()).is_ok());
        let s = c.complete();
        assert!(s.diagnostics.is_balanced(), "balanced: {:?}", s.diagnostics);
        assert!(
            c.shared.is_quiescent(),
            "quiescent after normal finish"
        );
        assert_eq!(s.diagnostics.write_failures, 0);
    }

    // Worker panic and finish, then a repeated authorized reconcile.
    {
        let mut c = Coordinator::spawn(panic_store());
        assert!(c.submit_required(running_status()).is_err());
        let s = c.complete();
        assert!(s.diagnostics.is_balanced(), "balanced: {:?}", s.diagnostics);
        assert!(c.shared.is_quiescent(), "quiescent after panic finish");
        assert_eq!(s.diagnostics.write_failures, 1);
        assert_eq!(s.diagnostics.disconnected, 1);

        let before = c.shared.diagnostics();
        let authority = AbandonmentAuthority::assume_worker_abandoned();
        c.shared.reconcile_abandoned(&authority);
        let after = c.shared.diagnostics();
        assert_eq!(
            (before.written, before.write_failures, before.disconnected),
            (after.written, after.write_failures, after.disconnected),
            "repeated reconciliation is idempotent: {before:?} vs {after:?}"
        );
        assert!(c.shared.is_quiescent());
    }

    // Wake disconnection of an idle coordinator.
    {
        let mut c = Coordinator::spawn(recording_store());
        assert!(c.begin().is_none());
        let s = c.worker.wake_disconnected(&mut c.shared);
        assert!(s.diagnostics.is_balanced());
        assert!(c.shared.is_quiescent());
    }
}

#[test]
fn settlement_result_retains_all_distinct_failures() {
    let mut coordinator = Coordinator::spawn(store(
        || fails("running write failure"),
        || fails("Complete write failure"),
        || Reply::Panics,
    ));

    let required = coordinator
        .submit_required(running_status())
        .expect_err("the required write fails");
    assert!(
        required.message().contains("running write failure"),
        "the observed required-write result reaches its caller unchanged: {}",
        required.display()
    );

    coordinator.submit_periodic(running_status());
    let settlement = coordinator.complete();

    let err = settlement
        .terminal_failure()
        .expect("a composite terminal failure, never silent success");
    assert!(
        err.periodic_error()
            .is_some_and(|e| e.contains("running write failure")),
        "the periodic failure is retained distinctly: {err:?}"
    );
    assert!(
        err.settlement_error()
            .is_some_and(|e| e.contains("Complete write failure")),
        "the terminal-settlement failure is retained distinctly: {err:?}"
    );
    assert!(
        err.fallback_error()
            .is_some_and(|e| e.contains(STATUS_WORKER_PANIC)),
        "the fallback failure is retained distinctly: {err:?}"
    );
    assert_eq!(
        err.worker_error(),
        Some(STATUS_WORKER_PANIC),
        "the worker termination is retained distinctly: {err:?}"
    );
    assert!(
        err.message().contains("Complete write failure"),
        "the immutable primary is not replaced by a later diagnostic: {err:?}"
    );
    assert!(
        err.transport().is_some_and(|t| t.is_balanced()),
        "the balanced transport is retained: {err:?}"
    );
    assert_eq!(
        coordinator.latch.message().as_deref(),
        Some("Complete write failure"),
        "the settlement failure was published before the fallback panicked"
    );
}

#[test]
fn failure_settlement_is_exact_and_quiescent() {
    let mut coordinator = Coordinator::spawn(fail_state_store(PumpState::Complete));

    coordinator
        .submit_required(running_status())
        .expect("the required write succeeds");
    let settlement = coordinator.complete();

    let d = &settlement.diagnostics;
    assert_eq!(d.submitted, 3, "exact submissions: {d:?}");
    assert_eq!(d.written, 2, "exact written: {d:?}");
    assert_eq!(d.write_failures, 1, "exact write failures: {d:?}");
    assert_eq!(d.coalesced, 0, "exact coalesced: {d:?}");
    assert_eq!(d.dropped, 0, "exact dropped: {d:?}");
    assert_eq!(d.disconnected, 0, "exact disconnected: {d:?}");
    assert!(d.is_balanced(), "terminal-inclusive balance holds: {d:?}");
    assert!(
        coordinator.shared.is_quiescent(),
        "no residual state after failure"
    );
    assert!(coordinator.shared.inner.active_required.is_none());
    assert!(
        coordinator
            .shared
            .inner
            .required
            .iter()
            .all(|e| !matches!(e.lifecycle, QueuedLifecycle::Resolving { .. })),
        "no shared-resolving state"
    );
}

#[test]
fn successful_settlement_is_exact_and_quiescent() {
    let mut coordinator = Coordinator::spawn(recording_store());

    coordinator
        .submit_required(running_status())
        .expect("the required write succeeds");
    let settlement = coordinator.complete();

    let d = &settlement.diagnostics;
    assert_eq!(d.submitted, 2, "exact submissions: {d:?}");
    assert_eq!(d.written, 2, "exact written: {d:?}");
    assert_eq!(
        (d.coalesced, d.dropped, d.disconnected, d.write_failures),
        (0, 0, 0, 0),
        "no loss on success: {d:?}"
    );
    assert!(d.is_balanced(), "terminal-inclusive balance holds: {d:?}");
    assert!(settlement.terminal_failure().is_none(), "clean success");
    assert!(
        coordinator.shared.is_quiescent(),
        "no residual state after success"
    );
    assert!(coordinator.shared.inner.active_required.is_none());
    assert!(coordinator
        .shared
        .inner
        .required
        .iter()
        .all(|e| !matches!(e.lifecycle, QueuedLifecycle::Resolving { .. })));
}

#[test]
fn latest_periodic_snapshot_replaces_older_pending_snapshot() {
    let mut coordinator = Coordinator::spawn(recording_store());

    // A: taken from the slot and under way.
    coordinator.submit_periodic(running_status());
    let first = coordinator.begin().expect("the store is entered");
    assert_eq!(first.state, PumpState::Running);

    // B then C: B lands in the slot, C replaces it.
    coordinator.submit_periodic(running_status());
    coordinator.submit_periodic(running_status());

    coordinator.answer(first);
    let settlement = coordinator.complete();

    assert_eq!(settlement.diagnostics.submitted, 4);
    assert_eq!(
        settlement.diagnostics.coalesced, 1,
        "the replaced snapshot B"
    );
    assert_eq!(
        settlement.diagnostics.written, 3,
        "A, C, and the terminal reach the store"
    );
    assert!(settlement.diagnostics.is_balanced());
    assert_eq!(
        coordinator.store.writes.len(),
        3,
        "A, C, and the terminal"
    );
}

#[test]
fn required_statuses_are_fifo_and_acknowledged() {
    let mut coordinator = Coordinator::spawn(recording_store());
    let numbered = |records: u64| {
        build_status(
            PumpState::Running,
            0,
            0,
            &PumpSummary {
                records,
                ..PumpSummary::default()
            },
            None,
            None,
            StatusTransportDiagnostics::default(),
        )
    };

    for records in [1u64, 2, 3] {
        coordinator
            .submit_required(numbered(records))
            .expect("a writable required status is acknowledged");
        assert_eq!(
            coordinator.store.writes.last().unwrap().records,
            records,
            "acknowledgement follows the write of this required status"
        );
    }
    // Several queued at once drain in the order of submission too.
    let waiters: Vec<RequiredAckWaiter> = [4u64, 5, 6]
        .iter()
        .map(|n| coordinator.enqueue(numbered(*n)).unwrap())
        .collect();
    coordinator.drain();
    for waiter in waiters {
        assert_eq!(waiter.wait(&coordinator.shared.acks), Ok(()));
    }
    let order: Vec<u64> = coordinator.store.writes.iter().map(|s| s.records).collect();
    assert_eq!(
        order,
        vec![1, 2, 3, 4, 5, 6],
        "required statuses persist FIFO"
    );
}

#[test]
fn terminal_ack_cannot_be_followed_by_running() {
    let mut coordinator = Coordinator::spawn(recording_store());

    coordinator.submit_required(running_status()).unwrap();
    let _ = coordinator.complete();

    coordinator.submit_periodic(running_status());
    assert!(
        coordinator.submit_required(running_status()).is_err(),
        "a required Running after the terminal is refused"
    );

    let persisted = &coordinator.store.writes;
    assert_eq!(
        persisted.last().unwrap().state,
        PumpState::Complete,
        "the terminal Complete is the final persisted state"
    );
    assert_eq!(
        persisted
            .iter()
            .filter(|s| s.state == PumpState::Running)
            .count(),
        1,
        "only the initial Running was ever written; none followed the terminal"
    );
}

#[test]
fn terminal_status_diagnostics_balance() {
    let mut coordinator = Coordinator::spawn(recording_store());
    coordinator.submit_required(running_status()).unwrap();
    for _ in 0..5 {
        coordinator.submit_periodic(running_status());
    }
    let settlement = coordinator.complete();

    let d = &settlement.diagnostics;
    assert!(d.is_balanced(), "diagnostics balance: {d:?}");
    assert_eq!(
        d.submitted,
        d.written + d.coalesced + d.dropped + d.disconnected + d.write_failures,
        "every submission is accounted in exactly one category"
    );
    assert_eq!(
        d.submitted, 7,
        "one required Running, five periodics, and the terminal"
    );
    let persisted = coordinator.store.writes.last().unwrap();
    assert_eq!(persisted.state, PumpState::Complete);
    assert!(persisted.transport.is_balanced());
}

#[test]
fn terminal_submission_is_counted_in_diagnostics() {
    let mut coordinator = Coordinator::spawn(recording_store());
    coordinator.submit_required(running_status()).unwrap();
    let settlement = coordinator.complete();
    assert_eq!(settlement.diagnostics.submitted, 2, "Running + terminal");
    assert_eq!(settlement.diagnostics.written, 2, "both persisted");
    assert!(settlement.diagnostics.is_balanced());
    let persisted = coordinator.store.writes.last().unwrap();
    assert_eq!(persisted.transport.submitted, 2, "the doc counts itself");
    assert_eq!(persisted.transport.written, 2);
    assert!(persisted.transport.is_balanced());
    assert_eq!(persisted.updated_at_ms, 77);
}

#[test]
fn disconnected_status_submission_is_accounted() {
    let mut coordinator = Coordinator::spawn(recording_store());
    coordinator.submit_required(running_status()).unwrap();
    let _ = coordinator.complete();
    let written_before = coordinator.store.writes.len();

    coordinator.submit_periodic(running_status());
    assert!(coordinator.submit_required(running_status()).is_err());

    let diagnostics = coordinator.shared.diagnostics();
    assert_eq!(
        diagnostics.disconnected, 2,
        "both post-shutdown submissions are accounted disconnected"
    );
    assert_eq!(
        coordinator.store.writes.len(),
        written_before,
        "no disconnected submission reaches the store"
    );
    assert!(diagnostics.is_balanced());
}

#[test]
fn composite_status_failure_retains_periodic_and_worker_diagnostics() {
    let mut coordinator = Coordinator::spawn(store(
        || fails("simulated periodic write failure"),
        || Reply::Panics,
        || Reply::Panics,
    ));

    coordinator.submit_periodic(running_status());
    let settlement = coordinator.complete();

    let err = settlement
        .terminal_failure()
        .expect("a worker panic is a terminal failure, never silent success");
    assert_eq!(
        err.worker_error(),
        Some(STATUS_WORKER_PANIC),
        "the worker-join failure is retained in its own field: {err:?}"
    );
    assert!(
        err.periodic_error()
            .is_some_and(|e| e.contains("periodic write failure")),
        "the earlier best-effort periodic failure is retained distinctly: {err:?}"
    );
    assert!(
        err.message().contains("panicked"),
        "the immutable primary names the worker panic: {err:?}"
    );
    assert!(
        err.transport().is_some_and(|t| t.is_balanced()),
        "the balanced transport diagnostics are preserved: {err:?}"
    );
}

#[test]
fn status_worker_panic_latches_first_fault() {
    let mut coordinator = Coordinator::spawn(panic_store());
    assert!(coordinator.submit_required(running_status()).is_err());
    let settlement = coordinator.complete();

    assert!(
        coordinator.latch.observed(),
        "the worker panic latched the first fault"
    );
    assert_eq!(
        coordinator.latch.message().as_deref(),
        Some(STATUS_WORKER_PANIC)
    );
    assert!(
        settlement.terminal_failure().is_some(),
        "a worker panic is a terminal failure, never silent success"
    );
    assert!(
        settlement.diagnostics.write_failures >= 1,
        "the in-flight write the store crashed on is a write failure: {:?}",
        settlement.diagnostics
    );
    assert!(
        settlement
            .diagnostics
            .last_error
            .as_deref()
            .is_some_and(|e| e.contains("panicked")),
        "the crashed write records its panic as the last error: {:?}",
        settlement.diagnostics
    );
}

#[test]
fn worker_panic_reconciles_abandoned_work_and_keeps_balance() {
    let mut coordinator = Coordinator::spawn(panic_store());
    assert!(
        coordinator.submit_required(running_status()).is_err(),
        "the submitter is disconnected, not hung, when the worker panics"
    );
    let settlement = coordinator.complete();
    assert_eq!(settlement.diagnostics.submitted, 2, "Running + terminal");
    assert_eq!(
        settlement.diagnostics.write_failures, 1,
        "the crashed Running write is a write failure, not disconnected: {:?}",
        settlement.diagnostics
    );
    assert_eq!(
        settlement.diagnostics.disconnected, 1,
        "only the never-attempted terminal is disconnected: {:?}",
        settlement.diagnostics
    );
    assert_eq!(settlement.diagnostics.written, 0);
    assert!(
        settlement.diagnostics.is_balanced(),
        "abandoned work is reconciled so the balance holds: {:?}",
        settlement.diagnostics
    );
}

#[test]
fn required_write_failure_is_not_labeled_periodic() {
    let mut coordinator = Coordinator::spawn(fail_state_store(PumpState::Running));
    assert!(
        coordinator.submit_required(running_status()).is_err(),
        "a failed required write is a typed failure"
    );
    let settlement = coordinator.finish(TerminalStatusSpec::failed(
        0,
        PumpSummary::default(),
        "primary",
    ));
    assert!(
        settlement.periodic_error.is_none(),
        "a required write failure is not a periodic error: {:?}",
        settlement.periodic_error
    );
}

#[test]
fn fallback_panic_preserves_settlement_and_worker_diagnostics_distinctly() {
    let mut coordinator = Coordinator::spawn(store(
        ok,
        || fails("simulated Complete write failure"),
        || Reply::Panics,
    ));
    let settlement = coordinator.complete();

    assert!(
        settlement
            .settlement_error
            .as_deref()
            .is_some_and(|e| e.contains("simulated Complete write failure")),
        "the Complete settlement failure survives the fallback panic: {:?}",
        settlement.settlement_error
    );
    assert_eq!(
        settlement.worker_error.as_deref(),
        Some(STATUS_WORKER_PANIC),
        "the fallback panic is preserved distinctly as the worker error"
    );
    assert!(
        settlement
            .fallback_error
            .as_deref()
            .is_some_and(|e| e.contains(STATUS_WORKER_PANIC)),
        "the fallback write's own failure is attributed to the distinct fallback_error: {:?}",
        settlement.fallback_error
    );
    assert!(
        coordinator.latch.observed(),
        "the terminal-settlement failure latched the first fault before the fallback"
    );
    assert!(
        settlement.diagnostics.is_balanced(),
        "the balance holds across a failed Complete plus a panicking fallback: {:?}",
        settlement.diagnostics
    );
}

#[test]
fn settlement_leaves_no_pending_slot_queue_or_active_write() {
    let mut coordinator = Coordinator::spawn(recording_store());
    coordinator.submit_periodic(running_status());
    coordinator.submit_required(running_status()).unwrap();
    coordinator.submit_periodic(running_status());
    let settlement = coordinator.complete();

    assert!(
        coordinator.shared.is_quiescent(),
        "no coalescing slot, required queue, terminal, or in-flight write remains \
         after settlement"
    );
    assert!(
        settlement.diagnostics.is_balanced(),
        "every submission is accounted at settlement: {:?}",
        settlement.diagnostics
    );
}

#[test]
fn required_write_failure_returned_to_caller_is_bounded() {
    let mut coordinator = Coordinator::spawn(long_error_store());
    let err = coordinator
        .submit_required(running_status())
        .expect_err("a failed required write is a typed failure");
    assert!(
        err.message().len() <= MAX_STATUS_ERROR_LEN,
        "the required failure returned to the caller is bounded, got {}",
        err.message().len()
    );
    assert!(
        err.message().ends_with("…[truncated]"),
        "the long required error is truncated with the marker: {}",
        err.message()
    );
}

#[test]
fn a_multibyte_failed_document_is_bounded() {
    let mut coordinator = Coordinator::spawn(recording_store());
    coordinator.submit_required(running_status()).unwrap();
    let long = "€".repeat(5000);
    let settlement =
        coordinator.finish(TerminalStatusSpec::failed(0, PumpSummary::default(), &long));

    let persisted = coordinator.store.writes.last().unwrap();
    assert_eq!(persisted.state, PumpState::Failed);
    let persisted_error = persisted
        .error
        .clone()
        .expect("the Failed document carries its error");
    assert!(persisted_error.len() <= MAX_STATUS_ERROR_LEN);
    assert_eq!(persisted_error.chars().next(), Some('€'));
    assert!(persisted.transport.is_balanced());
    assert!(settlement.diagnostics.is_balanced());
}

#[test]
fn real_path_transport_last_error_is_bounded() {
    let mut coordinator = Coordinator::spawn(long_error_store());
    let _ = coordinator.submit_required(running_status());
    let settlement = coordinator.finish(TerminalStatusSpec::failed(
        0,
        PumpSummary::default(),
        "primary",
    ));
    let last_error = settlement
        .diagnostics
        .last_error
        .clone()
        .expect("a failed write records a last error");
    assert!(
        last_error.len() <= MAX_STATUS_ERROR_LEN,
        "the retained transport last_error is bounded, got {}",
        last_error.len()
    );
    assert!(
        settlement.diagnostics.is_balanced(),
        "the balance holds despite the failing writes: {:?}",
        settlement.diagnostics
    );
}

#[test]
fn running_document_carries_projected_transport() {
    let mut coordinator = Coordinator::spawn(recording_store());
    coordinator.submit_required(running_status()).unwrap();

    let running = &coordinator.store.writes[0];
    assert_eq!(running.state, PumpState::Running);
    assert_eq!(
        running.transport.submitted, 1,
        "the Running document projects the live submission count, not zeros"
    );
    assert_eq!(running.transport.written, 1, "its own write is projected");
    assert!(running.transport.is_balanced());
}

#[test]
fn a_failed_terminal_has_no_fallback() {
    let mut coordinator = Coordinator::spawn(fail_state_store(PumpState::Failed));
    let settlement = coordinator.finish(TerminalStatusSpec::failed(
        0,
        PumpSummary::default(),
        "primary",
    ));
    assert_eq!(coordinator.store.writes.len(), 1, "no second attempt");
    assert_eq!(
        settlement.settlement_error.as_deref(),
        Some("persist pump status: simulated Failed write failure")
    );
    assert!(settlement.fallback_error.is_none());
    assert_eq!(tuple(&settlement.diagnostics), (1, 0, 0, 0, 0, 1));
}

#[test]
fn the_fallback_document_names_the_complete_failure() {
    let mut coordinator = Coordinator::spawn(store(ok, || fails("disk full"), ok));
    let settlement = coordinator.complete();
    assert_eq!(coordinator.store.writes.len(), 2);
    let fallback = &coordinator.store.writes[1];
    assert_eq!(fallback.state, PumpState::Failed);
    assert_eq!(
        fallback.error.as_deref(),
        Some("complete status could not be persisted: disk full")
    );
    assert_eq!(
        tuple(&fallback.transport),
        (2, 1, 0, 0, 0, 1),
        "the document counts itself as written"
    );
    assert!(settlement.fallback_error.is_none());
    assert!(settlement.terminal_failure().is_some());
}

#[test]
fn a_periodic_failure_alone_does_not_fail_capture_but_is_retained() {
    let mut coordinator = Coordinator::spawn(store(|| fails("flaky"), ok, ok));
    coordinator.submit_periodic(running_status());
    let settlement = coordinator.complete();
    assert!(settlement.terminal_failure().is_none());
    assert_eq!(settlement.periodic_error.as_deref(), Some("flaky"));
    let terminal = coordinator.store.writes.last().unwrap();
    assert_eq!(terminal.state, PumpState::Complete);
    assert_eq!(terminal.periodic_error.as_deref(), Some("flaky"));
    assert_eq!(tuple(&terminal.transport), (2, 1, 0, 0, 0, 1));
}

#[test]
fn every_join_outcome_settles_balanced() {
    // A worker thread that panicked past its own catch.
    let mut shared = SharedStatusState::new();
    let waiter = shared.enqueue_required(running_status()).unwrap();
    shared.begin_finish(TerminalStatusSpec::complete(0, PumpSummary::default()));
    let authority = AbandonmentAuthority::assume_worker_abandoned();
    let settlement = shared.complete_finish(JoinOutcome::Panicked, &authority);
    assert_eq!(
        settlement.worker_error.as_deref(),
        Some(STATUS_WORKER_PANIC)
    );
    assert_eq!(tuple(&settlement.diagnostics), (2, 0, 0, 0, 2, 0));
    assert!(shared.is_quiescent());
    assert_eq!(
        waiter.wait(&shared.acks),
        Err(QUEUED_REQUIRED_DISCONNECT.to_string())
    );

    // A second finish: its terminal is accounted, nothing is reported failed.
    shared.begin_finish(TerminalStatusSpec::complete(0, PumpSummary::default()));
    let again = shared.complete_finish(JoinOutcome::AlreadyJoined, &authority);
    assert!(again.terminal_failure().is_none());
    assert_eq!(tuple(&again.diagnostics), (3, 0, 0, 0, 3, 0));
    assert!(again.diagnostics.is_balanced());
}

#[test]
fn a_status_behind_the_terminal_is_disconnected_not_lost() {
    let mut coordinator = Coordinator::spawn(recording_store());
    coordinator
        .shared
        .begin_finish(TerminalStatusSpec::complete(0, PumpSummary::default()));
    let terminal = coordinator.begin().expect("the terminal write begins");
    let waiter = coordinator.enqueue(running_status()).expect("still open");
    coordinator.submit_periodic(running_status());
    coordinator.answer(terminal);
    let exited = coordinator.exited.take().expect("the worker exited");
    let authority = AbandonmentAuthority::assume_worker_abandoned();
    let settlement = coordinator
        .shared
        .complete_finish(JoinOutcome::Settled(exited), &authority);
    assert_eq!(tuple(&settlement.diagnostics), (3, 1, 0, 1, 1, 0));
    assert_eq!(
        waiter.wait(&coordinator.shared.acks),
        Err(QUEUED_REQUIRED_DISCONNECT.to_string())
    );
    assert_eq!(coordinator.store.writes.len(), 1);
}

#[test]
fn a_finished_coordinator_takes_nothing_more_whatever_its_store_did() {
    for store in [recording_store(), panic_store(), long_error_store()] {
        let mut coordinator = Coordinator::spawn(store);
        let _ = coordinator.submit_required(running_status());
        coordinator.submit_periodic(running_status());
        let settlement = coordinator.complete();
        assert!(settlement.diagnostics.is_balanced());
        assert!(coordinator.shared.is_quiescent());
        let documents = coordinator.store.writes.len();
        for _ in 0..3 {
            coordinator.submit_periodic(running_status());
            assert!(coordinator.submit_required(running_status()).is_err());
        }
        let after = coordinator.shared.diagnostics();
        assert_eq!(after.submitted, settlement.diagnostics.submitted + 6);
        assert_eq!(after.disconnected, settlement.diagnostics.disconnected + 6);
        assert_eq!(after.written, settlement.diagnostics.written);
        assert!(after.is_balanced());
        assert!(coordinator.shared.is_quiescent());
        assert_eq!(coordinator.store.writes.len(), documents);
    }
}

#[test]
fn a_live_worker_writes_everything_that_waits_and_then_waits() {
    let mut coordinator = Coordinator::spawn(store(|| fails("flaky"), ok, ok));
    let first = coordinator.enqueue(running_status()).unwrap();
    coordinator.submit_periodic(running_status());
    let under_way = coordinator.begin().expect("the first write begins");
    let second = coordinator.enqueue(running_status()).unwrap();
    coordinator.answer(under_way);
    coordinator.drain();
    assert!(coordinator.begin().is_none(), "the worker waits");
    for waiter in [first, second] {
        let outcome = required_outcome(waiter.wait(&coordinator.shared.acks));
        assert_eq!(outcome.unwrap_err().message(), "flaky");
    }
    assert_eq!(coordinator.store.writes.len(), 3);
    assert_eq!(tuple(&coordinator.shared.diagnostics()), (3, 0, 0, 0, 0, 3));
    assert!(coordinator.shared.is_quiescent());
}
