//! The coordinator's single worker.
//!
//! The worker drains all available work and then waits for a wake. It is a machine that
//! decides: each step hands back a document to persist, or says to wait, or to go on, or
//! to exit with a settlement. Whoever runs it performs the write or the wait with no
//! lock held and comes back with what happened.

use vstd::prelude::*;

use crate::coordinator::{
    AbandonmentAuthority, AcceptedRequired, RequiredCommandId, SharedStatusState, Work,
};
use crate::coordinator_invariant::{
    lemma_begin_terminal_wf, lemma_begin_write_wf, lemma_settle_active_wf,
};
use crate::coordinator_laws::{law_reconciled_is_exact, law_terminal_is_last};
use crate::coordinator_model::{
    CoordinatorView, SharedView, WorkView, WriteKind, STATUS_WORKER_PANIC,
};
use crate::error::{ErrorView, SettlementView, StatusSettlement, TranscriptPumpError};
use crate::fault::{latched, FirstFault};
use crate::status::{PumpState, PumpStatus, StatusView, TerminalStatusSpec, TerminalView};
use crate::text::{as_text, bound_error, bounded, law_bounded_within_cap, result_of};

verus! {

/// What the worker is in the middle of.
#[derive(Debug)]
pub enum WorkerPhase {
    /// Between writes.
    Draining,
    /// The store is writing this accepted required command.
    Required(RequiredCommandId),
    /// The store is writing a snapshot.
    Periodic,
    /// The store is writing this terminal status.
    Terminal(TerminalStatusSpec),
    /// The store is writing the Failed fallback of a Complete status that failed with
    /// this settlement error.
    Fallback(String),
    /// The worker has settled.
    Exited,
}

/// What the worker asks for next.
#[derive(Debug)]
pub enum WorkerAction {
    /// Persist this document and report the result.
    Write(PumpStatus),
    /// Nothing to do: wait to be woken.
    AwaitWake,
    /// Take the next work.
    Continue,
    /// The worker is done.
    Exit(StatusSettlement),
}

/// The status worker.
#[derive(Debug)]
pub struct StatusWorker {
    pub phase: WorkerPhase,
}

pub enum WorkerView {
    Draining,
    Required(nat),
    Periodic,
    Terminal(TerminalView),
    Fallback(Seq<char>),
    Exited,
}

pub enum ActionView {
    Write(StatusView),
    AwaitWake,
    Continue,
    Exit(SettlementView),
}

/// The worker and the shared state after a step, and what is asked for.
pub struct WorkerStep {
    pub worker: WorkerView,
    pub shared: SharedView,
    pub action: ActionView,
}

impl View for StatusWorker {
    type V = WorkerView;

    open spec fn view(&self) -> WorkerView {
        match self.phase {
            WorkerPhase::Draining => WorkerView::Draining,
            WorkerPhase::Required(id) => WorkerView::Required(id.0 as nat),
            WorkerPhase::Periodic => WorkerView::Periodic,
            WorkerPhase::Terminal(terminal) => WorkerView::Terminal(terminal@),
            WorkerPhase::Fallback(error) => WorkerView::Fallback(error@),
            WorkerPhase::Exited => WorkerView::Exited,
        }
    }
}

impl View for WorkerAction {
    type V = ActionView;

    open spec fn view(&self) -> ActionView {
        match self {
            WorkerAction::Write(status) => ActionView::Write(status@),
            WorkerAction::AwaitWake => ActionView::AwaitWake,
            WorkerAction::Continue => ActionView::Continue,
            WorkerAction::Exit(settlement) => ActionView::Exit(settlement@),
        }
    }
}

/// The document of a terminal or fallback status whose write has just been counted: its
/// own write is projected, and the last periodic failure is retained.
pub open spec fn accounted_document(
    begun: CoordinatorView,
    terminal: TerminalView,
    now_ms: u64,
) -> StatusView {
    terminal.build(now_ms, begun.diagnostics.projected(), begun.periodic_error)
}

impl WorkerView {
    /// A store write is under way.
    pub open spec fn is_writing(self) -> bool {
        !(self is Draining) && !(self is Exited)
    }

    /// What the shared state looks like while the worker is in this phase.
    pub open spec fn holds(self, shared: SharedView) -> bool {
        let inner = shared.inner;
        match self {
            WorkerView::Draining => {
                &&& !inner.shutdown
                &&& inner.active is None
                &&& inner.in_flight is None
            },
            WorkerView::Required(id) => {
                &&& !inner.shutdown
                &&& inner.active matches Some(active) && active.id == id && active.phase is Pending
                &&& inner.in_flight is None
            },
            WorkerView::Periodic => {
                &&& !inner.shutdown
                &&& inner.active is None
                &&& inner.in_flight == Some(WriteKind::Periodic)
            },
            WorkerView::Terminal(_) => {
                &&& !inner.shutdown
                &&& inner.active is None
                &&& inner.in_flight == Some(WriteKind::Terminal)
                &&& inner.sealed
                &&& inner.periodic is None
            },
            WorkerView::Fallback(error) => {
                &&& !inner.shutdown
                &&& inner.active is None
                &&& inner.in_flight == Some(WriteKind::Fallback)
                &&& inner.sealed
                &&& inner.periodic is None
                &&& inner.settlement_error == Some(error)
            },
            WorkerView::Exited => true,
        }
    }
}

/// A draining worker takes its next work and begins it.
pub open spec fn next_step(shared: SharedView, now_ms: u64) -> WorkerStep {
    let taken = shared.inner.take_work();
    match shared.inner.work() {
        WorkView::Required(id, status) => WorkerStep {
            worker: WorkerView::Required(id),
            shared: shared.with_inner(taken),
            action: ActionView::Write(status),
        },
        WorkView::Periodic(status) => WorkerStep {
            worker: WorkerView::Periodic,
            shared: shared.with_inner(taken.begin_write(WriteKind::Periodic)),
            action: ActionView::Write(status.stamped(taken.diagnostics.projected())),
        },
        WorkView::Terminal(terminal) => WorkerStep {
            worker: WorkerView::Terminal(terminal),
            shared: shared.with_inner(taken.begin_terminal(WriteKind::Terminal)),
            action: ActionView::Write(
                accounted_document(taken.begin_terminal(WriteKind::Terminal), terminal, now_ms),
            ),
        },
        WorkView::Idle => WorkerStep {
            worker: WorkerView::Draining,
            shared,
            action: ActionView::AwaitWake,
        },
    }
}

/// A settlement without a failure of its own: the accounting and the last periodic
/// failure.
pub open spec fn settled_cleanly(inner: CoordinatorView) -> SettlementView {
    SettlementView {
        periodic_error: inner.periodic_error,
        ..SettlementView::clean(inner.diagnostics)
    }
}

/// The fault latch after the write under way reported `result`: only a terminal write
/// publishes its failure.
pub open spec fn returned_fault(
    worker: WorkerView,
    fault: Option<Seq<char>>,
    result: Result<(), Seq<char>>,
) -> Option<Seq<char>> {
    match (worker, result) {
        (WorkerView::Terminal(_), Err(err)) => latched(fault, bounded(err)),
        _ => fault,
    }
}

/// The terminal write reported `result`: settle, or record the failure and settle with
/// it, or, for a Complete status, record it and begin the one Failed fallback.
pub open spec fn terminal_step(
    shared: SharedView,
    terminal: TerminalView,
    result: Result<(), Seq<char>>,
    now_ms: u64,
) -> WorkerStep {
    let recorded = shared.inner.record_write(result, WriteKind::Terminal);
    match result {
        Ok(()) => WorkerStep {
            worker: WorkerView::Exited,
            shared: shared.with_inner(recorded),
            action: ActionView::Exit(settled_cleanly(recorded)),
        },
        Err(err) => {
            let error = bounded(err);
            let failed = recorded.set_settlement_error(error);
            if terminal.state == PumpState::Complete {
                let begun = failed.begin_terminal(WriteKind::Fallback);
                WorkerStep {
                    worker: WorkerView::Fallback(error),
                    shared: shared.with_inner(begun),
                    action: ActionView::Write(
                        accounted_document(begun, terminal.as_failed(error), now_ms),
                    ),
                }
            } else {
                WorkerStep {
                    worker: WorkerView::Exited,
                    shared: shared.with_inner(failed),
                    action: ActionView::Exit(
                        SettlementView { settlement_error: Some(error), ..settled_cleanly(failed) },
                    ),
                }
            }
        },
    }
}

/// The write under way reported `result`.
pub open spec fn returned_step(
    worker: WorkerView,
    shared: SharedView,
    result: Result<(), Seq<char>>,
    now_ms: u64,
) -> WorkerStep {
    match worker {
        WorkerView::Required(id) => WorkerStep {
            worker: WorkerView::Draining,
            shared: shared.with_inner(shared.inner.publish_observed(id, result)).settle_active(
                false,
            ),
            action: ActionView::Continue,
        },
        WorkerView::Periodic => WorkerStep {
            worker: WorkerView::Draining,
            shared: shared.with_inner(shared.inner.record_write(result, WriteKind::Periodic)),
            action: ActionView::Continue,
        },
        WorkerView::Terminal(terminal) => terminal_step(shared, terminal, result, now_ms),
        WorkerView::Fallback(error) => {
            let recorded = shared.inner.record_write(result, WriteKind::Fallback);
            WorkerStep {
                worker: WorkerView::Exited,
                shared: shared.with_inner(recorded),
                action: ActionView::Exit(
                    SettlementView {
                        settlement_error: Some(error),
                        fallback_error: recorded.fallback_error,
                        ..settled_cleanly(recorded)
                    },
                ),
            }
        },
        _ => WorkerStep { worker, shared, action: ActionView::Continue },
    }
}

/// The settlement of a worker whose stack unwound: everything the shared state already
/// knew, and the panic as the worker's error.
pub open spec fn unwound_settlement(inner: CoordinatorView) -> SettlementView {
    SettlementView {
        diagnostics: inner.diagnostics,
        settlement_error: inner.settlement_error,
        fallback_error: inner.fallback_error,
        periodic_error: inner.periodic_error,
        worker_error: Some(STATUS_WORKER_PANIC@),
    }
}

/// Account a terminal (or fallback) status as a real submission and build the document
/// to persist, with its own write projected so the accounting is self-consistent.
fn write_accounted_terminal(
    shared: &mut SharedStatusState,
    terminal: &TerminalStatusSpec,
    kind: WriteKind,
    now_ms: u64,
) -> (status: PumpStatus)
    requires
        old(shared)@.sound(),
        old(shared)@.inner.in_flight is None,
        old(shared)@.inner.diagnostics.submitted < u64::MAX,
    ensures
        final(shared)@ == old(shared)@.with_inner(old(shared)@.inner.begin_terminal(kind)),
        status@ == accounted_document(final(shared)@.inner, terminal@, now_ms),
        final(shared)@.sound(),
{
    proof {
        lemma_begin_terminal_wf(shared@, kind, 0);
    }
    shared.inner.diagnostics.submitted = shared.inner.diagnostics.submitted + 1;
    shared.begin_write(kind);
    let projected = shared.projected_write_diagnostics();
    terminal.build(now_ms, projected, as_text(&shared.inner.periodic_error))
}

/// The settlement of a worker that has no failure of its own to report.
fn settle_cleanly(shared: &SharedStatusState) -> (settlement: StatusSettlement)
    ensures
        settlement@ == settled_cleanly(shared@.inner),
{
    let mut settlement = StatusSettlement::default();
    settlement.diagnostics = shared.diagnostics();
    settlement.periodic_error = shared.periodic_error();
    settlement
}

impl StatusWorker {
    pub fn new() -> (worker: Self)
        ensures
            worker@ is Draining,
    {
        StatusWorker { phase: WorkerPhase::Draining }
    }

    /// Take the next work and begin it: the front required command, else the newest
    /// snapshot, else the terminal status, else wait.
    pub fn next_action(&mut self, shared: &mut SharedStatusState, now_ms: u64) -> (action:
        WorkerAction)
        requires
            old(self)@ is Draining,
            old(self)@.holds(old(shared)@),
            old(shared)@.sound(),
            old(shared)@.inner.diagnostics.submitted < u64::MAX,
        ensures
            next_step(old(shared)@, now_ms) == (WorkerStep {
                worker: final(self)@,
                shared: final(shared)@,
                action: action@,
            }),
            final(shared)@.sound(),
            final(self)@.holds(final(shared)@),
    {
        proof {
            if shared@.inner.work() is Terminal {
                law_terminal_is_last(shared@, arbitrary());
            }
        }
        match shared.next_work() {
            Work::Required(accepted) => {
                let AcceptedRequired { id, status } = accepted;
                self.phase = WorkerPhase::Required(id);
                WorkerAction::Write(status)
            },
            Work::Periodic(status) => {
                let mut status = status;
                status.transport = shared.projected_write_diagnostics();
                proof {
                    lemma_begin_write_wf(shared@, WriteKind::Periodic, 0);
                }
                shared.begin_write(WriteKind::Periodic);
                self.phase = WorkerPhase::Periodic;
                WorkerAction::Write(status)
            },
            Work::Terminal(terminal) => {
                let status = write_accounted_terminal(
                    shared,
                    &terminal,
                    WriteKind::Terminal,
                    now_ms,
                );
                self.phase = WorkerPhase::Terminal(terminal);
                WorkerAction::Write(status)
            },
            Work::Idle => WorkerAction::AwaitWake,
        }
    }

    /// Settle the terminal write. A failure is recorded and published to the first-fault
    /// latch before the fallback is begun, so supervision reacts even if the fallback
    /// write blocks; a Complete status attempts exactly one Failed fallback.
    fn finalize_terminal(
        &mut self,
        shared: &mut SharedStatusState,
        first_fault: &mut FirstFault,
        terminal: TerminalStatusSpec,
        result: Result<(), String>,
        now_ms: u64,
    ) -> (action: WorkerAction)
        requires
            WorkerView::Terminal(terminal@).holds(old(shared)@),
            old(shared)@.sound(),
            old(shared)@.inner.diagnostics.submitted < u64::MAX,
        ensures
            terminal_step(old(shared)@, terminal@, result_of(result), now_ms) == (WorkerStep {
                worker: final(self)@,
                shared: final(shared)@,
                action: action@,
            }),
            final(first_fault)@ == returned_fault(
                WorkerView::Terminal(terminal@),
                old(first_fault)@,
                result_of(result),
            ),
            final(shared)@.sound(),
            final(self)@.holds(final(shared)@),
    {
        shared.record_write(&result, WriteKind::Terminal);
        match result {
            Ok(()) => {
                self.phase = WorkerPhase::Exited;
                WorkerAction::Exit(settle_cleanly(shared))
            },
            Err(err) => {
                let settlement_error = bound_error(err.as_str());
                proof {
                    law_bounded_within_cap(err@);
                }
                shared.set_settlement_error(settlement_error.as_str());
                first_fault.publish(&TranscriptPumpError::new(settlement_error.as_str()));
                if terminal.state == PumpState::Complete {
                    let fallback = terminal.as_failed(settlement_error.as_str());
                    let status = write_accounted_terminal(
                        shared,
                        &fallback,
                        WriteKind::Fallback,
                        now_ms,
                    );
                    self.phase = WorkerPhase::Fallback(settlement_error);
                    WorkerAction::Write(status)
                } else {
                    let mut settlement = settle_cleanly(shared);
                    settlement.settlement_error = Some(settlement_error);
                    self.phase = WorkerPhase::Exited;
                    WorkerAction::Exit(settlement)
                }
            },
        }
    }

    /// The write under way returned `result`.
    pub fn write_returned(
        &mut self,
        shared: &mut SharedStatusState,
        first_fault: &mut FirstFault,
        result: Result<(), String>,
        now_ms: u64,
    ) -> (action: WorkerAction)
        requires
            old(self)@.is_writing(),
            old(self)@.holds(old(shared)@),
            old(shared)@.sound(),
            old(shared)@.inner.diagnostics.submitted < u64::MAX,
        ensures
            returned_step(old(self)@, old(shared)@, result_of(result), now_ms) == (WorkerStep {
                worker: final(self)@,
                shared: final(shared)@,
                action: action@,
            }),
            final(first_fault)@ == returned_fault(
                old(self)@,
                old(first_fault)@,
                result_of(result),
            ),
            final(shared)@.sound(),
            final(self)@.holds(final(shared)@),
    {
        let mut phase = WorkerPhase::Draining;
        std::mem::swap(&mut self.phase, &mut phase);
        match phase {
            WorkerPhase::Required(id) => {
                // The first transition after the store returns publishes its exact
                // result; settling from it needs no abandonment authority.
                shared.publish_observed(id, result);
                proof {
                    lemma_settle_active_wf(shared@, false, 0);
                }
                shared.settle_active(None);
                WorkerAction::Continue
            },
            WorkerPhase::Periodic => {
                shared.record_write(&result, WriteKind::Periodic);
                WorkerAction::Continue
            },
            WorkerPhase::Terminal(terminal) => self.finalize_terminal(
                shared,
                first_fault,
                terminal,
                result,
                now_ms,
            ),
            WorkerPhase::Fallback(settlement_error) => {
                shared.record_write(&result, WriteKind::Fallback);
                let mut settlement = settle_cleanly(shared);
                settlement.settlement_error = Some(settlement_error);
                settlement.fallback_error = shared.fallback_error();
                self.phase = WorkerPhase::Exited;
                WorkerAction::Exit(settlement)
            },
            WorkerPhase::Draining => WorkerAction::Continue,
            WorkerPhase::Exited => {
                self.phase = WorkerPhase::Exited;
                WorkerAction::Continue
            },
        }
    }

    /// The wake was disconnected: the coordinator went away without a terminal status.
    /// The worker is outside any store call and commits to exit, so it reconciles all
    /// abandoned work and settles.
    pub fn wake_disconnected(&mut self, shared: &mut SharedStatusState) -> (settlement:
        StatusSettlement)
        requires
            old(self)@ is Draining,
            old(shared)@.wf(),
        ensures
            final(self)@ is Exited,
            final(shared)@ == old(shared)@.reconcile_abandoned(),
            settlement@ == settled_cleanly(final(shared)@.inner),
            final(shared)@.wf(),
            old(shared)@.sound() ==> final(shared)@.sound(),
            settlement@.diagnostics.balanced(),
    {
        proof {
            law_reconciled_is_exact(shared@);
        }
        let authority = AbandonmentAuthority::assume_worker_abandoned();
        shared.reconcile_abandoned(&authority);
        self.phase = WorkerPhase::Exited;
        settle_cleanly(shared)
    }

    /// The worker's stack, and any store call, has unwound. Publish the panic, resolve
    /// and account all abandoned work so no submitter hangs and the balance holds, and
    /// surface the panic beside any failure already seen.
    pub fn unwound(&mut self, shared: &mut SharedStatusState, first_fault: &mut FirstFault) -> (settlement:
        StatusSettlement)
        requires
            old(shared)@.wf(),
        ensures
            final(self)@ is Exited,
            final(shared)@ == old(shared)@.reconcile_abandoned(),
            final(first_fault)@ == latched(
                old(first_fault)@,
                ErrorView::primary(STATUS_WORKER_PANIC@).message,
            ),
            settlement@ == unwound_settlement(final(shared)@.inner),
            final(shared)@.wf(),
            old(shared)@.sound() ==> final(shared)@.sound(),
            settlement@.diagnostics.balanced(),
    {
        proof {
            law_reconciled_is_exact(shared@);
        }
        first_fault.publish(&TranscriptPumpError::new(STATUS_WORKER_PANIC));
        let authority = AbandonmentAuthority::assume_worker_abandoned();
        shared.reconcile_abandoned(&authority);
        self.phase = WorkerPhase::Exited;
        StatusSettlement {
            diagnostics: shared.diagnostics(),
            settlement_error: shared.inner.settlement_error.clone(),
            fallback_error: shared.fallback_error(),
            periodic_error: shared.periodic_error(),
            worker_error: Some(STATUS_WORKER_PANIC.to_string()),
        }
    }
}

} // verus!
