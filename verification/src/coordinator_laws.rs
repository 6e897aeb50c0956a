//! What holds of the status coordinator as a whole.
//!
//! `Step` lists the lock-held transitions of every thread that touches a coordinator:
//! submitters, the worker, and any number of reconcilers. The laws on steps and traces
//! therefore speak of every interleaving.

use vstd::prelude::*;

use crate::ack::observable;
use crate::coordinator::{required_report, SharedStatusState, COORDINATOR_SHUT_DOWN};
use crate::coordinator_invariant::{
    deliver_retired, deliverable, first_retired, lemma_accept_wf,
    lemma_account_in_flight_unwind_wf, lemma_begin_terminal_wf, lemma_begin_write_wf,
    lemma_cleanup_active_wf, lemma_deliver_retired_wf, lemma_deliver_sound,
    lemma_enqueue_required_wf, lemma_first_retired, lemma_initial_sound,
    lemma_prepare_active_wf, lemma_publish_observed_wf, lemma_reconcile_abandoned_wf,
    lemma_record_write_wf, lemma_remove_command_wf, lemma_resolve_queued_done,
    lemma_resolve_queued_step, lemma_retire_pending_periodic_wf,
    lemma_retire_pending_terminal_wf, lemma_retire_queued_wf, lemma_seal_wf,
    lemma_set_settlement_error_wf, lemma_settle_active_wf, lemma_shut_wf,
    lemma_submit_periodic_wf, lemma_take_periodic_wf, lemma_take_terminal_wf, remove_command,
    retired_for,
};
use crate::coordinator_model::{
    all_retired, count_queued, one_if, still_queued, CommandView, CoordinatorView, DeliveryView,
    JoinView, LifecycleView, PhaseView, SharedView, WorkView, WriteKind,
    ACCEPTED_WRITE_WORKER_UNWIND, QUEUED_REQUIRED_DISCONNECT,
};
use crate::error::SettlementView;
use crate::status::{StatusView, TerminalView, TransportView};
use crate::text::{bounded, bounded_result, text_of};

verus! {

/// One lock-held transition of some thread.
pub enum Step {
    SubmitRequired(StatusView),
    SubmitPeriodic(StatusView),
    Seal(TerminalView),
    /// The worker accepts the front required command.
    Accept,
    /// The store returned this result for the pending active write.
    PublishObserved(Result<(), Seq<char>>),
    /// Some settler prepares the active write, with or without abandonment authority.
    Prepare(bool),
    /// Some settler delivers what it prepared or selected at an earlier step.
    Deliver(DeliveryView),
    /// Some settler removes the active record it saw become observable.
    CleanupActive(nat),
    /// Some settler removes the retired command at this position, seen observable.
    CleanupRetired(int),
    /// The worker takes the pending snapshot and begins to write it.
    BeginPeriodic,
    /// The worker takes the terminal status and begins to write it.
    BeginTerminal,
    /// The worker begins the Failed fallback.
    BeginFallback,
    RecordWrite(Result<(), Seq<char>>, WriteKind),
    SetSettlementError(Seq<char>),
    Shut,
    AccountUnwind,
    RetireQueued,
    RetirePeriodic,
    RetireTerminal,
}

/// When a thread may take a step. Submissions and reconciliation are always possible;
/// the worker begins one write at a time and records the write it began; a settler
/// delivers what is due and removes what is observable.
pub open spec fn enabled(state: SharedView, step: Step) -> bool {
    let inner = state.inner;
    match step {
        Step::PublishObserved(_) => inner.active matches Some(active) && active.phase is Pending,
        Step::Deliver(delivery) => deliverable(state, delivery),
        Step::CleanupActive(id) => observable(state.acks, id as int),
        Step::CleanupRetired(i) => {
            &&& 0 <= i < inner.required.len()
            &&& !inner.required[i].is_queued()
            &&& observable(state.acks, inner.required[i].cell as int)
        },
        Step::BeginPeriodic => inner.in_flight is None && inner.periodic is Some,
        Step::BeginTerminal => inner.in_flight is None && inner.terminal is Some,
        Step::BeginFallback => inner.in_flight is None,
        Step::RecordWrite(_, kind) => inner.in_flight == Some(kind),
        _ => true,
    }
}

/// The state after a step.
pub open spec fn apply(state: SharedView, step: Step) -> SharedView {
    let inner = state.inner;
    match step {
        Step::SubmitRequired(status) => state.enqueue_required(status),
        Step::SubmitPeriodic(status) => state.with_inner(inner.submit_periodic(status)),
        Step::Seal(terminal) => state.with_inner(inner.seal(terminal)),
        Step::Accept => state.with_inner(inner.accept()),
        Step::PublishObserved(result) => state.with_inner(
            inner.publish_observed(inner.active.unwrap().id, result),
        ),
        Step::Prepare(authorized) => state.with_inner(inner.prepare_active(authorized)),
        Step::Deliver(delivery) => state.deliver(delivery),
        Step::CleanupActive(id) => state.with_inner(inner.cleanup_active(id)),
        Step::CleanupRetired(i) => remove_command(state, i),
        Step::BeginPeriodic => state.with_inner(
            inner.take_periodic().begin_write(WriteKind::Periodic),
        ),
        Step::BeginTerminal => state.with_inner(
            inner.take_terminal().begin_terminal(WriteKind::Terminal),
        ),
        Step::BeginFallback => state.with_inner(inner.begin_terminal(WriteKind::Fallback)),
        Step::RecordWrite(result, kind) => state.with_inner(inner.record_write(result, kind)),
        Step::SetSettlementError(error) => state.with_inner(inner.set_settlement_error(error)),
        Step::Shut => state.with_inner(inner.shut()),
        Step::AccountUnwind => state.with_inner(inner.account_in_flight_unwind()),
        Step::RetireQueued => state.with_inner(inner.retire_queued()),
        Step::RetirePeriodic => state.with_inner(inner.retire_pending_periodic()),
        Step::RetireTerminal => state.with_inner(inner.retire_pending_terminal()),
    }
}

/// The state after all steps of a trace.
pub open spec fn run(state: SharedView, trace: Seq<Step>) -> SharedView
    decreases trace.len(),
{
    if trace.len() == 0 {
        state
    } else {
        apply(run(state, trace.drop_last()), trace.last())
    }
}

/// Every step of a trace is possible where it is taken.
pub open spec fn feasible(state: SharedView, trace: Seq<Step>) -> bool
    decreases trace.len(),
{
    trace.len() > 0 ==> feasible(state, trace.drop_last()) && enabled(
        run(state, trace.drop_last()),
        trace.last(),
    )
}

/// Every step keeps the coordinator sound: balanced up to what is outstanding, in order of
/// identity, with every unresolved acknowledgement owned, every resolved one true, and
/// every retained text within the cap.
pub proof fn law_step_keeps_sound(state: SharedView, step: Step)
    requires
        state.sound(),
        enabled(state, step),
    ensures
        apply(state, step).sound(),
{
    match step {
        Step::SubmitRequired(status) => lemma_enqueue_required_wf(state, status, 0),
        Step::SubmitPeriodic(status) => lemma_submit_periodic_wf(state, status, 0),
        Step::Seal(terminal) => lemma_seal_wf(state, terminal, 0),
        Step::Accept => lemma_accept_wf(state, 0),
        Step::PublishObserved(result) => lemma_publish_observed_wf(
            state,
            state.inner.active.unwrap().id,
            result,
            0,
        ),
        Step::Prepare(authorized) => lemma_prepare_active_wf(state, authorized, 0),
        Step::Deliver(delivery) => lemma_deliver_sound(state, delivery, 0),
        Step::CleanupActive(id) => {
            if let Some(active) = state.inner.active {
                assert(state.active_ack(active));
            }
            lemma_cleanup_active_wf(state, id, 0);
        },
        Step::CleanupRetired(i) => lemma_remove_command_wf(state, i, 0),
        Step::BeginPeriodic => {
            lemma_take_periodic_wf(state, 0);
            lemma_begin_write_wf(
                state.with_inner(state.inner.take_periodic()),
                WriteKind::Periodic,
                0,
            );
        },
        Step::BeginTerminal => {
            lemma_take_terminal_wf(state, 0);
            lemma_begin_terminal_wf(
                state.with_inner(state.inner.take_terminal()),
                WriteKind::Terminal,
                0,
            );
        },
        Step::BeginFallback => lemma_begin_terminal_wf(state, WriteKind::Fallback, 0),
        Step::RecordWrite(result, kind) => lemma_record_write_wf(state, result, kind, 0),
        Step::SetSettlementError(error) => lemma_set_settlement_error_wf(state, error, 0),
        Step::Shut => lemma_shut_wf(state, 0),
        Step::AccountUnwind => lemma_account_in_flight_unwind_wf(state, 0),
        Step::RetireQueued => lemma_retire_queued_wf(state, 0),
        Step::RetirePeriodic => lemma_retire_pending_periodic_wf(state, 0),
        Step::RetireTerminal => lemma_retire_pending_terminal_wf(state, 0),
    }
}

/// Every interleaving of a fresh coordinator's threads keeps it sound, and
/// reconciliation after any of them leaves nothing but a terminal status, resolves every
/// acknowledgement ever handed out, and balances the accounting.
pub proof fn law_every_interleaving_is_accounted(trace: Seq<Step>)
    requires
        feasible(SharedView::initial(), trace),
    ensures
        run(SharedView::initial(), trace).sound(),
        run(SharedView::initial(), trace).reconcile_abandoned().drained(),
        run(SharedView::initial(), trace).reconcile_abandoned().inner.diagnostics.balanced(),
        run(SharedView::initial(), trace).reconcile_abandoned().acks.len() == run(
            SharedView::initial(),
            trace,
        ).acks.len(),
        forall|cell: int|
            0 <= cell < run(SharedView::initial(), trace).acks.len() ==> observable(
                #[trigger] run(SharedView::initial(), trace).reconcile_abandoned().acks,
                cell,
            ),
{
    lemma_trace_sound(trace);
    let state = run(SharedView::initial(), trace);
    law_reconciled_is_exact(state);
}

proof fn lemma_trace_sound(trace: Seq<Step>)
    requires
        feasible(SharedView::initial(), trace),
    ensures
        run(SharedView::initial(), trace).sound(),
    decreases trace.len(),
{
    if trace.len() == 0 {
        lemma_initial_sound();
    } else {
        lemma_trace_sound(trace.drop_last());
        law_step_keeps_sound(run(SharedView::initial(), trace.drop_last()), trace.last());
    }
}

/// A drained coordinator has every submission in exactly one terminal category and every
/// acknowledgement resolved: nothing is lost and no submitter is left waiting.
pub proof fn law_drained_is_exact(state: SharedView)
    requires
        state.wf(),
        state.drained(),
    ensures
        state.inner.diagnostics.balanced(),
        forall|cell: int|
            0 <= cell < state.acks.len() ==> observable(#[trigger] state.acks, cell),
{
    assert(count_queued(state.inner.required) == 0);
    assert forall|cell: int| 0 <= cell < state.acks.len() implies observable(
        #[trigger] state.acks,
        cell,
    ) by {
        assert(state.acks[(cell as nat) as int] is Some || state.owned(cell as nat));
    }
}

/// Reconciling an abandoned coordinator drains it, and keeps the number of
/// acknowledgements.
pub proof fn law_reconciled_is_exact(state: SharedView)
    requires
        state.wf(),
    ensures
        state.reconcile_abandoned().wf(),
        state.reconcile_abandoned().drained(),
        state.reconcile_abandoned().inner.diagnostics.balanced(),
        state.reconcile_abandoned().inner.diagnostics.submitted
            == state.inner.diagnostics.submitted,
        state.reconcile_abandoned().acks.len() == state.acks.len(),
        forall|cell: int|
            0 <= cell < state.acks.len() ==> observable(
                #[trigger] state.reconcile_abandoned().acks,
                cell,
            ),
{
    lemma_reconcile_abandoned_wf(state, 0);
    law_drained_is_exact(state.reconcile_abandoned());
    lemma_reconcile_frame(state);
}

/// The cells of `before` are all in `after`, and each that is fixed keeps its result.
pub open spec fn acks_kept(
    before: Seq<Option<Result<(), Seq<char>>>>,
    after: Seq<Option<Result<(), Seq<char>>>>,
) -> bool {
    &&& before.len() <= after.len()
    &&& forall|cell: int|
        0 <= cell < before.len() && before[cell] is Some ==> #[trigger] after[cell]
            == before[cell]
}

/// An acknowledgement, once resolved, never changes again and is never withdrawn.
pub proof fn law_acks_are_immutable(state: SharedView, step: Step)
    ensures
        acks_kept(state.acks, apply(state, step).acks),
{
}

/// Nothing is taken back: no step lowers a counter, counts more than one submission,
/// reopens a sealed or shut-down coordinator, or reissues an identity.
pub proof fn law_nothing_is_taken_back(state: SharedView, step: Step)
    ensures
        ({
            let before = state.inner;
            let after = apply(state, step).inner;
            &&& before.diagnostics.submitted <= after.diagnostics.submitted
                <= before.diagnostics.submitted + 1
            &&& before.diagnostics.written <= after.diagnostics.written
            &&& before.diagnostics.coalesced <= after.diagnostics.coalesced
            &&& before.diagnostics.dropped <= after.diagnostics.dropped
            &&& before.diagnostics.disconnected <= after.diagnostics.disconnected
            &&& before.diagnostics.write_failures <= after.diagnostics.write_failures
            &&& before.next_command_id <= after.next_command_id
            &&& before.sealed ==> after.sealed
            &&& before.shutdown ==> after.shutdown
        }),
{
}

/// What a settler took to deliver stays deliverable through every step of every other
/// thread, so a settler that lost the race delivers nothing new and a settler that won
/// delivers the one result.
pub proof fn law_delivery_survives_interleaving(
    state: SharedView,
    step: Step,
    delivery: DeliveryView,
)
    requires
        state.sound(),
        enabled(state, step),
        deliverable(state, delivery),
    ensures
        deliverable(apply(state, step), delivery),
{
    let after = apply(state, step);
    let required = state.inner.required;
    lemma_deliver_sound(state, delivery, 0);
    law_acks_are_immutable(state, step);
    if delivery.cell < state.acks.len() && state.acks[delivery.cell as int] == Some(
        delivery.result,
    ) {
        assert(after.acks[delivery.cell as int] == Some(delivery.result));
    } else if state.inner.active matches Some(active) && active.id == delivery.id && active.cell
        == delivery.cell && active.phase == PhaseView::Prepared(delivery.result) {
        let active = state.inner.active.unwrap();
        assert(state.active_ack(active));
        assert(state.acks[active.cell as int] is None);
        if let Step::Deliver(other) = step {
            lemma_deliver_sound(state, other, 0);
        }
    } else {
        let i = choose|i: int|
            0 <= i < required.len() && retired_for(#[trigger] required[i], delivery);
        assert(state.command_ack(required[i]));
        assert(state.acks[required[i].cell as int] is None);
        match step {
            Step::CleanupRetired(j) => {
                assert(i != j);
                if i < j {
                    assert(retired_for(after.inner.required[i], delivery));
                } else {
                    assert(retired_for(after.inner.required[i - 1], delivery));
                }
            },
            Step::RetireQueued => {
                assert(after.inner.required[i] == required[i].retired());
                assert(retired_for(after.inner.required[i], delivery));
            },
            Step::Accept => {
                if state.inner.can_accept() {
                    assert(i > 0);
                    assert(retired_for(after.inner.required[i - 1], delivery));
                }
            },
            _ => {
                assert(after.inner.required[i] == required[i]);
                assert(retired_for(after.inner.required[i], delivery));
            },
        }
    }
}

/// Concurrent settlers of one active write converge: whatever authority each holds, a
/// second preparation changes nothing and is due the same result, and a second full
/// settlement finds nothing to settle.
pub proof fn law_settlers_converge(state: SharedView, first: bool, second: bool)
    requires
        state.wf(),
        state.inner.due(first) is Some,
    ensures
        state.inner.prepare_active(first).due(second) == state.inner.due(first),
        state.inner.prepare_active(first).prepare_active(second) == state.inner.prepare_active(
            first,
        ),
        state.settle_active(first).settle_active(second) == state.settle_active(first),
{
    lemma_settle_active_wf(state, first, 0);
}

/// Without abandonment authority a write whose store call may still return is left
/// exactly as it is: owned, unresolved and unaccounted.
pub proof fn law_pending_needs_authority(state: SharedView)
    requires
        state.inner.active matches Some(active) && active.phase is Pending,
    ensures
        state.inner.due(false) is None,
        state.inner.prepare_active(false) == state.inner,
        state.settle_active(false) == state,
{
}

/// A result the store returned is what its submitter gets, bounded, however the worker
/// ends afterwards: settled with or without authority, or left to reconciliation.
pub proof fn law_observed_result_survives(state: SharedView, authorized: bool)
    requires
        state.sound(),
        state.inner.active matches Some(active) && active.phase is Observed,
    ensures
        ({
            let active = state.inner.active.unwrap();
            let result = bounded_result(active.phase->Observed_0);
            &&& state.settle_active(authorized).acks[active.cell as int] == Some(result)
            &&& state.settle_active(authorized).inner.diagnostics
                == state.inner.diagnostics.record(result)
            &&& state.reconcile_abandoned().acks[active.cell as int] == Some(result)
        }),
{
    lemma_settle_active_wf(state, authorized, 0);
    lemma_reconcile_frame(state);
}

/// A worker that unwound before its store call returned leaves its accepted submitter the
/// bounded unwind failure, and every never-accepted submitter the bounded disconnected
/// result, each exactly its own.
pub proof fn law_abandoned_work_is_told_apart(state: SharedView)
    requires
        state.sound(),
    ensures
        state.inner.active matches Some(active) && active.phase is Pending
            ==> state.reconcile_abandoned().acks[state.inner.active.unwrap().cell as int] == Some(
            Err::<(), Seq<char>>(bounded(ACCEPTED_WRITE_WORKER_UNWIND@)),
        ),
        forall|i: int|
            0 <= i < state.inner.required.len() && (
            #[trigger] state.inner.required[i]).is_queued()
                ==> state.reconcile_abandoned().acks[state.inner.required[i].cell as int] == Some(
                Err::<(), Seq<char>>(bounded(QUEUED_REQUIRED_DISCONNECT@)),
            ),
{
    lemma_reconcile_frame(state);
}

/// Abandoned work is accounted by what became of it: the queued commands and a pending
/// snapshot as disconnected, an accepted write whose store call never returned and a
/// write under way as failures.
pub proof fn law_abandoned_work_is_accounted(state: SharedView)
    requires
        state.sound(),
    ensures
        ({
            let before = state.inner.diagnostics;
            let after = state.reconcile_abandoned().inner.diagnostics;
            let observed_ok = state.inner.active matches Some(active) && active.phase is Observed
                && active.phase->Observed_0 is Ok;
            let unaccounted = state.inner.active matches Some(active)
                && !active.accounting_applied;
            &&& after.submitted == before.submitted
            &&& after.coalesced == before.coalesced
            &&& after.dropped == before.dropped
            &&& after.disconnected == before.disconnected + count_queued(state.inner.required)
                + one_if(state.inner.periodic is Some)
            &&& after.written == before.written + one_if(observed_ok)
            &&& after.write_failures == before.write_failures + one_if(
                state.inner.in_flight is Some,
            ) + one_if(unaccounted && !observed_ok)
        }),
{
    let accounted = state.with_inner(state.inner.shut().account_in_flight_unwind());
    let settled = accounted.settle_active(true);
    if let Some(active) = state.inner.active {
        assert(state.active_ack(active));
    }
    assert(settled.inner.required == state.inner.required);
    assert(settled.inner.periodic == state.inner.periodic);
    assert(state.reconcile_abandoned().inner.diagnostics
        == settled.inner.retire_queued().diagnostics.disconnect(
        one_if(state.inner.periodic is Some),
    ));
}

/// Reconciliation is idempotent.
pub proof fn law_reconcile_is_idempotent(state: SharedView)
    requires
        state.wf(),
    ensures
        state.reconcile_abandoned().reconcile_abandoned() == state.reconcile_abandoned(),
{
    let once = state.reconcile_abandoned();
    lemma_reconcile_abandoned_wf(state, 0);
    assert(all_retired(once.inner.required) =~= once.inner.required);
    assert(count_queued(once.inner.required) == 0);
    assert(once.inner.diagnostics.disconnect(0) == once.inner.diagnostics);
    lemma_resolve_queued_done(once);
}

/// Required commands are accepted in the order in which they were submitted: the accepted
/// command is older than every command that stays queued, a new command is younger than
/// every command already there, and at most one is active.
pub proof fn law_required_is_fifo(state: SharedView, status: StatusView)
    requires
        state.wf(),
        state.inner.can_accept(),
    ensures
        forall|i: int|
            0 <= i < state.inner.accept().required.len() ==> state.inner.accept().active.unwrap().id
                < (#[trigger] state.inner.accept().required[i]).id,
        state.inner.accept().required == state.inner.required.drop_first(),
        !state.inner.accept().can_accept(),
        forall|i: int|
            0 <= i < state.inner.required.len() ==> (#[trigger] state.inner.required[i]).id
                < state.enqueue_required(status).inner.required.last().id,
        state.enqueue_required(status).inner.required.drop_last() == state.inner.required,
{
    lemma_accept_wf(state, 0);
    assert(state.enqueue_required(status).inner.required.drop_last() =~= state.inner.required);
}

/// Of two snapshots submitted while the worker is busy, only the newer is ever written,
/// and the older is counted coalesced.
pub proof fn law_newest_snapshot_wins(inner: CoordinatorView, older: StatusView, newer: StatusView)
    requires
        !inner.sealed,
        !inner.shutdown,
    ensures
        inner.submit_periodic(older).submit_periodic(newer).periodic == Some(newer),
        inner.submit_periodic(older).submit_periodic(newer).diagnostics.coalesced
            == inner.diagnostics.coalesced + 1 + one_if(inner.periodic is Some),
        inner.submit_periodic(older).submit_periodic(newer).diagnostics.submitted
            == inner.diagnostics.submitted + 2,
{
}

/// The terminal status is written last: the worker takes it only when no required
/// command and no snapshot is left, and once the coordinator is sealed no snapshot can
/// enter its slot again, so nothing Running follows it.
pub proof fn law_terminal_is_last(state: SharedView, status: StatusView)
    requires
        state.sound(),
        !state.inner.shutdown,
        state.inner.active is None,
        state.inner.work() is Terminal,
    ensures
        state.inner.required.len() == 0,
        state.inner.periodic is None,
        state.inner.sealed,
        state.inner.take_work().submit_periodic(status).periodic is None,
{
    if state.inner.required.len() > 0 {
        assert(state.inner.required[0].is_queued());
    }
}

/// A document handed to the store while its own submission is the only one outstanding
/// carries a balanced accounting; a terminal or fallback document begun on a drained
/// coordinator always does.
pub proof fn law_projected_accounting_balances(state: SharedView, kind: WriteKind)
    requires
        state.wf(),
    ensures
        state.inner.outstanding() == 1 ==> state.inner.diagnostics.projected().balanced(),
        state.drained() ==> state.inner.begin_terminal(kind).diagnostics.projected().balanced(),
{
    if state.drained() {
        law_drained_is_exact(state);
    }
}

/// A required write failure never passes for a periodic, settlement or fallback failure.
pub proof fn law_required_failure_keeps_its_kind(state: SharedView, authorized: bool)
    requires
        state.wf(),
    ensures
        state.settle_active(authorized).inner.periodic_error == state.inner.periodic_error,
        state.settle_active(authorized).inner.settlement_error == state.inner.settlement_error,
        state.settle_active(authorized).inner.fallback_error == state.inner.fallback_error,
{
}

/// A finished coordinator is quiescent, shut down and balanced, and the settlement it
/// returns carries that accounting, whatever the worker's join reported.
pub proof fn law_finish_settles_everything(state: SharedView, outcome: JoinView)
    requires
        state.wf(),
    ensures
        state.finished().wf(),
        state.finished().inner.quiescent(),
        state.finished().inner.shutdown,
        state.settlement(outcome).diagnostics == state.finished().inner.diagnostics,
        state.settlement(outcome).diagnostics.balanced(),
        state.settlement(outcome).diagnostics.submitted == state.inner.diagnostics.submitted
            + one_if(state.inner.terminal is Some),
{
    lemma_retire_pending_terminal_wf(state, 0);
    law_reconciled_is_exact(state.with_inner(state.inner.retire_pending_terminal()));
    lemma_reconcile_abandoned_wf(state.with_inner(state.inner.retire_pending_terminal()), 0);
}

/// After shutdown no submission changes anything but the accounting, which counts it
/// disconnected and stays balanced.
pub proof fn law_late_submissions_are_disconnected(state: SharedView, status: StatusView)
    requires
        state.inner.shutdown,
        state.inner.diagnostics.balanced(),
    ensures
        state.enqueue_required(status) == state.with_inner(
            CoordinatorView {
                diagnostics: state.inner.diagnostics.submit().disconnect(1),
                ..state.inner
            },
        ),
        state.inner.submit_periodic(status) == state.enqueue_required(status).inner,
        state.inner.submit_periodic(status).diagnostics.balanced(),
        !state.inner.can_accept(),
{
}

/// A trace of nothing but submissions.
pub open spec fn only_submissions(trace: Seq<Step>) -> bool {
    forall|i: int|
        0 <= i < trace.len() ==> (#[trigger] trace[i]) is SubmitRequired || trace[i] is SubmitPeriodic
}

/// Whatever its worker and its store did, a coordinator that has finished takes in nothing
/// more: any number of later submissions add exactly their number to the submitted and to
/// the disconnected ones and change nothing else. The accounting stays balanced, the
/// coordinator quiescent and shut down, so every later required status is refused, and
/// there is nothing that could reach the store behind the terminal document.
pub proof fn law_finished_coordinator_takes_nothing_more(state: SharedView, late: Seq<Step>)
    requires
        state.wf(),
        only_submissions(late),
    ensures
        ({
            let finished = state.finished();
            let after = run(finished, late);
            &&& after == finished.with_inner(
                CoordinatorView {
                    diagnostics: TransportView {
                        submitted: finished.inner.diagnostics.submitted + late.len(),
                        disconnected: finished.inner.diagnostics.disconnected + late.len(),
                        ..finished.inner.diagnostics
                    },
                    ..finished.inner
                },
            )
            &&& after.inner.diagnostics.balanced()
            &&& after.inner.quiescent()
            &&& after.inner.shutdown
            &&& after.inner.work() is Idle
        }),
    decreases late.len(),
{
    law_finish_settles_everything(state, JoinView::AlreadyJoined);
    if late.len() > 0 {
        let earlier = late.drop_last();
        assert forall|i: int| 0 <= i < earlier.len() implies (#[trigger] earlier[i])
            is SubmitRequired || earlier[i] is SubmitPeriodic by {
            assert(earlier[i] == late[i]);
        }
        law_finished_coordinator_takes_nothing_more(state, earlier);
        assert(late[late.len() - 1] is SubmitRequired || late[late.len() - 1] is SubmitPeriodic);
    }
}

// ---------------------------------------------------------------------------------
// What reconciliation does to each acknowledgement
// ---------------------------------------------------------------------------------

/// A retired command's acknowledgement once resolved: what it held, else its own error.
spec fn own_or_kept(state: SharedView, command: CommandView) -> Option<Result<(), Seq<char>>> {
    if state.acks[command.cell as int] is Some {
        state.acks[command.cell as int]
    } else {
        Some(Err(bounded(command.lifecycle->immutable_error)))
    }
}

/// Resolving the retired commands fixes each one's own error and keeps every other cell.
proof fn lemma_resolve_queued_acks(state: SharedView)
    requires
        state.wf(),
    ensures
        state.resolve_queued().acks.len() == state.acks.len(),
        acks_kept(state.acks, state.resolve_queued().acks),
        forall|i: int|
            0 <= i < state.inner.required.len() && !(
            #[trigger] state.inner.required[i]).is_queued()
                ==> state.resolve_queued().acks[state.inner.required[i].cell as int] == own_or_kept(
                state,
                state.inner.required[i],
            ),
    decreases state.inner.required.len(),
{
    let required = state.inner.required;
    lemma_first_retired(required);
    let at = first_retired(required);
    if at < required.len() {
        let delivered = deliver_retired(state, at);
        let after = remove_command(delivered, at);
        lemma_deliver_retired_wf(state, at, 0);
        lemma_remove_command_wf(delivered, at, 0);
        lemma_resolve_queued_step(state, at);
        lemma_resolve_queued_acks(after);
        assert forall|i: int|
            0 <= i < required.len() && !(#[trigger] required[i]).is_queued() implies state
            .resolve_queued().acks[required[i].cell as int] == own_or_kept(state, required[i]) by {
            if i == at {
                assert(after.acks[required[at].cell as int] is Some);
            } else if i > at {
                assert(required[at].id < required[i].id);
                assert(after.inner.required[i - 1] == required[i]);
            }
        }
        assert forall|cell: int|
            0 <= cell < state.acks.len() && state.acks[cell] is Some implies
            #[trigger] state.resolve_queued().acks[cell] == state.acks[cell] by {
            assert(after.acks[cell] == state.acks[cell]);
        }
    } else {
        lemma_resolve_queued_done(state);
    }
}

/// Reconciliation keeps every resolved acknowledgement, fixes what the active write is
/// due, and fixes the disconnected result of every queued command.
proof fn lemma_reconcile_frame(state: SharedView)
    requires
        state.wf(),
    ensures
        state.reconcile_abandoned().acks.len() == state.acks.len(),
        acks_kept(state.acks, state.reconcile_abandoned().acks),
        state.sound() ==> (state.inner.due(true) matches Some(delivery)
            ==> state.reconcile_abandoned().acks[delivery.cell as int] == Some(delivery.result)),
        state.sound() ==> forall|i: int|
            0 <= i < state.inner.required.len() && (
            #[trigger] state.inner.required[i]).is_queued()
                ==> state.reconcile_abandoned().acks[state.inner.required[i].cell as int] == Some(
                Err::<(), Seq<char>>(bounded(QUEUED_REQUIRED_DISCONNECT@)),
            ),
        state.reconcile_abandoned().inner.diagnostics.submitted
            == state.inner.diagnostics.submitted,
{
    let shut = state.with_inner(state.inner.shut());
    lemma_shut_wf(state, 0);
    let accounted = shut.with_inner(shut.inner.account_in_flight_unwind());
    lemma_account_in_flight_unwind_wf(shut, 0);
    assert(accounted == state.with_inner(state.inner.shut().account_in_flight_unwind()));
    assert(accounted.inner.due(true) == state.inner.due(true));
    let settled = accounted.settle_active(true);
    lemma_settle_active_wf(accounted, true, 0);
    let retired = settled.with_inner(settled.inner.retire_queued());
    lemma_retire_queued_wf(settled, 0);
    lemma_resolve_queued_acks(retired);
    assert(acks_kept(state.acks, settled.acks));
    if state.sound() {
        assert forall|i: int|
            0 <= i < state.inner.required.len() && (
            #[trigger] state.inner.required[i]).is_queued() implies state
            .reconcile_abandoned().acks[state.inner.required[i].cell as int] == Some(
            Err::<(), Seq<char>>(bounded(QUEUED_REQUIRED_DISCONNECT@)),
        ) by {
            assert(retired.inner.required[i] == state.inner.required[i].retired());
            assert(retired.command_ack(retired.inner.required[i]));
        }
    }
}

// ---------------------------------------------------------------------------------
// What each operation does, counter by counter and slot by slot
// ---------------------------------------------------------------------------------

/// Nothing but the diagnostics of these two coordinators may differ.
pub open spec fn same_but_diagnostics(before: CoordinatorView, after: CoordinatorView) -> bool {
    after == (CoordinatorView { diagnostics: after.diagnostics, ..before })
}

/// A coordinator starts open, with nothing pending and nothing counted.
pub proof fn law_coordinator_starts_from_nothing()
    ensures
        ({
            let inner = CoordinatorView::initial();
            &&& inner.periodic is None
            &&& inner.required.len() == 0
            &&& inner.active is None
            &&& inner.next_command_id == 0
            &&& inner.terminal is None
            &&& inner.diagnostics.submitted == 0
            &&& inner.diagnostics.settled() == 0
            &&& inner.diagnostics.last_error is None
            &&& inner.in_flight is None
            &&& inner.periodic_error is None
            &&& inner.settlement_error is None
            &&& inner.fallback_error is None
            &&& !inner.sealed
            &&& !inner.shutdown
        }),
{
}

/// A snapshot is one more submission, and lands in exactly one place: in the slot of an open
/// coordinator, where the one it replaces is counted coalesced; among the dropped of a
/// sealed one; among the disconnected of one that is shut down.
pub proof fn law_snapshot_lands_in_one_place(inner: CoordinatorView, status: StatusView)
    ensures
        ({
            let after = inner.submit_periodic(status);
            let was = inner.diagnostics;
            let is = after.diagnostics;
            &&& is.submitted == was.submitted + 1
            &&& is.written == was.written
            &&& is.write_failures == was.write_failures
            &&& is.last_error == was.last_error
            &&& is.disconnected == was.disconnected + one_if(inner.shutdown)
            &&& is.dropped == was.dropped + one_if(!inner.shutdown && inner.sealed)
            &&& is.coalesced == was.coalesced + one_if(
                !inner.shutdown && !inner.sealed && inner.periodic is Some,
            )
            &&& !inner.shutdown && !inner.sealed ==> after.periodic == Some(status)
            &&& inner.shutdown || inner.sealed ==> after.periodic == inner.periodic
            &&& same_but_diagnostics(
                CoordinatorView { periodic: after.periodic, ..inner },
                after,
            )
        }),
{
}

/// A required status is one more submission: an open coordinator queues it behind every
/// other, as it was submitted, with a fresh acknowledgement that is not resolved; one that is
/// shut down only counts it disconnected.
pub proof fn law_required_status_is_queued_or_refused(state: SharedView, status: StatusView)
    ensures
        ({
            let after = state.enqueue_required(status);
            let was = state.inner.diagnostics;
            let is = after.inner.diagnostics;
            &&& is.submitted == was.submitted + 1
            &&& is.disconnected == was.disconnected + one_if(state.inner.shutdown)
            &&& is.written == was.written
            &&& is.coalesced == was.coalesced
            &&& is.dropped == was.dropped
            &&& is.write_failures == was.write_failures
            &&& is.last_error == was.last_error
            &&& state.inner.shutdown ==> after.acks == state.acks && same_but_diagnostics(
                state.inner,
                after.inner,
            )
            &&& !state.inner.shutdown ==> {
                let command = after.inner.required.last();
                &&& after.inner.required.len() == state.inner.required.len() + 1
                &&& forall|i: int|
                    0 <= i < state.inner.required.len() ==> #[trigger] after.inner.required[i]
                        == state.inner.required[i]
                &&& command.status == status
                &&& command.id == state.inner.next_command_id
                &&& command.cell == state.acks.len()
                &&& command.is_queued()
                &&& after.inner.next_command_id == state.inner.next_command_id + 1
                &&& after.acks.len() == state.acks.len() + 1
                &&& after.acks.last() is None
                &&& forall|i: int|
                    0 <= i < state.acks.len() ==> #[trigger] after.acks[i] == state.acks[i]
                &&& same_but_diagnostics(
                    CoordinatorView {
                        required: after.inner.required,
                        next_command_id: after.inner.next_command_id,
                        ..state.inner
                    },
                    after.inner,
                )
            }
        }),
{
}

/// The worker accepts the front command exactly when none is active, the coordinator is not
/// shut down, and that command is still queued. The document it gets is the submitted one,
/// with an accounting that counts its own write; nothing is counted yet.
pub proof fn law_acceptance_hands_over_the_front(inner: CoordinatorView)
    ensures
        inner.can_accept() <==> inner.active is None && !inner.shutdown && inner.required.len() > 0
            && inner.required[0].lifecycle is Queued,
        inner.can_accept() ==> {
            let after = inner.accept();
            let document = inner.accepted_status();
            let front = inner.required[0];
            &&& document == (StatusView { transport: document.transport, ..front.status })
            &&& document.transport.written == inner.diagnostics.written + 1
            &&& document.transport.submitted == inner.diagnostics.submitted
            &&& document.transport.coalesced == inner.diagnostics.coalesced
            &&& document.transport.dropped == inner.diagnostics.dropped
            &&& document.transport.disconnected == inner.diagnostics.disconnected
            &&& document.transport.write_failures == inner.diagnostics.write_failures
            &&& document.transport.last_error == inner.diagnostics.last_error
            &&& after.active matches Some(active) && active.id == front.id && active.cell
                == front.cell && active.phase is Pending && !active.accounting_applied
            &&& after.required.len() == inner.required.len() - 1
            &&& after == (CoordinatorView {
                required: after.required,
                active: after.active,
                ..inner
            })
        },
        !inner.can_accept() ==> inner.accept() == inner,
{
}

/// The order of work: an acceptable required command, else the pending snapshot, else the
/// terminal status, else nothing. Taking it empties its slot and touches nothing else.
pub proof fn law_work_comes_in_order(inner: CoordinatorView)
    ensures
        inner.can_accept() ==> inner.work() == WorkView::Required(
            inner.required[0].id,
            inner.accepted_status(),
        ),
        !inner.can_accept() ==> (inner.periodic matches Some(status) ==> inner.work()
            == WorkView::Periodic(status) && inner.take_work() == (CoordinatorView {
            periodic: None,
            ..inner
        })),
        !inner.can_accept() && inner.periodic is None ==> (inner.terminal matches Some(terminal)
            ==> inner.work() == WorkView::Terminal(terminal) && inner.take_work() == (
        CoordinatorView { terminal: None, ..inner })),
        !inner.can_accept() && inner.periodic is None && inner.terminal is None ==> inner.work()
            is Idle && inner.take_work() == inner,
{
}

/// A store's result enters the record of its own command, as it is, and no other.
pub proof fn law_observed_result_enters_its_own_record(
    inner: CoordinatorView,
    id: nat,
    result: Result<(), Seq<char>>,
)
    ensures
        ({
            let after = inner.publish_observed(id, result);
            &&& after == (CoordinatorView { active: after.active, ..inner })
            &&& inner.active is None ==> after.active is None
            &&& inner.active matches Some(active) ==> (after.active matches Some(record) && {
                &&& record.id == active.id
                &&& record.cell == active.cell
                &&& record.accounting_applied == active.accounting_applied
                &&& active.id == id ==> record.phase == PhaseView::Observed(result)
                &&& active.id != id ==> record.phase == active.phase
            })
        }),
{
}

/// What an active write's submitter is due: nothing while the store may still return; the
/// unwind where it provably cannot; the store's own result, its failure bounded, once it
/// returned; and from then on that same result. It is accounted when it is fixed, and never
/// again.
pub proof fn law_active_write_is_settled_once(state: SharedView, authorized: bool)
    requires
        state.sound(),
        state.inner.active is Some,
    ensures
        ({
            let active = state.inner.active.unwrap();
            let after = state.settle_active(authorized);
            let was = state.inner.diagnostics;
            let is = after.inner.diagnostics;
            match active.phase {
                PhaseView::Pending => if authorized {
                    &&& after.inner.active is None
                    &&& after.acks[active.cell as int] == Some(
                        Err::<(), Seq<char>>(
                            bounded(
                                "persist pump status: status worker panicked before acknowledging an accepted required write"@,
                            ),
                        ),
                    )
                    &&& is.write_failures == was.write_failures + 1
                    &&& is.written == was.written
                    &&& is.settled() == was.settled() + 1
                } else {
                    after == state
                },
                PhaseView::Observed(Ok(())) => {
                    &&& after.inner.active is None
                    &&& after.acks[active.cell as int] matches Some(Ok(()))
                    &&& is.written == was.written + 1
                    &&& is.settled() == was.settled() + 1
                    &&& is.last_error == was.last_error
                },
                PhaseView::Observed(Err(error)) => {
                    &&& after.inner.active is None
                    &&& after.acks[active.cell as int] == Some(
                        Err::<(), Seq<char>>(bounded(error)),
                    )
                    &&& is.write_failures == was.write_failures + 1
                    &&& is.settled() == was.settled() + 1
                    &&& is.last_error == Some(bounded(error))
                },
                PhaseView::Prepared(result) => {
                    &&& after.inner.active is None
                    &&& after.acks[active.cell as int] == Some(result)
                    &&& is == was
                },
            }
        }),
        ({
            let after = state.settle_active(authorized);
            &&& after.acks.len() == state.acks.len()
            &&& forall|i: int|
                0 <= i < state.acks.len() && i != state.inner.active.unwrap().cell
                    ==> #[trigger] after.acks[i] == state.acks[i]
            &&& same_but_diagnostics(
                CoordinatorView { active: after.inner.active, ..state.inner },
                after.inner,
            )
            &&& after.inner.diagnostics.submitted == state.inner.diagnostics.submitted
        }),
{
    let active = state.inner.active.unwrap();
    assert(state.active_ack(active));
    lemma_settle_active_wf(state, authorized, 0);
}

/// Only the record of the very command named is removed.
pub proof fn law_cleanup_removes_one_record(inner: CoordinatorView, id: nat)
    ensures
        inner.active matches Some(active) ==> (active.id == id ==> inner.cleanup_active(id) == (
        CoordinatorView { active: None, ..inner })),
        inner.active matches Some(active) ==> (active.id != id ==> inner.cleanup_active(id)
            == inner),
{
}

/// Retirement happens in place: every command keeps its place, identity, cell and document;
/// the queued ones are given the disconnected result, the retired ones keep theirs; and as
/// many are counted disconnected as were queued.
pub proof fn law_retirement_is_in_place(inner: CoordinatorView)
    ensures
        ({
            let after = inner.retire_queued();
            &&& after.shutdown
            &&& after.required.len() == inner.required.len()
            &&& forall|i: int|
                0 <= i < inner.required.len() ==> {
                    let was = inner.required[i];
                    let is = #[trigger] after.required[i];
                    &&& is.id == was.id
                    &&& is.cell == was.cell
                    &&& is.status == was.status
                    &&& was.lifecycle is Queued ==> is.lifecycle == (LifecycleView::Resolving {
                        immutable_error: "persist pump status: status worker disconnected"@,
                    })
                    &&& was.lifecycle is Resolving ==> is.lifecycle == was.lifecycle
                }
            &&& after.diagnostics.disconnected == inner.diagnostics.disconnected + count_queued(
                inner.required,
            )
            &&& after.diagnostics == (TransportView {
                disconnected: after.diagnostics.disconnected,
                ..inner.diagnostics
            })
            &&& same_but_diagnostics(
                CoordinatorView { required: after.required, shutdown: true, ..inner },
                after,
            )
        }),
        (forall|i: int| 0 <= i < inner.required.len() ==> (#[trigger] inner.required[i]).lifecycle
            is Queued) ==> count_queued(inner.required) == inner.required.len(),
{
    if forall|i: int| 0 <= i < inner.required.len() ==> (#[trigger] inner.required[i]).lifecycle
        is Queued {
        lemma_count_all(inner.required);
    }
}

proof fn lemma_count_all(required: Seq<CommandView>)
    requires
        forall|i: int| 0 <= i < required.len() ==> (#[trigger] required[i]).lifecycle is Queued,
    ensures
        count_queued(required) == required.len(),
    decreases required.len(),
{
    if required.len() > 0 {
        let shorter = required.drop_last();
        assert forall|i: int| 0 <= i < shorter.len() implies (#[trigger] shorter[i]).lifecycle
            is Queued by {
            assert(shorter[i] == required[i]);
        }
        assert(required.last() == required[required.len() - 1]);
        lemma_count_all(shorter);
    }
}

/// A write that returned is no longer under way, and is counted once. A failure is the most
/// recent error, bounded, and is kept apart by what was written: a periodic and a fallback
/// failure each in its own field, a terminal one in neither.
pub proof fn law_recorded_write_keeps_its_kind(
    inner: CoordinatorView,
    error: Seq<char>,
    kind: WriteKind,
)
    ensures
        ({
            let after = inner.record_write(Ok(()), kind);
            &&& after.in_flight is None
            &&& after.diagnostics.written == inner.diagnostics.written + 1
            &&& after.diagnostics.settled() == inner.diagnostics.settled() + 1
            &&& after.diagnostics.last_error == inner.diagnostics.last_error
            &&& after.diagnostics.submitted == inner.diagnostics.submitted
            &&& same_but_diagnostics(CoordinatorView { in_flight: None, ..inner }, after)
        }),
        ({
            let after = inner.record_write(Err(error), kind);
            &&& after.in_flight is None
            &&& after.diagnostics.write_failures == inner.diagnostics.write_failures + 1
            &&& after.diagnostics.settled() == inner.diagnostics.settled() + 1
            &&& after.diagnostics.last_error == Some(bounded(error))
            &&& after.diagnostics.submitted == inner.diagnostics.submitted
            &&& kind == WriteKind::Periodic ==> after.periodic_error == Some(bounded(error))
            &&& kind != WriteKind::Periodic ==> after.periodic_error == inner.periodic_error
            &&& kind == WriteKind::Fallback ==> after.fallback_error == Some(bounded(error))
            &&& kind != WriteKind::Fallback ==> after.fallback_error == inner.fallback_error
            &&& same_but_diagnostics(
                CoordinatorView {
                    in_flight: None,
                    periodic_error: after.periodic_error,
                    fallback_error: after.fallback_error,
                    ..inner
                },
                after,
            )
        }),
{
}

/// Beginning a write marks it, and a terminal or fallback status is one more submission;
/// sealing, shutting and keeping a settlement error each change what they say and no more.
pub proof fn law_marks_change_nothing_else(
    inner: CoordinatorView,
    kind: WriteKind,
    terminal: TerminalView,
    error: Seq<char>,
)
    ensures
        inner.begin_write(kind) == (CoordinatorView { in_flight: Some(kind), ..inner }),
        inner.begin_terminal(kind).in_flight == Some(kind),
        inner.begin_terminal(kind).diagnostics.submitted == inner.diagnostics.submitted + 1,
        inner.begin_terminal(kind).diagnostics == (TransportView {
            submitted: inner.diagnostics.submitted + 1,
            ..inner.diagnostics
        }),
        same_but_diagnostics(
            CoordinatorView { in_flight: Some(kind), ..inner },
            inner.begin_terminal(kind),
        ),
        inner.seal(terminal) == (CoordinatorView {
            sealed: true,
            terminal: Some(terminal),
            ..inner
        }),
        inner.shut() == (CoordinatorView { shutdown: true, ..inner }),
        inner.set_settlement_error(error) == (CoordinatorView {
            settlement_error: Some(bounded(error)),
            ..inner
        }),
{
}

/// What a worker left behind is retired by what became of it: a write under way is a failure
/// with the panic as its text, a pending snapshot is disconnected, and a terminal status
/// that was never reached is submitted and disconnected.
pub proof fn law_leftovers_are_counted_by_their_fate(inner: CoordinatorView)
    ensures
        ({
            let after = inner.account_in_flight_unwind();
            &&& inner.in_flight is None ==> after == inner
            &&& inner.in_flight is Some ==> {
                &&& after.in_flight is None
                &&& after.diagnostics.write_failures == inner.diagnostics.write_failures + 1
                &&& after.diagnostics.disconnected == inner.diagnostics.disconnected
                &&& after.diagnostics.last_error == Some(
                    bounded("status coordinator worker panicked while persisting a status"@),
                )
            }
        }),
        ({
            let after = inner.retire_pending_periodic();
            &&& after.periodic is None
            &&& after.diagnostics.disconnected == inner.diagnostics.disconnected + one_if(
                inner.periodic is Some,
            )
            &&& after.diagnostics.submitted == inner.diagnostics.submitted
            &&& same_but_diagnostics(CoordinatorView { periodic: None, ..inner }, after)
        }),
        ({
            let after = inner.retire_pending_terminal();
            &&& after.terminal is None
            &&& after.diagnostics.submitted == inner.diagnostics.submitted + one_if(
                inner.terminal is Some,
            )
            &&& after.diagnostics.disconnected == inner.diagnostics.disconnected + one_if(
                inner.terminal is Some,
            )
            &&& same_but_diagnostics(CoordinatorView { terminal: None, ..inner }, after)
        }),
{
}

/// Nothing is pending exactly when every slot and the queue are empty and no write is under
/// way.
pub proof fn law_quiescent_means_nothing_pending(inner: CoordinatorView)
    ensures
        inner.quiescent() <==> inner.periodic is None && inner.required.len() == 0
            && inner.active is None && inner.terminal is None && inner.in_flight is None,
{
}

/// A finished coordinator reports what its worker reported, each failure in its own field;
/// a periodic failure that only the coordinator saw is not lost; and a worker that could not
/// be joined is reported as a panic, beside nothing else.
pub proof fn law_finish_reports_what_the_worker_reported(
    state: SharedView,
    settlement: SettlementView,
)
    ensures
        ({
            let reported = state.settlement(JoinView::Settled(settlement));
            &&& reported.settlement_error == settlement.settlement_error
            &&& reported.fallback_error == settlement.fallback_error
            &&& reported.worker_error == settlement.worker_error
            &&& settlement.periodic_error is Some ==> reported.periodic_error
                == settlement.periodic_error
            &&& settlement.periodic_error is None ==> reported.periodic_error
                == state.finished().inner.periodic_error
            &&& reported.diagnostics == state.finished().inner.diagnostics
        }),
        ({
            let reported = state.settlement(JoinView::Panicked);
            &&& reported.worker_error == Some(
                "status coordinator worker panicked while persisting a status"@,
            )
            &&& reported.settlement_error is None
            &&& reported.fallback_error is None
            &&& reported.periodic_error == state.finished().inner.periodic_error
            &&& reported.diagnostics == state.finished().inner.diagnostics
        }),
        ({
            let reported = state.settlement(JoinView::AlreadyJoined);
            &&& reported.worker_error is None
            &&& reported.settlement_error is None
            &&& reported.fallback_error is None
            &&& reported.periodic_error == state.finished().inner.periodic_error
        }),
{
}

/// A submitter reports its acknowledgement: success, or the failure it was told, bounded.
pub proof fn law_submitter_reports_its_acknowledgement(error: Seq<char>)
    ensures
        required_report(Ok(())) is Ok,
        required_report(Err(error)) matches Err(reported) && reported.message == bounded(error)
            && reported.settlement_error is None && reported.worker_error is None,
        COORDINATOR_SHUT_DOWN@ == "persist pump status: status coordinator already shut down"@,
{
}

/// The coordinator's slots, queue and counters are read off their fields as they stand.
pub proof fn law_coordinator_is_read_as_it_stands(state: SharedStatusState)
    ensures
        state@.inner.sealed == state.inner.sealed,
        state@.inner.shutdown == state.inner.shutdown,
        state@.inner.in_flight == state.inner.in_flight,
        state@.inner.next_command_id == state.inner.next_command_id,
        state@.inner.diagnostics == state.inner.diagnostics@,
        state@.inner.periodic_error == text_of(state.inner.periodic_error),
        state@.inner.settlement_error == text_of(state.inner.settlement_error),
        state@.inner.fallback_error == text_of(state.inner.fallback_error),
        state.inner.periodic matches Some(status) ==> state@.inner.periodic == Some(status@),
        state.inner.periodic is None ==> state@.inner.periodic is None,
        state.inner.terminal matches Some(terminal) ==> state@.inner.terminal == Some(terminal@),
        state.inner.terminal is None ==> state@.inner.terminal is None,
        state.inner.active_required is None <==> state@.inner.active is None,
        state.inner.active_required matches Some(record) ==> (
        state@.inner.active matches Some(active) && active.id == record.id.0 && active.cell
            == record.resolver.cell && active.accounting_applied == record.accounting_applied && (
        active.phase is Pending <==> record.phase is Pending) && (active.phase is Observed
            <==> record.phase is Observed)),
        state@.inner.required.len() == state.inner.required@.len(),
        forall|i: int|
            0 <= i < state.inner.required@.len() ==> {
                let command = state.inner.required@[i];
                let seen = #[trigger] state@.inner.required[i];
                &&& seen.id == command.id.0
                &&& seen.cell == command.resolver.cell
                &&& seen.status == command.status@
                &&& seen.lifecycle is Queued <==> command.lifecycle is Queued
            },
        state@.acks.len() == state.acks.cells@.len(),
        forall|i: int|
            0 <= i < state.acks.cells@.len() ==> ((#[trigger] state@.acks[i]) is Some
                <==> state.acks.cells@[i].result is Some),
{
}
/// Resolving gives each retired command its own error, bounded, unless its acknowledgement
/// was resolved before, which stays; and then takes it out. The queued ones stay queued and
/// unresolved, and nothing is counted.
pub proof fn law_retired_commands_get_their_own_error(state: SharedView)
    requires
        state.wf(),
    ensures
        ({
            let after = state.resolve_queued();
            &&& after.acks.len() == state.acks.len()
            &&& forall|i: int|
                0 <= i < state.inner.required.len() ==> {
                    let command = #[trigger] state.inner.required[i];
                    let was = state.acks[command.cell as int];
                    let is = after.acks[command.cell as int];
                    &&& was is Some ==> is == was
                    &&& command.lifecycle matches LifecycleView::Resolving { immutable_error } ==> (
                    was is None ==> is == Some(Err::<(), Seq<char>>(bounded(immutable_error))))
                }
            &&& acks_kept(state.acks, after.acks)
            &&& forall|i: int|
                0 <= i < after.inner.required.len() ==> (
                #[trigger] after.inner.required[i]).lifecycle is Queued
            &&& after.inner.required.len() == count_queued(state.inner.required)
            &&& after.inner == (CoordinatorView { required: after.inner.required, ..state.inner })
        }),
{
    lemma_resolve_queued_acks(state);
    lemma_still_queued_count(state.inner.required);
    assert forall|i: int| 0 <= i < state.inner.required.len() implies {
        let command = #[trigger] state.inner.required[i];
        let was = state.acks[command.cell as int];
        let is = state.resolve_queued().acks[command.cell as int];
        &&& was is Some ==> is == was
        &&& command.lifecycle matches LifecycleView::Resolving { immutable_error } ==> (was is None
            ==> is == Some(Err::<(), Seq<char>>(bounded(immutable_error))))
    } by {
        let command = state.inner.required[i];
        if !command.is_queued() {
            assert(state.resolve_queued().acks[command.cell as int] == own_or_kept(
                state,
                command,
            ));
        }
    }
}

proof fn lemma_still_queued_count(required: Seq<CommandView>)
    ensures
        still_queued(required).len() == count_queued(required),
        forall|i: int|
            0 <= i < still_queued(required).len() ==> (#[trigger] still_queued(
                required,
            )[i]).is_queued(),
    decreases required.len(),
{
    reveal_with_fuel(Seq::filter, 2);
    if required.len() > 0 {
        let shorter = required.drop_last();
        lemma_still_queued_count(shorter);
        assert forall|i: int| 0 <= i < still_queued(required).len() implies (
        #[trigger] still_queued(required)[i]).is_queued() by {
            if i < still_queued(shorter).len() {
                assert(still_queued(required)[i] == still_queued(shorter)[i]);
            }
        }
    }
}

/// Reconciliation shuts the coordinator, and takes nothing away that it does not retire: a
/// terminal status, the seal, and a settlement failure stay.
pub proof fn law_reconciliation_keeps_the_rest(state: SharedView)
    requires
        state.wf(),
    ensures
        state.reconcile_abandoned().inner.shutdown,
        state.reconcile_abandoned().inner.terminal == state.inner.terminal,
        state.reconcile_abandoned().inner.sealed == state.inner.sealed,
        state.reconcile_abandoned().inner.settlement_error == state.inner.settlement_error,
        state.reconcile_abandoned().inner.next_command_id == state.inner.next_command_id,
        acks_kept(state.acks, state.reconcile_abandoned().acks),
{
    lemma_reconcile_abandoned_wf(state, 0);
    lemma_reconcile_frame(state);
}
} // verus!
