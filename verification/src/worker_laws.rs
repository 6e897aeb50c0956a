//! What holds of the status worker as a whole.

use vstd::prelude::*;

use crate::ack::observable;
use crate::coordinator::required_report;
use crate::coordinator_invariant::{
    lemma_accept_wf, lemma_begin_terminal_wf, lemma_begin_write_wf, lemma_publish_observed_wf,
    lemma_record_write_wf, lemma_set_settlement_error_wf, lemma_settle_active_wf,
    lemma_take_periodic_wf, lemma_take_terminal_wf,
};
use crate::coordinator_laws::{
    acks_kept, apply, enabled, law_drained_is_exact, law_finish_settles_everything,
    law_finished_coordinator_takes_nothing_more, law_projected_accounting_balances,
    law_reconciled_is_exact, law_step_keeps_sound, law_terminal_is_last, only_submissions, run,
    Step,
};
use crate::coordinator_model::{
    count_queued, one_if, CoordinatorView, JoinView, SharedView, WorkView, WriteKind,
    STATUS_WORKER_PANIC,
};
use crate::error::{ErrorView, SettlementView};
use crate::status::{PumpState, StatusView, TerminalView, TransportView};
use crate::text::{bounded, bounded_opt, bounded_result, law_bounded_within_cap};
use crate::worker::{
    next_step, returned_fault, returned_step, unwound_settlement, ActionView, StatusWorker,
    WorkerAction, WorkerPhase, WorkerView,
};

verus! {

/// The steps that threads other than the worker take while it lives: submissions,
/// sealing, and settlers without abandonment authority.
pub open spec fn from_elsewhere(step: Step) -> bool {
    match step {
        Step::SubmitRequired(_) => true,
        Step::SubmitPeriodic(_) => true,
        Step::Seal(_) => true,
        Step::Prepare(authorized) => !authorized,
        Step::Deliver(_) => true,
        Step::CleanupActive(_) => true,
        Step::CleanupRetired(_) => true,
        _ => false,
    }
}

/// What the worker waits on for the store stays in place whatever other threads do in
/// the meantime, so the result it comes back with is always accounted to its own write.
pub proof fn law_write_in_progress_is_undisturbed(
    worker: WorkerView,
    shared: SharedView,
    step: Step,
)
    requires
        shared.sound(),
        worker.holds(shared),
        enabled(shared, step),
        from_elsewhere(step),
    ensures
        worker.holds(apply(shared, step)),
{
    if let Some(active) = shared.inner.active {
        assert(shared.active_ack(active));
    }
}

/// A required submitter is acknowledged with exactly its own write's result, bounded,
/// and that result is accounted once.
pub proof fn law_required_is_acknowledged(
    shared: SharedView,
    id: nat,
    result: Result<(), Seq<char>>,
    now_ms: u64,
)
    requires
        shared.sound(),
        WorkerView::Required(id).holds(shared),
    ensures
        ({
            let after = returned_step(WorkerView::Required(id), shared, result, now_ms).shared;
            &&& after.acks == shared.acks.update(id as int, Some(bounded_result(result)))
            &&& after.inner == (CoordinatorView {
                active: None,
                diagnostics: shared.inner.diagnostics.record(bounded_result(result)),
                ..shared.inner
            })
        }),
{
    let active = shared.inner.active.unwrap();
    assert(shared.active_ack(active));
    let observed = shared.with_inner(shared.inner.publish_observed(id, result));
    lemma_publish_observed_wf(shared, id, result, 0);
    lemma_settle_active_wf(observed, false, 0);
}

/// How much work waits for the worker.
pub open spec fn waiting(inner: CoordinatorView) -> nat {
    inner.required.len() + one_if(inner.periodic is Some) + one_if(inner.terminal is Some)
}

/// A draining worker waits for a wake exactly when nothing waits for it, and otherwise
/// takes exactly one piece of work: no submission is passed over.
pub proof fn law_worker_leaves_nothing_waiting(shared: SharedView, now_ms: u64)
    requires
        shared.sound(),
        WorkerView::Draining.holds(shared),
    ensures
        next_step(shared, now_ms).action is AwaitWake <==> waiting(shared.inner) == 0,
        waiting(shared.inner) > 0 ==> next_step(shared, now_ms).action is Write && waiting(
            next_step(shared, now_ms).shared.inner,
        ) == waiting(shared.inner) - 1,
{
    if shared.inner.required.len() > 0 {
        assert(shared.inner.required[0].is_queued());
    }
}

/// The terminal document proves that nothing was discarded unseen: when the worker
/// begins it nothing else is outstanding, so the accounting it carries balances and
/// counts its own write.
pub proof fn law_terminal_document_balances(shared: SharedView, now_ms: u64)
    requires
        shared.sound(),
        WorkerView::Draining.holds(shared),
        shared.inner.work() is Terminal,
    ensures
        next_step(shared, now_ms).action matches ActionView::Write(document) && {
            &&& document.transport.balanced()
            &&& document.transport.submitted == shared.inner.diagnostics.submitted + 1
            &&& document.transport.written == shared.inner.diagnostics.written + 1
            &&& document.state == shared.inner.terminal.unwrap().state
            &&& document.periodic_error == bounded_opt(shared.inner.periodic_error)
        },
{
    law_terminal_is_last(shared, arbitrary());
    lemma_take_terminal_wf(shared, 0);
    law_projected_accounting_balances(
        shared.with_inner(shared.inner.take_terminal()),
        WriteKind::Terminal,
    );
}

/// A Running document whose own submission is the only one outstanding carries a
/// balanced accounting, not zeros.
pub proof fn law_running_document_balances(shared: SharedView, now_ms: u64)
    requires
        shared.sound(),
        WorkerView::Draining.holds(shared),
        shared.inner.outstanding() == 1,
    ensures
        next_step(shared, now_ms).action matches ActionView::Write(document) ==>
            document.transport.balanced(),
{
    if shared.inner.work() is Terminal {
        law_terminal_is_last(shared, arbitrary());
        assert(count_queued(shared.inner.required) == 0);
    }
}

/// After the terminal write begins, the only document the worker can still write is one
/// Failed fallback of a Complete status; after that it exits. Nothing Running follows a
/// terminal status.
pub proof fn law_nothing_follows_the_terminal(
    shared: SharedView,
    terminal: TerminalView,
    error: Seq<char>,
    result: Result<(), Seq<char>>,
    now_ms: u64,
)
    ensures
        ({
            let step = returned_step(WorkerView::Terminal(terminal), shared, result, now_ms);
            match step.action {
                ActionView::Write(document) => {
                    &&& terminal.state == PumpState::Complete
                    &&& result is Err
                    &&& document.state == PumpState::Failed
                    &&& step.worker is Fallback
                },
                ActionView::Exit(_) => step.worker is Exited && (result is Ok || terminal.state
                    != PumpState::Complete),
                _ => false,
            }
        }),
        returned_step(WorkerView::Fallback(error), shared, result, now_ms).action is Exit,
        returned_step(WorkerView::Fallback(error), shared, result, now_ms).worker is Exited,
{
}

/// A terminal write failure is published to the first-fault latch in the same step that
/// begins the fallback, so a blocked fallback cannot hide it; a fault already latched
/// stays.
pub proof fn law_settlement_failure_is_published_first(
    terminal: TerminalView,
    fault: Option<Seq<char>>,
    error: Seq<char>,
)
    ensures
        returned_fault(WorkerView::Terminal(terminal), fault, Err(error)) is Some,
        fault is None ==> returned_fault(WorkerView::Terminal(terminal), fault, Err(error))
            == Some(bounded(error)),
        fault is Some ==> returned_fault(WorkerView::Terminal(terminal), fault, Err(error))
            == fault,
{
}

/// A Complete status that cannot be persisted, and whose Failed fallback fails too,
/// settles with each failure in its own field, and counts two submissions and two write
/// failures.
pub proof fn law_distinct_failures_are_retained(
    shared: SharedView,
    terminal: TerminalView,
    complete_error: Seq<char>,
    fallback_error: Seq<char>,
    now_ms: u64,
)
    requires
        shared.sound(),
        WorkerView::Terminal(terminal).holds(shared),
        terminal.state == PumpState::Complete,
    ensures
        ({
            let first = returned_step(
                WorkerView::Terminal(terminal),
                shared,
                Err(complete_error),
                now_ms,
            );
            let second = returned_step(first.worker, first.shared, Err(fallback_error), now_ms);
            second.action matches ActionView::Exit(settlement) && {
                &&& settlement.settlement_error == Some(bounded(complete_error))
                &&& settlement.fallback_error == Some(bounded(fallback_error))
                &&& settlement.periodic_error == shared.inner.periodic_error
                &&& settlement.worker_error is None
                &&& settlement.diagnostics.submitted == shared.inner.diagnostics.submitted + 1
                &&& settlement.diagnostics.write_failures
                    == shared.inner.diagnostics.write_failures + 2
            }
        }),
{
}

/// A Complete status that cannot be persisted but whose Failed fallback lands is still a
/// terminal failure: the settlement carries the Complete error and no fallback error.
pub proof fn law_landed_fallback_is_still_a_failure(
    shared: SharedView,
    terminal: TerminalView,
    complete_error: Seq<char>,
    now_ms: u64,
)
    requires
        terminal.state == PumpState::Complete,
        shared.inner.fallback_error is None,
    ensures
        ({
            let first = returned_step(
                WorkerView::Terminal(terminal),
                shared,
                Err(complete_error),
                now_ms,
            );
            let second = returned_step(first.worker, first.shared, Ok(()), now_ms);
            second.action matches ActionView::Exit(settlement) && {
                &&& settlement.settlement_error == Some(bounded(complete_error))
                &&& settlement.fallback_error is None
                &&& settlement.terminal_failure() is Some
            }
        }),
{
}

/// A panic inside the store is accounted to the write that was under way: one write
/// failure, latched as a periodic or fallback failure if it was one, while every failure
/// already recorded survives.
pub proof fn law_unwind_is_attributed(shared: SharedView)
    requires
        shared.sound(),
        shared.inner.active is None,
    ensures
        ({
            let after = shared.reconcile_abandoned().inner;
            let panic = Some(bounded(STATUS_WORKER_PANIC@));
            let settlement = unwound_settlement(after);
            &&& settlement.settlement_error == shared.inner.settlement_error
            &&& settlement.worker_error == Some(STATUS_WORKER_PANIC@)
            &&& settlement.periodic_error == if shared.inner.in_flight == Some(
                WriteKind::Periodic,
            ) {
                panic
            } else {
                shared.inner.periodic_error
            }
            &&& settlement.fallback_error == if shared.inner.in_flight == Some(
                WriteKind::Fallback,
            ) {
                panic
            } else {
                shared.inner.fallback_error
            }
            &&& settlement.diagnostics.write_failures == shared.inner.diagnostics.write_failures
                + one_if(shared.inner.in_flight is Some)
        }),
{
    let accounted = shared.with_inner(shared.inner.shut().account_in_flight_unwind());
    assert(accounted.settle_active(true) == accounted);
}

/// A fallback that panics keeps both failures: the Complete error as the settlement
/// failure and the panic as the fallback failure.
pub proof fn law_fallback_panic_keeps_both_failures(
    shared: SharedView,
    terminal: TerminalView,
    complete_error: Seq<char>,
    now_ms: u64,
)
    requires
        shared.sound(),
        WorkerView::Terminal(terminal).holds(shared),
        terminal.state == PumpState::Complete,
    ensures
        ({
            let first = returned_step(
                WorkerView::Terminal(terminal),
                shared,
                Err(complete_error),
                now_ms,
            );
            let settlement = unwound_settlement(first.shared.reconcile_abandoned().inner);
            &&& settlement.settlement_error == Some(bounded(complete_error))
            &&& settlement.fallback_error == Some(bounded(STATUS_WORKER_PANIC@))
            &&& settlement.worker_error == Some(STATUS_WORKER_PANIC@)
            &&& settlement.diagnostics.balanced()
        }),
{
    let recorded = shared.inner.record_write(Err(complete_error), WriteKind::Terminal);
    lemma_record_write_wf(shared, Err(complete_error), WriteKind::Terminal, 0);
    law_bounded_within_cap(complete_error);
    let failed = recorded.set_settlement_error(bounded(complete_error));
    lemma_set_settlement_error_wf(shared.with_inner(recorded), bounded(complete_error), 0);
    let begun = failed.begin_terminal(WriteKind::Fallback);
    lemma_begin_terminal_wf(
        shared.with_inner(failed),
        WriteKind::Fallback,
        0,
    );
    law_unwind_is_attributed(shared.with_inner(begun));
    law_reconciled_is_exact(shared.with_inner(begun));
}

/// A worker that exits after its terminal write reports a balanced accounting whenever no
/// required status arrived behind the terminal one; one that did is left for the
/// coordinator's own reconciliation.
pub proof fn law_worker_exit_is_balanced(
    worker: WorkerView,
    shared: SharedView,
    result: Result<(), Seq<char>>,
    now_ms: u64,
)
    requires
        shared.sound(),
        worker.holds(shared),
        worker.is_writing(),
        shared.inner.required.len() == 0,
    ensures
        returned_step(worker, shared, result, now_ms).action matches ActionView::Exit(settlement)
            ==> settlement.diagnostics.balanced(),
{
    assert(count_queued(shared.inner.required) == 0);
}

/// Beginning its next work keeps the coordinator sound and the worker's phase true.
pub proof fn law_next_step_keeps_sound(shared: SharedView, now_ms: u64)
    requires
        shared.sound(),
        WorkerView::Draining.holds(shared),
    ensures
        next_step(shared, now_ms).shared.sound(),
        next_step(shared, now_ms).worker.holds(next_step(shared, now_ms).shared),
{
    match shared.inner.work() {
        WorkView::Required(_, _) => lemma_accept_wf(shared, 0),
        WorkView::Periodic(_) => {
            lemma_take_periodic_wf(shared, 0);
            lemma_begin_write_wf(
                shared.with_inner(shared.inner.take_periodic()),
                WriteKind::Periodic,
                0,
            );
        },
        WorkView::Terminal(_) => {
            law_terminal_is_last(shared, arbitrary());
            lemma_take_terminal_wf(shared, 0);
            lemma_begin_terminal_wf(
                shared.with_inner(shared.inner.take_terminal()),
                WriteKind::Terminal,
                0,
            );
        },
        WorkView::Idle => {},
    }
}

/// Taking in a write's result keeps the coordinator sound and the worker's phase true.
pub proof fn law_returned_step_keeps_sound(
    worker: WorkerView,
    shared: SharedView,
    result: Result<(), Seq<char>>,
    now_ms: u64,
)
    requires
        shared.sound(),
        worker.holds(shared),
    ensures
        returned_step(worker, shared, result, now_ms).shared.sound(),
        returned_step(worker, shared, result, now_ms).worker.holds(
            returned_step(worker, shared, result, now_ms).shared,
        ),
{
    match worker {
        WorkerView::Required(id) => {
            lemma_publish_observed_wf(shared, id, result, 0);
            lemma_settle_active_wf(
                shared.with_inner(shared.inner.publish_observed(id, result)),
                false,
                0,
            );
        },
        WorkerView::Periodic => lemma_record_write_wf(shared, result, WriteKind::Periodic, 0),
        WorkerView::Terminal(terminal) => {
            lemma_record_write_wf(shared, result, WriteKind::Terminal, 0);
            if let Err(err) = result {
                let recorded = shared.with_inner(
                    shared.inner.record_write(result, WriteKind::Terminal),
                );
                law_bounded_within_cap(err);
                lemma_set_settlement_error_wf(recorded, bounded(err), 0);
                lemma_begin_terminal_wf(
                    recorded.with_inner(recorded.inner.set_settlement_error(bounded(err))),
                    WriteKind::Fallback,
                    0,
                );
            }
        },
        WorkerView::Fallback(_) => lemma_record_write_wf(shared, result, WriteKind::Fallback, 0),
        _ => {},
    }
}

/// A worker left to itself: the documents it wrote, the coordinator it left, and its
/// settlement if it exited.
pub struct ServiceView {
    pub documents: Seq<StatusView>,
    pub shared: SharedView,
    pub settlement: Option<SettlementView>,
}

/// Let a draining worker write until it has no more work, exits, or no answer of the store
/// is left. The store answers its writes with `answers`, in order.
pub open spec fn serve(
    shared: SharedView,
    answers: Seq<Result<(), Seq<char>>>,
    now_ms: u64,
) -> ServiceView
    decreases answers.len(),
{
    let begun = next_step(shared, now_ms);
    match begun.action {
        ActionView::Write(document) if answers.len() > 0 => {
            let returned = returned_step(begun.worker, begun.shared, answers[0], now_ms);
            match returned.action {
                ActionView::Exit(settlement) => ServiceView {
                    documents: seq![document],
                    shared: returned.shared,
                    settlement: Some(settlement),
                },
                ActionView::Write(fallback) if answers.len() > 1 => {
                    let last = returned_step(
                        returned.worker,
                        returned.shared,
                        answers[1],
                        now_ms,
                    );
                    ServiceView {
                        documents: seq![document, fallback],
                        shared: last.shared,
                        settlement: Some(last.action->Exit_0),
                    }
                },
                ActionView::Continue => {
                    let rest = serve(returned.shared, answers.drop_first(), now_ms);
                    ServiceView { documents: seq![document] + rest.documents, ..rest }
                },
                _ => ServiceView {
                    documents: seq![document],
                    shared: returned.shared,
                    settlement: None,
                },
            }
        },
        _ => ServiceView { documents: Seq::empty(), shared: begun.shared, settlement: None },
    }
}

/// The text of a failed write, bounded.
pub open spec fn failure_of(answer: Result<(), Seq<char>>) -> Option<Seq<char>> {
    match answer {
        Ok(()) => None,
        Err(error) => Some(bounded(error)),
    }
}

/// The text of a failed write, bounded, or else what was there before.
pub open spec fn failure_or(
    answer: Result<(), Seq<char>>,
    before: Option<Seq<char>>,
) -> Option<Seq<char>> {
    if answer is Err {
        failure_of(answer)
    } else {
        before
    }
}

/// The required statuses were written first, in order, and each was acknowledged with the
/// answer to its own write; the pending snapshot was written next.
pub open spec fn served_running(
    shared: SharedView,
    answers: Seq<Result<(), Seq<char>>>,
    served: ServiceView,
) -> bool {
    let required = shared.inner.required;
    &&& forall|i: int|
        0 <= i < required.len() ==> {
            &&& (#[trigger] served.documents[i]).stamped(TransportView::empty())
                == required[i].status.stamped(TransportView::empty())
            &&& served.shared.acks[required[i].cell as int] == Some(bounded_result(answers[i]))
        }
    &&& shared.inner.periodic matches Some(snapshot) ==> {
        let document = served.documents[required.len() as int];
        document.stamped(TransportView::empty()) == snapshot.stamped(TransportView::empty())
    }
}

/// The terminal status was written behind everything else, carrying a balanced accounting
/// and the last periodic failure; a Complete one that failed was followed by its one Failed
/// fallback; and the settlement keeps each failure in its own field.
pub open spec fn served_terminal(
    shared: SharedView,
    answers: Seq<Result<(), Seq<char>>>,
    now_ms: u64,
    served: ServiceView,
) -> bool {
    let turns = waiting(shared.inner) as int;
    let terminal = shared.inner.terminal.unwrap();
    let settlement = served.settlement.unwrap();
    let verdict = answers[turns - 1];
    let falls_back = terminal.state == PumpState::Complete && verdict is Err;
    let document = served.documents[turns - 1];
    &&& served.documents.len() == turns + one_if(falls_back)
    &&& document == terminal.build(now_ms, document.transport, settlement.periodic_error)
    &&& document.transport.balanced()
    &&& falls_back ==> {
        let fallback = served.documents[turns];
        &&& fallback == terminal.as_failed(failure_of(verdict).unwrap()).build(
            now_ms,
            fallback.transport,
            settlement.periodic_error,
        )
        &&& fallback.transport.balanced()
    }
    &&& settlement.settlement_error == failure_of(verdict)
    &&& settlement.fallback_error == if falls_back {
        failure_or(answers[turns], shared.inner.fallback_error)
    } else {
        None
    }
    &&& settlement.periodic_error == if shared.inner.periodic is Some {
        failure_or(answers[shared.inner.required.len() as int], shared.inner.periodic_error)
    } else {
        shared.inner.periodic_error
    }
    &&& settlement.worker_error is None
}

/// A worker of a sealed coordinator writes everything that waits and exits, whatever the
/// store answers: the required statuses first and in order, each acknowledged with exactly
/// the answer to its own write, then the newest snapshot, then the terminal status, and
/// after it at most a Failed fallback. It leaves nothing behind, every acknowledgement
/// resolved, a balanced accounting, and a settlement with each failure in its own field.
pub proof fn law_sealed_worker_writes_everything_and_exits(
    shared: SharedView,
    answers: Seq<Result<(), Seq<char>>>,
    now_ms: u64,
)
    requires
        shared.sound(),
        WorkerView::Draining.holds(shared),
        shared.inner.terminal is Some,
        answers.len() > waiting(shared.inner),
    ensures
        ({
            let served = serve(shared, answers, now_ms);
            &&& served.settlement matches Some(settlement) && settlement.diagnostics
                == served.shared.inner.diagnostics
            &&& served.shared.inner.quiescent()
            &&& served.shared.inner.diagnostics.balanced()
            &&& served.shared.acks.len() == shared.acks.len()
            &&& forall|cell: int|
                0 <= cell < shared.acks.len() ==> observable(#[trigger] served.shared.acks, cell)
            &&& served_running(shared, answers, served)
            &&& served_terminal(shared, answers, now_ms, served)
        }),
{
    lemma_serve(shared, answers, now_ms);
    law_drained_is_exact(serve(shared, answers, now_ms).shared);
}

/// What service leaves behind, as far as it does not speak of the order.
spec fn served_out(shared: SharedView, served: ServiceView) -> bool {
    &&& served.settlement matches Some(settlement) && settlement.diagnostics
        == served.shared.inner.diagnostics
    &&& served.shared.sound()
    &&& served.shared.inner.quiescent()
    &&& acks_kept(shared.acks, served.shared.acks)
    &&& served.shared.acks.len() == shared.acks.len()
}

/// One required status is written and acknowledged.
proof fn lemma_required_turn(shared: SharedView, answer: Result<(), Seq<char>>, now_ms: u64)
    requires
        shared.sound(),
        WorkerView::Draining.holds(shared),
        shared.inner.work() is Required,
    ensures
        ({
            let begun = next_step(shared, now_ms);
            let returned = returned_step(begun.worker, begun.shared, answer, now_ms);
            let front = shared.inner.required[0];
            &&& begun.action == ActionView::Write(shared.inner.accepted_status())
            &&& returned.action is Continue
            &&& returned.shared.sound()
            &&& WorkerView::Draining.holds(returned.shared)
            &&& returned.shared.acks == shared.acks.update(
                front.cell as int,
                Some(bounded_result(answer)),
            )
            &&& 0 <= front.cell < shared.acks.len()
            &&& shared.acks[front.cell as int] is None
            &&& returned.shared.inner.required == shared.inner.required.drop_first()
            &&& returned.shared.inner.periodic == shared.inner.periodic
            &&& returned.shared.inner.terminal == shared.inner.terminal
            &&& returned.shared.inner.periodic_error == shared.inner.periodic_error
            &&& returned.shared.inner.fallback_error == shared.inner.fallback_error
        }),
{
    let begun = next_step(shared, now_ms);
    let front = shared.inner.required[0];
    law_next_step_keeps_sound(shared, now_ms);
    law_returned_step_keeps_sound(begun.worker, begun.shared, answer, now_ms);
    law_required_is_acknowledged(begun.shared, front.id, answer, now_ms);
    assert(shared.command_ack(front));
}

/// The pending snapshot is written.
proof fn lemma_periodic_turn(shared: SharedView, answer: Result<(), Seq<char>>, now_ms: u64)
    requires
        shared.sound(),
        WorkerView::Draining.holds(shared),
        shared.inner.work() is Periodic,
    ensures
        ({
            let begun = next_step(shared, now_ms);
            let returned = returned_step(begun.worker, begun.shared, answer, now_ms);
            &&& begun.action == ActionView::Write(
                shared.inner.periodic.unwrap().stamped(shared.inner.diagnostics.projected()),
            )
            &&& returned.action is Continue
            &&& returned.shared.sound()
            &&& WorkerView::Draining.holds(returned.shared)
            &&& returned.shared.acks == shared.acks
            &&& shared.inner.required.len() == 0
            &&& returned.shared.inner.required == shared.inner.required
            &&& shared.inner.periodic is Some
            &&& returned.shared.inner.periodic is None
            &&& returned.shared.inner.terminal == shared.inner.terminal
            &&& returned.shared.inner.periodic_error == failure_or(
                answer,
                shared.inner.periodic_error,
            )
            &&& returned.shared.inner.fallback_error == shared.inner.fallback_error
        }),
{
    let begun = next_step(shared, now_ms);
    law_next_step_keeps_sound(shared, now_ms);
    law_returned_step_keeps_sound(begun.worker, begun.shared, answer, now_ms);
    if shared.inner.required.len() > 0 {
        assert(shared.inner.required[0].is_queued());
    }
}

/// The terminal status is written, with its fallback where there is one.
proof fn lemma_terminal_turn(
    shared: SharedView,
    answers: Seq<Result<(), Seq<char>>>,
    now_ms: u64,
)
    requires
        shared.sound(),
        WorkerView::Draining.holds(shared),
        shared.inner.work() is Terminal,
        answers.len() > 1,
    ensures
        served_out(shared, serve(shared, answers, now_ms)),
        served_running(shared, answers, serve(shared, answers, now_ms)),
        served_terminal(shared, answers, now_ms, serve(shared, answers, now_ms)),
{
    let begun = next_step(shared, now_ms);
    law_terminal_is_last(shared, arbitrary());
    law_next_step_keeps_sound(shared, now_ms);
    law_returned_step_keeps_sound(begun.worker, begun.shared, answers[0], now_ms);
    law_terminal_document_balances(shared, now_ms);
    let returned = returned_step(begun.worker, begun.shared, answers[0], now_ms);
    assert(count_queued(shared.inner.required) == 0);
    if returned.action is Write {
        law_returned_step_keeps_sound(returned.worker, returned.shared, answers[1], now_ms);
        assert(returned.shared.inner.outstanding() == 1);
    }
}

proof fn lemma_serve(shared: SharedView, answers: Seq<Result<(), Seq<char>>>, now_ms: u64)
    requires
        shared.sound(),
        WorkerView::Draining.holds(shared),
        shared.inner.terminal is Some,
        answers.len() > waiting(shared.inner),
    ensures
        served_out(shared, serve(shared, answers, now_ms)),
        served_running(shared, answers, serve(shared, answers, now_ms)),
        served_terminal(shared, answers, now_ms, serve(shared, answers, now_ms)),
    decreases answers.len(),
{
    let begun = next_step(shared, now_ms);
    let returned = returned_step(begun.worker, begun.shared, answers[0], now_ms);
    let later = answers.drop_first();
    match shared.inner.work() {
        WorkView::Required(_, _) => {
            lemma_required_turn(shared, answers[0], now_ms);
            lemma_serve(returned.shared, later, now_ms);
            lemma_required_first(shared, answers, now_ms);
        },
        WorkView::Periodic(_) => {
            lemma_periodic_turn(shared, answers[0], now_ms);
            lemma_serve(returned.shared, later, now_ms);
            let rest = serve(returned.shared, later, now_ms);
            let served = serve(shared, answers, now_ms);
            let turns = waiting(returned.shared.inner) as int;
            assert(served.documents.len() == rest.documents.len() + 1);
            assert(served.documents[turns] == rest.documents[turns - 1]);
            assert(later[turns - 1] == answers[turns]);
            if rest.documents.len() > turns {
                assert(served.documents[turns + 1] == rest.documents[turns]);
                assert(later[turns] == answers[turns + 1]);
            }
        },
        WorkView::Terminal(_) => lemma_terminal_turn(shared, answers, now_ms),
        WorkView::Idle => {},
    }
}

/// Serving the front required status first and then the rest serves all in order.
proof fn lemma_required_first(
    shared: SharedView,
    answers: Seq<Result<(), Seq<char>>>,
    now_ms: u64,
)
    requires
        shared.sound(),
        WorkerView::Draining.holds(shared),
        shared.inner.terminal is Some,
        shared.inner.work() is Required,
        answers.len() > waiting(shared.inner),
        ({
            let begun = next_step(shared, now_ms);
            let returned = returned_step(begun.worker, begun.shared, answers[0], now_ms);
            let rest = serve(returned.shared, answers.drop_first(), now_ms);
            &&& served_out(returned.shared, rest)
            &&& served_running(returned.shared, answers.drop_first(), rest)
            &&& served_terminal(returned.shared, answers.drop_first(), now_ms, rest)
        }),
    ensures
        served_out(shared, serve(shared, answers, now_ms)),
        served_running(shared, answers, serve(shared, answers, now_ms)),
        served_terminal(shared, answers, now_ms, serve(shared, answers, now_ms)),
{
    let begun = next_step(shared, now_ms);
    let returned = returned_step(begun.worker, begun.shared, answers[0], now_ms);
    let later = answers.drop_first();
    let rest = serve(returned.shared, later, now_ms);
    let served = serve(shared, answers, now_ms);
    lemma_required_turn(shared, answers[0], now_ms);
    lemma_running_first(shared, answers, now_ms);
    let turns = waiting(returned.shared.inner) as int;
    let at = returned.shared.inner.required.len() as int;
    assert(served.documents[turns] == rest.documents[turns - 1]);
    assert(later[turns - 1] == answers[turns]);
    assert(later[at] == answers[at + 1]);
    if rest.documents.len() > turns {
        assert(served.documents[turns + 1] == rest.documents[turns]);
        assert(later[turns] == answers[turns + 1]);
    }
}

/// The front required status is written first and acknowledged, and what is served then
/// keeps its place behind it.
proof fn lemma_running_first(
    shared: SharedView,
    answers: Seq<Result<(), Seq<char>>>,
    now_ms: u64,
)
    requires
        shared.sound(),
        WorkerView::Draining.holds(shared),
        shared.inner.work() is Required,
        answers.len() > 0,
        ({
            let begun = next_step(shared, now_ms);
            let returned = returned_step(begun.worker, begun.shared, answers[0], now_ms);
            let rest = serve(returned.shared, answers.drop_first(), now_ms);
            &&& served_running(returned.shared, answers.drop_first(), rest)
            &&& acks_kept(returned.shared.acks, rest.shared.acks)
            &&& rest.shared.acks.len() == returned.shared.acks.len()
            &&& rest.documents.len() + 1 >= shared.inner.required.len() + one_if(
                shared.inner.periodic is Some,
            )
            &&& answers.len() >= shared.inner.required.len()
        }),
    ensures
        ({
            let begun = next_step(shared, now_ms);
            let returned = returned_step(begun.worker, begun.shared, answers[0], now_ms);
            let rest = serve(returned.shared, answers.drop_first(), now_ms);
            let served = serve(shared, answers, now_ms);
            &&& served_running(shared, answers, served)
            &&& acks_kept(shared.acks, served.shared.acks)
            &&& served.shared == rest.shared
            &&& served.settlement == rest.settlement
            &&& served.documents == seq![shared.inner.accepted_status()] + rest.documents
        }),
{
    let begun = next_step(shared, now_ms);
    let returned = returned_step(begun.worker, begun.shared, answers[0], now_ms);
    let later = answers.drop_first();
    let rest = serve(returned.shared, later, now_ms);
    let served = serve(shared, answers, now_ms);
    let required = shared.inner.required;
    let at = returned.shared.inner.required.len() as int;
    lemma_required_turn(shared, answers[0], now_ms);
    if shared.inner.periodic is Some {
        assert(served.documents[at + 1] == rest.documents[at]);
    }
    assert(served.shared.acks[required[0].cell as int]
        == returned.shared.acks[required[0].cell as int]);
    assert forall|i: int| 0 <= i < required.len() implies {
        &&& (#[trigger] served.documents[i]).stamped(TransportView::empty())
            == required[i].status.stamped(TransportView::empty())
        &&& served.shared.acks[required[i].cell as int] == Some(bounded_result(answers[i]))
    } by {
        if i > 0 {
            assert(rest.documents[i - 1] == served.documents[i]);
            assert(returned.shared.inner.required[i - 1] == required[i]);
            assert(later[i - 1] == answers[i]);
        }
    }
    assert forall|cell: int|
        0 <= cell < shared.acks.len() && shared.acks[cell] is Some implies
        #[trigger] served.shared.acks[cell] == shared.acks[cell] by {
        assert(returned.shared.acks[cell] == shared.acks[cell]);
    }
}

/// Whatever the store answers, and however many answers it gives before it never comes back,
/// the worker keeps the coordinator sound.
proof fn lemma_serve_sound(shared: SharedView, answers: Seq<Result<(), Seq<char>>>, now_ms: u64)
    requires
        shared.sound(),
        WorkerView::Draining.holds(shared),
    ensures
        serve(shared, answers, now_ms).shared.sound(),
    decreases answers.len(),
{
    let begun = next_step(shared, now_ms);
    law_next_step_keeps_sound(shared, now_ms);
    if begun.action is Write && answers.len() > 0 {
        let returned = returned_step(begun.worker, begun.shared, answers[0], now_ms);
        law_returned_step_keeps_sound(begun.worker, begun.shared, answers[0], now_ms);
        if returned.action is Continue {
            lemma_serve_sound(returned.shared, answers.drop_first(), now_ms);
        } else if returned.action is Write && answers.len() > 1 {
            law_returned_step_keeps_sound(returned.worker, returned.shared, answers[1], now_ms);
        }
    }
}

/// A live worker, of a coordinator that is not sealed, writes everything that waits and then
/// waits to be woken, whatever the store answers: the required statuses first and in order,
/// each acknowledged with exactly the answer to its own write, and then the newest snapshot.
/// It leaves nothing behind, every acknowledgement resolved, a balanced accounting, and the
/// coordinator as open as it was.
pub proof fn law_live_worker_writes_everything_and_waits(
    shared: SharedView,
    answers: Seq<Result<(), Seq<char>>>,
    now_ms: u64,
)
    requires
        shared.sound(),
        WorkerView::Draining.holds(shared),
        shared.inner.terminal is None,
        answers.len() >= waiting(shared.inner),
    ensures
        ({
            let served = serve(shared, answers, now_ms);
            &&& served_running(shared, answers, served)
            &&& served.documents.len() == waiting(shared.inner)
            &&& served.settlement is None
            &&& next_step(served.shared, now_ms).action is AwaitWake
            &&& served.shared.sound()
            &&& WorkerView::Draining.holds(served.shared)
            &&& served.shared.inner.quiescent()
            &&& served.shared.inner.diagnostics.balanced()
            &&& served.shared.inner.sealed == shared.inner.sealed
            &&& served.shared.acks.len() == shared.acks.len()
            &&& forall|cell: int|
                0 <= cell < shared.acks.len() ==> observable(#[trigger] served.shared.acks, cell)
        }),
{
    lemma_serve_live(shared, answers, now_ms);
    let served = serve(shared, answers, now_ms);
    law_worker_leaves_nothing_waiting(served.shared, now_ms);
    law_drained_is_exact(served.shared);
}

proof fn lemma_serve_live(shared: SharedView, answers: Seq<Result<(), Seq<char>>>, now_ms: u64)
    requires
        shared.sound(),
        WorkerView::Draining.holds(shared),
        shared.inner.terminal is None,
        answers.len() >= waiting(shared.inner),
    ensures
        ({
            let served = serve(shared, answers, now_ms);
            &&& served_running(shared, answers, served)
            &&& served.documents.len() == waiting(shared.inner)
            &&& served.settlement is None
            &&& served.shared.sound()
            &&& WorkerView::Draining.holds(served.shared)
            &&& served.shared.inner.terminal is None
            &&& waiting(served.shared.inner) == 0
            &&& served.shared.inner.sealed == shared.inner.sealed
            &&& acks_kept(shared.acks, served.shared.acks)
            &&& served.shared.acks.len() == shared.acks.len()
        }),
    decreases answers.len(),
{
    let begun = next_step(shared, now_ms);
    law_worker_leaves_nothing_waiting(shared, now_ms);
    if waiting(shared.inner) > 0 {
        let returned = returned_step(begun.worker, begun.shared, answers[0], now_ms);
        let later = answers.drop_first();
        match shared.inner.work() {
            WorkView::Required(_, _) => {
                lemma_required_turn(shared, answers[0], now_ms);
                lemma_serve_live(returned.shared, later, now_ms);
                lemma_running_first(shared, answers, now_ms);
            },
            WorkView::Periodic(_) => {
                lemma_periodic_turn(shared, answers[0], now_ms);
                lemma_serve_live(returned.shared, later, now_ms);
            },
            _ => {},
        }
    }
}

/// A required status submitted to a running coordinator, sealed or not, whatever the worker
/// is in the middle of before the terminal status: its submitter is acknowledged only by the
/// write of its own document, which reaches the store unchanged but for the accounting and
/// behind every earlier required one, and gets exactly what the store answered to it, its
/// failure bounded.
pub proof fn law_submitted_status_is_written_and_acknowledged(
    worker: WorkerView,
    shared: SharedView,
    status: StatusView,
    in_progress: Result<(), Seq<char>>,
    answers: Seq<Result<(), Seq<char>>>,
    now_ms: u64,
)
    requires
        shared.sound(),
        worker.holds(shared),
        worker is Draining || worker is Required || worker is Periodic,
        answers.len() > waiting(shared.inner) + 1,
    ensures
        ({
            let submitted = shared.enqueue_required(status);
            let cell = shared.acks.len() as int;
            let place = shared.inner.required.len() as int;
            // Where a write is under way, the store answers it first.
            let drained = if worker is Draining {
                submitted
            } else {
                returned_step(worker, submitted, in_progress, now_ms).shared
            };
            let served = serve(drained, answers, now_ms);
            &&& submitted.acks[cell] is None
            &&& drained.acks[cell] is None
            &&& served.documents[place].stamped(TransportView::empty()) == status.stamped(
                TransportView::empty(),
            )
            &&& served_running(drained, answers, served)
            &&& served.shared.acks[cell] == Some(bounded_result(answers[place]))
            &&& required_report(served.shared.acks[cell].unwrap()) == match answers[place] {
                Ok(()) => Ok(()),
                Err(error) => Err(ErrorView::primary(error)),
            }
        }),
{
    let submitted = shared.enqueue_required(status);
    let place = shared.inner.required.len() as int;
    let step = Step::SubmitRequired(status);
    law_step_keeps_sound(shared, step);
    law_write_in_progress_is_undisturbed(worker, shared, step);
    let drained = if worker is Draining {
        submitted
    } else {
        returned_step(worker, submitted, in_progress, now_ms).shared
    };
    if let WorkerView::Required(id) = worker {
        law_returned_step_keeps_sound(worker, submitted, in_progress, now_ms);
        law_required_is_acknowledged(submitted, id, in_progress, now_ms);
    } else if worker is Periodic {
        law_returned_step_keeps_sound(worker, submitted, in_progress, now_ms);
    }
    assert(drained.inner.required[place] == submitted.inner.required.last());
    if shared.inner.terminal is Some {
        lemma_serve(drained, answers, now_ms);
    } else {
        lemma_serve_live(drained, answers, now_ms);
    }
    let served = serve(drained, answers, now_ms);
    assert(served.documents[place].stamped(TransportView::empty())
        == drained.inner.required[place].status.stamped(TransportView::empty()));
    if let Err(error) = answers[place] {
        law_bounded_within_cap(error);
    }
}

/// Finishing is final, whatever the store does: answers everything, fails, or panics in the
/// middle of any write, which leaves its worker to reconcile. The settlement is balanced and
/// the coordinator quiescent and shut down; any number of later submissions add exactly
/// their number to the submitted and to the disconnected ones and change nothing else; and
/// nothing is left that could reach the store, so that a terminal document it wrote stays
/// the last one.
pub proof fn law_finish_is_final(
    shared: SharedView,
    terminal: TerminalView,
    answers: Seq<Result<(), Seq<char>>>,
    outcome: JoinView,
    late: Seq<Step>,
    now_ms: u64,
)
    requires
        shared.sound(),
        WorkerView::Draining.holds(shared),
        only_submissions(late),
    ensures
        ({
            let sealed = shared.with_inner(shared.inner.seal(terminal));
            let served = serve(sealed, answers, now_ms);
            let left = if served.settlement is Some {
                served.shared
            } else {
                served.shared.reconcile_abandoned()
            };
            let finished = left.finished();
            let after = run(finished, late);
            &&& finished.inner.quiescent()
            &&& left.settlement(outcome).diagnostics == finished.inner.diagnostics
            &&& left.settlement(outcome).diagnostics.balanced()
            &&& after == finished.with_inner(
                CoordinatorView {
                    diagnostics: TransportView {
                        submitted: finished.inner.diagnostics.submitted + late.len(),
                        disconnected: finished.inner.diagnostics.disconnected + late.len(),
                        ..finished.inner.diagnostics
                    },
                    ..finished.inner
                },
            )
            &&& after.inner.diagnostics.balanced()
            &&& after.inner.quiescent()
            &&& after.inner.shutdown
            &&& after.inner.work() is Idle
            &&& answers.len() > waiting(sealed.inner) ==> served.settlement is Some
                && served_terminal(sealed, answers, now_ms, served)
        }),
{
    let sealed = shared.with_inner(shared.inner.seal(terminal));
    law_step_keeps_sound(shared, Step::Seal(terminal));
    law_write_in_progress_is_undisturbed(WorkerView::Draining, shared, Step::Seal(terminal));
    let served = serve(sealed, answers, now_ms);
    lemma_serve_sound(sealed, answers, now_ms);
    if answers.len() > waiting(sealed.inner) {
        lemma_serve(sealed, answers, now_ms);
    }
    law_reconciled_is_exact(served.shared);
    let left = if served.settlement is Some {
        served.shared
    } else {
        served.shared.reconcile_abandoned()
    };
    law_finish_settles_everything(left, outcome);
    law_finished_coordinator_takes_nothing_more(left, late);
}

/// The terminal document says exactly what the terminal status says: its state, its start,
/// its counts, and its error, bounded; it carries the last periodic failure.
pub proof fn law_terminal_document_says_what_was_observed(shared: SharedView, now_ms: u64)
    requires
        shared.inner.work() is Terminal,
    ensures
        ({
            let terminal = shared.inner.terminal.unwrap();
            &&& next_step(shared, now_ms).worker == WorkerView::Terminal(terminal)
            &&& next_step(shared, now_ms).action matches ActionView::Write(document) && {
                &&& document.schema_version == 3
                &&& document.state == terminal.state
                &&& document.started_at_ms == terminal.started_at_ms
                &&& document.updated_at_ms == now_ms
                &&& document.bytes == terminal.summary.bytes
                &&& document.records == terminal.summary.records
                &&& document.dropped_console == terminal.summary.dropped_console
                &&& terminal.error is None ==> document.error is None
                &&& terminal.error matches Some(text) ==> document.error == Some(bounded(text))
                &&& shared.inner.periodic_error is None ==> document.periodic_error is None
                &&& shared.inner.periodic_error matches Some(text) ==> document.periodic_error
                    == Some(bounded(text))
                &&& document.transport.submitted == shared.inner.diagnostics.submitted + 1
                &&& document.transport.written == shared.inner.diagnostics.written + 1
                &&& document.transport.write_failures == shared.inner.diagnostics.write_failures
            }
        }),
{
}

/// A Complete status that could not be persisted is stood in for: the fallback document that
/// the worker writes next has the start and the counts of the Complete document, whatever
/// happened to the coordinator in between. It differs in its state, its cause, which names
/// the failure, and its accounting, which counts that failure and one more submission.
pub proof fn law_fallback_repeats_the_complete_document(
    shared: SharedView,
    meanwhile: SharedView,
    error: Seq<char>,
    began_ms: u64,
    now_ms: u64,
)
    requires
        shared.inner.work() is Terminal,
        shared.inner.terminal.unwrap().state == PumpState::Complete,
    ensures
        ({
            let begun = next_step(shared, began_ms);
            let returned = returned_step(begun.worker, meanwhile, Err(error), now_ms);
            &&& begun.action matches ActionView::Write(complete) && (
            returned.action matches ActionView::Write(fallback) && {
                &&& complete.state == PumpState::Complete
                &&& fallback.state == PumpState::Failed
                &&& fallback.schema_version == complete.schema_version
                &&& fallback.started_at_ms == complete.started_at_ms
                &&& fallback.bytes == complete.bytes
                &&& fallback.records == complete.records
                &&& fallback.dropped_console == complete.dropped_console
                &&& fallback.updated_at_ms == now_ms
                &&& fallback.error == Some(
                    bounded("complete status could not be persisted: "@ + bounded(error)),
                )
                &&& meanwhile.inner.periodic_error is None ==> fallback.periodic_error is None
                &&& meanwhile.inner.periodic_error matches Some(text) ==> fallback.periodic_error
                    == Some(bounded(text))
                &&& fallback.transport.submitted == meanwhile.inner.diagnostics.submitted + 1
                &&& fallback.transport.write_failures
                    == meanwhile.inner.diagnostics.write_failures + 1
                &&& fallback.transport.written == meanwhile.inner.diagnostics.written + 1
                &&& fallback.transport.disconnected == meanwhile.inner.diagnostics.disconnected
                &&& fallback.transport.last_error == Some(bounded(error))
            })
        }),
{
}

/// A snapshot and a required status reach the store as they were submitted, but for the
/// accounting, which counts their own write.
pub proof fn law_running_document_reaches_the_store_as_submitted(shared: SharedView, now_ms: u64)
    requires
        shared.inner.work() is Required || shared.inner.work() is Periodic,
    ensures
        next_step(shared, now_ms).action matches ActionView::Write(document) && {
            let submitted = if shared.inner.work() is Required {
                shared.inner.required[0].status
            } else {
                shared.inner.periodic.unwrap()
            };
            &&& document.schema_version == submitted.schema_version
            &&& document.state == submitted.state
            &&& document.started_at_ms == submitted.started_at_ms
            &&& document.updated_at_ms == submitted.updated_at_ms
            &&& document.bytes == submitted.bytes
            &&& document.records == submitted.records
            &&& document.dropped_console == submitted.dropped_console
            &&& document.error == submitted.error
            &&& document.periodic_error == submitted.periodic_error
            &&& document.transport.submitted == shared.inner.diagnostics.submitted
            &&& document.transport.written == shared.inner.diagnostics.written + 1
            &&& document.transport.write_failures == shared.inner.diagnostics.write_failures
            &&& document.transport.last_error == shared.inner.diagnostics.last_error
        },
{
}

/// Each write's result is counted once, for the write that was under way, and the worker goes
/// on: a snapshot's failure is the last periodic failure, and no failure of a running
/// document ends the worker.
pub proof fn law_snapshot_write_is_counted_as_such(
    shared: SharedView,
    error: Seq<char>,
    now_ms: u64,
)
    ensures
        ({
            let step = returned_step(WorkerView::Periodic, shared, Ok(()), now_ms);
            &&& step.action is Continue
            &&& step.worker is Draining
            &&& step.shared.acks == shared.acks
            &&& step.shared.inner.in_flight is None
            &&& step.shared.inner.diagnostics.written == shared.inner.diagnostics.written + 1
            &&& step.shared.inner.periodic_error == shared.inner.periodic_error
        }),
        ({
            let step = returned_step(WorkerView::Periodic, shared, Err(error), now_ms);
            &&& step.action is Continue
            &&& step.worker is Draining
            &&& step.shared.acks == shared.acks
            &&& step.shared.inner.in_flight is None
            &&& step.shared.inner.diagnostics.write_failures
                == shared.inner.diagnostics.write_failures + 1
            &&& step.shared.inner.periodic_error == Some(bounded(error))
            &&& step.shared.inner.fallback_error == shared.inner.fallback_error
            &&& step.shared.inner.settlement_error == shared.inner.settlement_error
        }),
{
}

/// What the worker settles with behind its terminal write: nothing but the last periodic
/// failure where it landed; the write's failure, bounded, where it did not and there is no
/// fallback; and behind a fallback the first failure, with the fallback's own beside it.
pub proof fn law_worker_settles_with_what_happened(
    shared: SharedView,
    terminal: TerminalView,
    error: Seq<char>,
    first: Seq<char>,
    now_ms: u64,
)
    ensures
        returned_step(
            WorkerView::Terminal(terminal),
            shared,
            Ok(()),
            now_ms,
        ).action matches ActionView::Exit(settlement) && {
            &&& settlement.settlement_error is None
            &&& settlement.fallback_error is None
            &&& settlement.worker_error is None
            &&& settlement.periodic_error == shared.inner.periodic_error
            &&& settlement.diagnostics.written == shared.inner.diagnostics.written + 1
            &&& settlement.diagnostics.submitted == shared.inner.diagnostics.submitted
        },
        terminal.state != PumpState::Complete ==> (returned_step(
            WorkerView::Terminal(terminal),
            shared,
            Err(error),
            now_ms,
        ).action matches ActionView::Exit(settlement) && {
            &&& settlement.settlement_error == Some(bounded(error))
            &&& settlement.fallback_error is None
            &&& settlement.worker_error is None
            &&& settlement.periodic_error == shared.inner.periodic_error
            &&& settlement.diagnostics.write_failures == shared.inner.diagnostics.write_failures + 1
            &&& settlement.diagnostics.submitted == shared.inner.diagnostics.submitted
        }),
        returned_step(
            WorkerView::Fallback(first),
            shared,
            Ok(()),
            now_ms,
        ).action matches ActionView::Exit(settlement) && {
            &&& settlement.settlement_error == Some(first)
            &&& settlement.fallback_error == shared.inner.fallback_error
            &&& settlement.worker_error is None
            &&& settlement.diagnostics.written == shared.inner.diagnostics.written + 1
        },
        returned_step(
            WorkerView::Fallback(first),
            shared,
            Err(error),
            now_ms,
        ).action matches ActionView::Exit(settlement) && {
            &&& settlement.settlement_error == Some(first)
            &&& settlement.fallback_error == Some(bounded(error))
            &&& settlement.worker_error is None
            &&& settlement.periodic_error == shared.inner.periodic_error
            &&& settlement.diagnostics.write_failures == shared.inner.diagnostics.write_failures + 1
        },
{
}

/// A worker that unwound settles with every failure already recorded, and names the panic as
/// its own; only a terminal write's failure is published from a write that returned.
pub proof fn law_unwound_worker_names_the_panic(
    inner: CoordinatorView,
    worker: WorkerView,
    fault: Option<Seq<char>>,
    result: Result<(), Seq<char>>,
)
    ensures
        unwound_settlement(inner).worker_error == Some(
            "status coordinator worker panicked while persisting a status"@,
        ),
        unwound_settlement(inner).settlement_error == inner.settlement_error,
        unwound_settlement(inner).fallback_error == inner.fallback_error,
        unwound_settlement(inner).periodic_error == inner.periodic_error,
        unwound_settlement(inner).diagnostics == inner.diagnostics,
        result is Ok || !(worker is Terminal) ==> returned_fault(worker, fault, result) == fault,
{
}
/// The worker and what it asks for are read as they stand.
pub proof fn law_worker_is_read_as_it_stands(worker: StatusWorker, action: WorkerAction)
    ensures
        worker.phase is Draining <==> worker@ is Draining,
        worker.phase is Periodic <==> worker@ is Periodic,
        worker.phase is Exited <==> worker@ is Exited,
        worker.phase matches WorkerPhase::Required(id) ==> worker@ == WorkerView::Required(
            id.0 as nat,
        ),
        worker.phase matches WorkerPhase::Terminal(terminal) ==> worker@ == WorkerView::Terminal(
            terminal@,
        ),
        worker.phase matches WorkerPhase::Fallback(error) ==> worker@ == WorkerView::Fallback(
            error@,
        ),
        action matches WorkerAction::Write(status) ==> action@ == ActionView::Write(status@),
        action matches WorkerAction::Exit(settlement) ==> action@ == ActionView::Exit(settlement@),
        action is AwaitWake <==> action@ is AwaitWake,
        action is Continue <==> action@ is Continue,
{
}
/// Behind a required write or a snapshot the worker always goes on to its next work, whatever
/// the store answered.
pub proof fn law_running_write_never_ends_the_worker(
    worker: WorkerView,
    shared: SharedView,
    result: Result<(), Seq<char>>,
    now_ms: u64,
)
    requires
        worker is Required || worker is Periodic,
    ensures
        returned_step(worker, shared, result, now_ms).action is Continue,
        returned_step(worker, shared, result, now_ms).worker is Draining,
{
}
} // verus!
