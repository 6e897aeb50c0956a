//! The status coordinator's shared state.
//!
//! One lock guards a `SharedStatusState`. Submitters, the single worker, and any
//! reconciler change it only through the operations here, each of which is one
//! lock-held transition or a composition of such transitions that may interleave with
//! others between its steps.

use std::collections::VecDeque;

use vstd::prelude::*;

use crate::ack::{observable, AckTable, RequiredAckResolver, RequiredAckWaiter};
use crate::coordinator_invariant::{
    deliver_retired, lemma_accept_wf, lemma_cleanup_active_wf, lemma_count_remove,
    lemma_deliver_retired_wf, lemma_enqueue_required_wf, lemma_initial_sound,
    lemma_prepare_active_wf,
    lemma_publish_observed_wf, lemma_reconcile_abandoned_wf, lemma_record_write_wf,
    lemma_remove_command_wf, lemma_resolve_queued_done, lemma_resolve_queued_step,
    lemma_retire_pending_periodic_wf, lemma_retire_pending_terminal_wf, lemma_retire_queued_wf,
    lemma_seal_wf, lemma_set_settlement_error_wf, lemma_settle_active_wf, lemma_shut_wf,
    lemma_submit_periodic_wf, lemma_take_periodic_wf, lemma_take_terminal_wf, remove_command,
};
use crate::coordinator_model::{
    all_retired, count_queued, one_if, ActiveView, CommandView, CoordinatorView, DeliveryView,
    JoinView, LifecycleView, PhaseView, SharedView, WorkView, WriteKind,
    ACCEPTED_WRITE_WORKER_UNWIND, QUEUED_REQUIRED_DISCONNECT, STATUS_WORKER_PANIC,
};
use crate::error::{outcome_of, ErrorView, StatusSettlement, TranscriptPumpError};
use crate::status::{
    PumpStatus, StatusTransportDiagnostics, StatusView, TerminalStatusSpec, TerminalView,
};
use crate::text::{bound_error, copy_result, result_of, text_of};

verus! {

/// What a submission to a shut-down coordinator is refused with.
pub const COORDINATOR_SHUT_DOWN: &'static str =
    "persist pump status: status coordinator already shut down";

/// A monotonic identity for one required status command, assigned when it is
/// submitted. It follows the command from the required FIFO into its active record or
/// into shared resolving ownership, so cleanup and reconciliation act on one exact
/// identity and never clear unrelated work.
#[derive(Debug, Clone, Copy, PartialEq, Eq, Structural)]
pub struct RequiredCommandId(pub u64);

/// The lifecycle of a never-accepted required command. It stays `Queued` in the single
/// shared required deque until authorized worker termination changes it in place to
/// `Resolving`; a retired command keeps its position, identity and resolver, and only
/// matching cleanup removes it once its one-shot is observable.
#[derive(Debug)]
pub enum QueuedLifecycle {
    Queued,
    /// Retired in place; its disconnected accounting was applied during retirement.
    Resolving { immutable_error: &'static str },
}

/// A required status command with its acknowledgement resolver and lifecycle.
#[derive(Debug)]
pub struct RequiredCommand {
    pub id: RequiredCommandId,
    pub status: PumpStatus,
    pub resolver: RequiredAckResolver,
    pub lifecycle: QueuedLifecycle,
}

/// A required status accepted for the worker: its id and the status to persist. Its
/// acknowledgement resolver already lives in the shared active record.
#[derive(Debug)]
pub struct AcceptedRequired {
    pub id: RequiredCommandId,
    pub status: PumpStatus,
}

/// The active phase of an accepted required write.
#[derive(Debug)]
pub enum ActivePhase {
    /// Accepted but the store has not returned. Only a caller holding
    /// `AbandonmentAuthority` may turn this into a bounded worker-unwind result.
    Pending,
    /// The store returned this exact result; the first transition after return.
    Observed(Result<(), String>),
    /// The immutable caller result is fixed and accounting is applied.
    Prepared { result: Result<(), String> },
}

/// The shared record for one accepted required write, owning its acknowledgement
/// resolver from the acceptance linearization point through matching cleanup.
#[derive(Debug)]
pub struct ActiveWrite {
    pub id: RequiredCommandId,
    pub resolver: RequiredAckResolver,
    pub phase: ActivePhase,
    /// Whether this write's success or failure has been applied to the diagnostics, so
    /// repeated reconciliation observes rather than re-applies it.
    pub accounting_applied: bool,
}

/// An owned proof that no live store frame can still return and no possible real
/// result remains unpublished. Only boundaries that establish that fact construct it:
/// the worker's own panic catch after the stack unwound, the worker observing a
/// disconnected wake outside any store call and committed to exit, or the coordinator
/// after the worker join completes. A reconciler without this proof leaves a `Pending`
/// write owned and unresolved.
#[derive(Debug)]
pub struct AbandonmentAuthority {
    _private: (),
}

impl AbandonmentAuthority {
    /// Construct the proof at a boundary that has established the worker can no longer
    /// publish a store result.
    pub fn assume_worker_abandoned() -> Self {
        AbandonmentAuthority { _private: () }
    }
}

/// What the worker does next, decided in one transition so required statuses drain
/// FIFO, the newest periodic drains before the terminal, and the terminal write is
/// always last.
#[derive(Debug)]
pub enum Work {
    Required(AcceptedRequired),
    Periodic(PumpStatus),
    Terminal(TerminalStatusSpec),
    Idle,
}

/// How the worker's join came out.
#[derive(Debug)]
pub enum JoinOutcome {
    /// The worker returned its settlement.
    Settled(StatusSettlement),
    /// The worker's thread panicked past its own catch.
    Panicked,
    /// The worker was joined before.
    AlreadyJoined,
}

/// The coordinator's slots, queue and counters.
#[derive(Debug)]
pub struct CoordinatorInner {
    /// The newest pending periodic snapshot; a replaced one is counted coalesced.
    pub periodic: Option<PumpStatus>,
    /// The single shared required deque. It owns every never-accepted command and its
    /// acknowledgement resolver from enqueue through acknowledgement observability.
    pub required: VecDeque<RequiredCommand>,
    /// The accepted required write the worker is currently persisting.
    pub active_required: Option<ActiveWrite>,
    /// The next required command identity to assign.
    pub next_command_id: u64,
    /// The terminal status, set once by finishing; the worker writes it last.
    pub terminal: Option<TerminalStatusSpec>,
    /// Exact accounting of every submission.
    pub diagnostics: StatusTransportDiagnostics,
    /// The category of a non-required write the worker is currently attempting. A
    /// still-set marker after an unwind means the store was reached, so reconciliation
    /// accounts the attempt as a write failure and not as disconnected.
    pub in_flight: Option<WriteKind>,
    /// The last best-effort periodic write failure.
    pub periodic_error: Option<String>,
    /// A terminal status write failure, recorded before any Failed fallback so a
    /// fallback panic cannot lose it.
    pub settlement_error: Option<String>,
    /// The Complete-to-Failed fallback write failure.
    pub fallback_error: Option<String>,
    /// Terminal sealing has begun; no further periodic snapshot is written.
    pub sealed: bool,
    /// The worker has shut down; further submissions are disconnected.
    pub shutdown: bool,
}

/// Everything the coordinator's threads share.
#[derive(Debug)]
pub struct SharedStatusState {
    pub inner: CoordinatorInner,
    pub acks: AckTable,
}

impl View for QueuedLifecycle {
    type V = LifecycleView;

    open spec fn view(&self) -> LifecycleView {
        match self {
            QueuedLifecycle::Queued => LifecycleView::Queued,
            QueuedLifecycle::Resolving { immutable_error } => LifecycleView::Resolving {
                immutable_error: immutable_error@,
            },
        }
    }
}

impl View for RequiredCommand {
    type V = CommandView;

    open spec fn view(&self) -> CommandView {
        CommandView {
            id: self.id.0 as nat,
            status: self.status@,
            cell: self.resolver.cell as nat,
            lifecycle: self.lifecycle@,
        }
    }
}

impl View for ActivePhase {
    type V = PhaseView;

    open spec fn view(&self) -> PhaseView {
        match self {
            ActivePhase::Pending => PhaseView::Pending,
            ActivePhase::Observed(result) => PhaseView::Observed(result_of(*result)),
            ActivePhase::Prepared { result } => PhaseView::Prepared(result_of(*result)),
        }
    }
}

impl View for ActiveWrite {
    type V = ActiveView;

    open spec fn view(&self) -> ActiveView {
        ActiveView {
            id: self.id.0 as nat,
            cell: self.resolver.cell as nat,
            phase: self.phase@,
            accounting_applied: self.accounting_applied,
        }
    }
}

impl View for Work {
    type V = WorkView;

    open spec fn view(&self) -> WorkView {
        match self {
            Work::Required(accepted) => WorkView::Required(
                accepted.id.0 as nat,
                accepted.status@,
            ),
            Work::Periodic(status) => WorkView::Periodic(status@),
            Work::Terminal(terminal) => WorkView::Terminal(terminal@),
            Work::Idle => WorkView::Idle,
        }
    }
}

impl View for JoinOutcome {
    type V = JoinView;

    open spec fn view(&self) -> JoinView {
        match self {
            JoinOutcome::Settled(settlement) => JoinView::Settled(settlement@),
            JoinOutcome::Panicked => JoinView::Panicked,
            JoinOutcome::AlreadyJoined => JoinView::AlreadyJoined,
        }
    }
}

pub open spec fn status_of(status: Option<PumpStatus>) -> Option<StatusView> {
    match status {
        Some(document) => Some(document@),
        None => None,
    }
}

pub open spec fn terminal_of(terminal: Option<TerminalStatusSpec>) -> Option<TerminalView> {
    match terminal {
        Some(partial) => Some(partial@),
        None => None,
    }
}

pub open spec fn active_of(active: Option<ActiveWrite>) -> Option<ActiveView> {
    match active {
        Some(record) => Some(record@),
        None => None,
    }
}

pub open spec fn delivery_of(
    prepared: Option<(RequiredCommandId, RequiredAckResolver, Result<(), String>)>,
) -> Option<DeliveryView> {
    match prepared {
        Some((id, resolver, result)) => Some(
            DeliveryView {
                id: id.0 as nat,
                cell: resolver.cell as nat,
                result: result_of(result),
            },
        ),
        None => None,
    }
}

pub open spec fn commands_of(required: Seq<RequiredCommand>) -> Seq<CommandView> {
    required.map_values(|command: RequiredCommand| command@)
}

impl View for CoordinatorInner {
    type V = CoordinatorView;

    open spec fn view(&self) -> CoordinatorView {
        CoordinatorView {
            periodic: status_of(self.periodic),
            required: commands_of(self.required@),
            active: active_of(self.active_required),
            next_command_id: self.next_command_id as nat,
            terminal: terminal_of(self.terminal),
            diagnostics: self.diagnostics@,
            in_flight: self.in_flight,
            periodic_error: text_of(self.periodic_error),
            settlement_error: text_of(self.settlement_error),
            fallback_error: text_of(self.fallback_error),
            sealed: self.sealed,
            shutdown: self.shutdown,
        }
    }
}

impl View for SharedStatusState {
    type V = SharedView;

    open spec fn view(&self) -> SharedView {
        SharedView { inner: self.inner@, acks: self.acks@ }
    }
}

impl CoordinatorInner {
    /// The initial coordinator state: nothing pending, nothing accounted, not yet
    /// sealed or shut down.
    pub fn new() -> (inner: Self)
        ensures
            inner@ == CoordinatorView::initial(),
    {
        let inner = CoordinatorInner {
            periodic: None,
            required: VecDeque::new(),
            active_required: None,
            next_command_id: 0,
            terminal: None,
            diagnostics: StatusTransportDiagnostics::default(),
            in_flight: None,
            periodic_error: None,
            settlement_error: None,
            fallback_error: None,
            sealed: false,
            shutdown: false,
        };
        assert(inner@.required =~= Seq::empty());
        inner
    }
}

impl SharedStatusState {
    pub fn new() -> (shared: Self)
        ensures
            shared@ == SharedView::initial(),
            shared@.sound(),
            shared@.drained(),
    {
        proof {
            lemma_initial_sound();
        }
        SharedStatusState { inner: CoordinatorInner::new(), acks: AckTable::new() }
    }

    /// Enqueue a required status behind every earlier one and return the submitter's
    /// waiter, or a typed shutdown error accounted as disconnected.
    pub fn enqueue_required(&mut self, status: PumpStatus) -> (waiter: Result<
        RequiredAckWaiter,
        TranscriptPumpError,
    >)
        requires
            old(self)@.wf(),
            old(self)@.inner.diagnostics.submitted < u64::MAX,
        ensures
            final(self)@ == old(self)@.enqueue_required(status@),
            final(self)@.wf(),
            old(self)@.sound() ==> final(self)@.sound(),
            match waiter {
                Ok(ack) => !old(self)@.inner.shutdown && ack.cell == old(self)@.acks.len(),
                Err(error) => old(self)@.inner.shutdown && error@ == ErrorView::primary(
                    COORDINATOR_SHUT_DOWN@,
                ),
            },
    {
        proof {
            lemma_enqueue_required_wf(self@, status@, 0);
        }
        self.inner.diagnostics.submitted = self.inner.diagnostics.submitted + 1;
        if self.inner.shutdown {
            self.inner.diagnostics.disconnected = self.inner.diagnostics.disconnected + 1;
            return Err(TranscriptPumpError::new(COORDINATOR_SHUT_DOWN));
        }
        let (resolver, waiter) = self.acks.new_ack();
        let id = RequiredCommandId(self.inner.next_command_id);
        self.inner.next_command_id = self.inner.next_command_id + 1;
        let command = RequiredCommand {
            id,
            status,
            resolver,
            lifecycle: QueuedLifecycle::Queued,
        };
        self.inner.required.push_back(command);
        assert(self@.inner.required =~= old(self)@.inner.required.push(command@));
        Ok(waiter)
    }

    /// Submit a best-effort periodic snapshot. A newer snapshot replaces an older
    /// pending one (counted coalesced), once terminal sealing has begun it is dropped,
    /// and after shutdown it is disconnected. Tells whether the worker is to be woken:
    /// exactly when the snapshot now waits for it.
    pub fn submit_periodic(&mut self, status: PumpStatus) -> (wake: bool)
        requires
            old(self)@.wf(),
            old(self)@.inner.diagnostics.submitted < u64::MAX,
        ensures
            final(self)@ == old(self)@.with_inner(old(self)@.inner.submit_periodic(status@)),
            final(self)@.wf(),
            old(self)@.sound() ==> final(self)@.sound(),
            wake == (!old(self)@.inner.shutdown && !old(self)@.inner.sealed),
    {
        proof {
            lemma_submit_periodic_wf(self@, status@, 0);
        }
        self.inner.diagnostics.submitted = self.inner.diagnostics.submitted + 1;
        if self.inner.shutdown {
            self.inner.diagnostics.disconnected = self.inner.diagnostics.disconnected + 1;
            return false;
        }
        if self.inner.sealed {
            self.inner.diagnostics.dropped = self.inner.diagnostics.dropped + 1;
            return false;
        }
        if self.inner.periodic.is_some() {
            self.inner.diagnostics.coalesced = self.inner.diagnostics.coalesced + 1;
        }
        self.inner.periodic = Some(status);
        true
    }

    /// Atomically remove the next queued required command and install its
    /// acknowledgement resolver as a pending active record, returning the status to
    /// persist with its own write projected into the transport accounting. Refused when
    /// a write is already active, after shutdown, or when no queued command is in front.
    pub fn accept_next_required(&mut self) -> (accepted: Option<AcceptedRequired>)
        requires
            old(self)@.wf(),
        ensures
            final(self)@ == old(self)@.with_inner(old(self)@.inner.accept()),
            final(self)@.wf(),
            old(self)@.sound() ==> final(self)@.sound(),
            match accepted {
                Some(taken) => {
                    &&& old(self)@.inner.can_accept()
                    &&& taken.id.0 == old(self)@.inner.required[0].id
                    &&& taken.status@ == old(self)@.inner.accepted_status()
                },
                None => !old(self)@.inner.can_accept(),
            },
    {
        if self.inner.active_required.is_some() || self.inner.shutdown
            || self.inner.required.len() == 0 {
            return None;
        }
        match self.inner.required[0].lifecycle {
            QueuedLifecycle::Queued => {},
            QueuedLifecycle::Resolving { .. } => {
                return None;
            },
        }
        proof {
            lemma_accept_wf(self@, 0);
            lemma_count_front(self@.inner.required);
        }
        match self.inner.required.pop_front() {
            Some(command) => {
                let RequiredCommand { id, status, resolver, lifecycle: _ } = command;
                self.inner.active_required = Some(
                    ActiveWrite {
                        id,
                        resolver,
                        phase: ActivePhase::Pending,
                        accounting_applied: false,
                    },
                );
                let mut status = status;
                status.transport = self.inner.diagnostics.projected();
                assert(self@.inner.required =~= old(self)@.inner.required.drop_first());
                Some(AcceptedRequired { id, status })
            },
            None => None,
        }
    }

    /// Take the worker's next work.
    pub fn next_work(&mut self) -> (work: Work)
        requires
            old(self)@.wf(),
        ensures
            work@ == old(self)@.inner.work(),
            final(self)@ == old(self)@.with_inner(old(self)@.inner.take_work()),
            final(self)@.wf_with(one_if(work is Periodic)),
            old(self)@.sound() ==> final(self)@.sound_with(one_if(work is Periodic)),
    {
        if let Some(accepted) = self.accept_next_required() {
            return Work::Required(accepted);
        }
        proof {
            lemma_take_periodic_wf(self@, 0);
            lemma_take_terminal_wf(self@, 0);
        }
        // The newest periodic drains before the terminal, so no Running write can
        // follow the terminal state.
        if let Some(status) = self.inner.periodic.take() {
            return Work::Periodic(status);
        }
        if let Some(terminal) = self.inner.terminal.take() {
            return Work::Terminal(terminal);
        }
        Work::Idle
    }

    /// Publish the store's returned result into the matching active record. This is the
    /// first transition after the store returns, so a later unwind reproduces the exact
    /// caller and ledger result.
    pub fn publish_observed(&mut self, id: RequiredCommandId, result: Result<(), String>)
        ensures
            final(self)@ == old(self)@.with_inner(
                old(self)@.inner.publish_observed(id.0 as nat, result_of(result)),
            ),
            old(self)@.wf() ==> final(self)@.wf(),
            old(self)@.sound() && (old(self)@.inner.active matches Some(active) ==> (active.id
                == id.0 ==> active.phase is Pending)) ==> final(self)@.sound(),
    {
        proof {
            if self@.wf() {
                lemma_publish_observed_wf(self@, id.0 as nat, result_of(result), 0);
            }
        }
        if let Some(active) = self.inner.active_required.take() {
            if active.id == id {
                self.inner.active_required = Some(
                    ActiveWrite {
                        id: active.id,
                        resolver: active.resolver,
                        phase: ActivePhase::Observed(result),
                        accounting_applied: active.accounting_applied,
                    },
                );
            } else {
                self.inner.active_required = Some(active);
            }
        }
    }

    /// Count a write's bounded outcome in the diagnostics.
    fn account(&mut self, result: &Result<(), String>)
        requires
            old(self).inner.diagnostics@.settled() < u64::MAX,
        ensures
            final(self)@ == old(self)@.with_inner(
                CoordinatorView {
                    diagnostics: old(self)@.inner.diagnostics.record(result_of(*result)),
                    ..old(self)@.inner
                },
            ),
    {
        match result {
            Ok(()) => {
                self.inner.diagnostics.written = self.inner.diagnostics.written + 1;
            },
            Err(err) => {
                self.inner.diagnostics.write_failures = self.inner.diagnostics.write_failures + 1;
                self.inner.diagnostics.last_error = Some(err.clone());
            },
        }
    }

    /// Prepare the active record for resolution: derive the caller result from its own
    /// stored truth, apply its accounting exactly once, fix it, and return its id, its
    /// resolver and the result to resolve. Returns `None` when there is no active
    /// record, or when the store has not returned and no `authority` proves the worker
    /// abandoned it.
    pub fn prepare_active(&mut self, authority: Option<&AbandonmentAuthority>) -> (prepared: Option<
        (RequiredCommandId, RequiredAckResolver, Result<(), String>),
    >)
        requires
            old(self)@.wf(),
        ensures
            final(self)@ == old(self)@.with_inner(
                old(self)@.inner.prepare_active(authority is Some),
            ),
            delivery_of(prepared) == old(self)@.inner.due(authority is Some),
            final(self)@.wf(),
            old(self)@.sound() ==> final(self)@.sound(),
    {
        proof {
            lemma_prepare_active_wf(self@, authority is Some, 0);
        }
        let (id, resolver, result, needs_accounting) = match &self.inner.active_required {
            None => {
                return None;
            },
            Some(active) => {
                let result: Result<(), String> = match &active.phase {
                    ActivePhase::Pending => {
                        // Synthesizing an unwind requires explicit abandonment authority;
                        // without it the live worker's write stays owned.
                        if authority.is_none() {
                            return None;
                        }
                        Err(bound_error(ACCEPTED_WRITE_WORKER_UNWIND))
                    },
                    ActivePhase::Observed(observed) => match observed {
                        Ok(()) => Ok(()),
                        Err(err) => Err(bound_error(err.as_str())),
                    },
                    ActivePhase::Prepared { result } => copy_result(result),
                };
                (active.id, active.resolver, result, !active.accounting_applied)
            },
        };
        if needs_accounting {
            self.account(&result);
        }
        self.inner.active_required = Some(
            ActiveWrite {
                id,
                resolver,
                phase: ActivePhase::Prepared { result: copy_result(&result) },
                accounting_applied: true,
            },
        );
        Some((id, resolver, result))
    }

    /// Remove the active record for `id` once its one-shot result is observable.
    pub fn cleanup_active_if_observable(&mut self, id: RequiredCommandId, is_observable: bool)
        ensures
            final(self)@ == if is_observable {
                old(self)@.with_inner(old(self)@.inner.cleanup_active(id.0 as nat))
            } else {
                old(self)@
            },
            old(self)@.wf() && (is_observable ==> observable(old(self)@.acks, id.0 as int) && (
            old(self)@.inner.active matches Some(active) ==> (active.id == id.0
                ==> active.accounting_applied))) ==> final(self)@.wf() && (old(self)@.sound()
                ==> final(self)@.sound()),
    {
        proof {
            if self@.wf() && observable(self@.acks, id.0 as int) && (
            self@.inner.active matches Some(active) ==> (active.id == id.0
                ==> active.accounting_applied)) {
                lemma_cleanup_active_wf(self@, id.0 as nat, 0);
            }
        }
        if !is_observable {
            return;
        }
        let matching = match &self.inner.active_required {
            Some(active) => active.id == id,
            None => false,
        };
        if matching {
            self.inner.active_required = None;
        }
    }

    /// Settle the active required write end to end: prepare it, resolve its one-shot,
    /// then remove the record once the result is observable. Without effect when there
    /// is no active record or when a pending one has no abandonment authority.
    pub fn settle_active(&mut self, authority: Option<&AbandonmentAuthority>)
        requires
            old(self)@.wf(),
        ensures
            final(self)@ == old(self)@.settle_active(authority is Some),
            final(self)@.wf(),
            old(self)@.sound() ==> final(self)@.sound(),
    {
        proof {
            lemma_settle_active_wf(self@, authority is Some, 0);
        }
        if let Some((id, resolver, result)) = self.prepare_active(authority) {
            resolver.resolve_once(&mut self.acks, result);
            let is_observable = resolver.is_observable(&self.acks);
            self.cleanup_active_if_observable(id, is_observable);
        }
    }

    /// Retire every never-accepted queued required command in place, and count each as
    /// disconnected. An already retired command is left as it is.
    pub fn retire_queued(&mut self, _authority: &AbandonmentAuthority)
        requires
            old(self)@.wf(),
        ensures
            final(self)@ == old(self)@.with_inner(old(self)@.inner.retire_queued()),
            final(self)@.wf(),
            old(self)@.sound() ==> final(self)@.sound(),
    {
        let ghost before = self@;
        let ghost commands = self.inner.required@;
        proof {
            lemma_retire_queued_wf(self@, 0);
        }
        self.inner.shutdown = true;
        let len: usize = self.inner.required.len();
        let mut queued_count: u64 = 0;
        let mut seen: usize = 0;
        assert(before.inner.required.take(0) =~= Seq::empty());
        while seen < len
            invariant
                0 <= seen <= len,
                len == commands.len(),
                before.inner.required == commands_of(commands),
                self.inner.required@ == commands.skip(seen as int) + self.inner.required@.skip(
                    len - seen,
                ),
                self.inner.required@.len() == len,
                forall|k: int|
                    len - seen <= k < len ==> (#[trigger] self.inner.required@[k])@
                        == commands[k - (len - seen)]@.retired(),
                self@ == before.with_inner(
                    CoordinatorView {
                        shutdown: true,
                        required: self@.inner.required,
                        ..before.inner
                    },
                ),
                queued_count == count_queued(before.inner.required.take(seen as int)),
                queued_count <= seen,
                before.inner.diagnostics.disconnected + count_queued(before.inner.required)
                    <= u64::MAX,
                len <= u64::MAX,
            decreases len - seen,
        {
            let ghost turn = self.inner.required@;
            proof {
                assert(turn[0] == commands[seen as int]);
                let upto = before.inner.required.take(seen as int + 1);
                assert(upto.drop_last() =~= before.inner.required.take(seen as int));
                assert(upto.last() == commands[seen as int]@);
            }
            if let Some(command) = self.inner.required.pop_front() {
                let RequiredCommand { id, status, resolver, lifecycle } = command;
                let lifecycle = match lifecycle {
                    QueuedLifecycle::Queued => {
                        queued_count = queued_count + 1;
                        QueuedLifecycle::Resolving { immutable_error: QUEUED_REQUIRED_DISCONNECT }
                    },
                    QueuedLifecycle::Resolving { immutable_error } => QueuedLifecycle::Resolving {
                        immutable_error,
                    },
                };
                let retired = RequiredCommand { id, status, resolver, lifecycle };
                self.inner.required.push_back(retired);
                proof {
                    let turned = self.inner.required@;
                    assert(turned =~= turn.drop_first().push(retired));
                    assert(retired@ == commands[seen as int]@.retired());
                    assert forall|k: int| len - (seen + 1) <= k < len implies (
                    #[trigger] turned[k])@ == commands[k - (len - (seen + 1))]@.retired() by {
                        if k < len - 1 {
                            assert(turned[k] == turn[k + 1]);
                        }
                    }
                    assert(turned =~= commands.skip(seen + 1) + turned.skip(len - (seen + 1)));
                }
            }
            seen = seen + 1;
        }
        proof {
            assert(before.inner.required.take(len as int) =~= before.inner.required);
            assert(self@.inner.required =~= all_retired(before.inner.required));
        }
        self.inner.diagnostics.disconnected = self.inner.diagnostics.disconnected + queued_count;
    }

    /// The first retired command of the deque: its identity, resolver and error.
    pub fn select_resolving(&self) -> (selected: Option<
        (RequiredCommandId, RequiredAckResolver, &'static str),
    >)
        ensures
            match selected {
                Some(chosen) => exists|i: int|
                    {
                        &&& 0 <= i < self@.inner.required.len()
                        &&& forall|k: int|
                            0 <= k < i ==> (#[trigger] self@.inner.required[k]).is_queued()
                        &&& #[trigger] self@.inner.required[i] == (CommandView {
                            id: chosen.0.0 as nat,
                            cell: chosen.1.cell as nat,
                            lifecycle: LifecycleView::Resolving { immutable_error: chosen.2@ },
                            ..self@.inner.required[i]
                        })
                    },
                None => forall|i: int|
                    0 <= i < self@.inner.required.len() ==> (
                    #[trigger] self@.inner.required[i]).is_queued(),
            },
    {
        let mut i: usize = 0;
        while i < self.inner.required.len()
            invariant
                0 <= i <= self.inner.required@.len(),
                forall|k: int| 0 <= k < i ==> (#[trigger] self@.inner.required[k]).is_queued(),
            decreases self.inner.required@.len() - i,
        {
            let entry = &self.inner.required[i];
            assert(self@.inner.required[i as int] == entry@);
            if let QueuedLifecycle::Resolving { immutable_error } = &entry.lifecycle {
                return Some((entry.id, entry.resolver, *immutable_error));
            }
            i = i + 1;
        }
        None
    }

    /// Remove the command `id` if it is retired and its one-shot is observable.
    pub fn cleanup_resolving_if_observable(&mut self, id: RequiredCommandId, is_observable: bool)
        ensures
            !is_observable ==> final(self)@ == old(self)@,
            is_observable ==> match first_matching(old(self)@.inner.required, id.0 as nat) {
                Some(i) => final(self)@ == remove_command(old(self)@, i as int),
                None => final(self)@ == old(self)@,
            },
            old(self)@.wf() && (is_observable ==> observable(old(self)@.acks, id.0 as int))
                ==> final(self)@.wf() && (old(self)@.sound() ==> final(self)@.sound()),
    {
        if !is_observable {
            return;
        }
        let ghost before = self@;
        let mut i: usize = 0;
        while i < self.inner.required.len()
            invariant
                self@ == before,
                before == old(self)@,
                is_observable,
                0 <= i <= self.inner.required@.len(),
                forall|k: int|
                    0 <= k < i ==> !is_resolving(#[trigger] self@.inner.required[k], id.0 as nat),
            decreases self.inner.required@.len() - i,
        {
            let entry = &self.inner.required[i];
            assert(self@.inner.required[i as int] == entry@);
            let resolving = match entry.lifecycle {
                QueuedLifecycle::Queued => false,
                QueuedLifecycle::Resolving { .. } => true,
            };
            if entry.id == id && resolving {
                proof {
                    lemma_first_matching(before.inner.required, id.0 as nat, i as int);
                    if before.wf() && observable(before.acks, id.0 as int) {
                        lemma_remove_command_wf(before, i as int, 0);
                    }
                }
                let _ = self.inner.required.remove(i);
                assert(self@.inner.required =~= before.inner.required.remove(i as int));
                return;
            }
            i = i + 1;
        }
        proof {
            lemma_first_matching(before.inner.required, id.0 as nat, i as int);
        }
    }

    /// Resolve the retired commands one identity at a time, front first: each is
    /// delivered its own bounded error and leaves the deque once that is observable.
    pub fn resolve_queued(&mut self)
        requires
            old(self)@.wf(),
        ensures
            final(self)@ == old(self)@.resolve_queued(),
            final(self)@.wf(),
            old(self)@.sound() ==> final(self)@.sound(),
    {
        loop
            invariant
                self@.wf(),
                old(self)@.sound() ==> self@.sound(),
                self@.resolve_queued() == old(self)@.resolve_queued(),
            ensures
                self@.wf(),
                old(self)@.sound() ==> self@.sound(),
                self@ == old(self)@.resolve_queued(),
            decreases self.inner.required@.len(),
        {
            let ghost before = self@;
            match self.select_resolving() {
                None => {
                    proof {
                        lemma_resolve_queued_done(self@);
                    }
                    break;
                },
                Some((id, resolver, immutable_error)) => {
                    let ghost i = choose|i: int|
                        {
                            &&& 0 <= i < before.inner.required.len()
                            &&& forall|k: int|
                                0 <= k < i ==> (#[trigger] before.inner.required[k]).is_queued()
                            &&& #[trigger] before.inner.required[i] == (CommandView {
                                id: id.0 as nat,
                                cell: resolver.cell as nat,
                                lifecycle: LifecycleView::Resolving {
                                    immutable_error: immutable_error@,
                                },
                                ..before.inner.required[i]
                            })
                        };
                    let result: Result<(), String> = Err(bound_error(immutable_error));
                    resolver.resolve_once(&mut self.acks, result);
                    let is_observable = resolver.is_observable(&self.acks);
                    proof {
                        assert(self@ == deliver_retired(before, i));
                        lemma_deliver_retired_wf(before, i, 0);
                        lemma_resolve_queued_step(before, i);
                        lemma_first_matching(before.inner.required, id.0 as nat, i);
                    }
                    self.cleanup_resolving_if_observable(id, is_observable);
                },
            }
        }
    }

    /// Mark that the worker is about to attempt a non-required write of `kind`.
    pub fn begin_write(&mut self, kind: WriteKind)
        ensures
            final(self)@ == old(self)@.with_inner(old(self)@.inner.begin_write(kind)),
    {
        self.inner.in_flight = Some(kind);
    }

    /// Record the result of the write of `kind` that was under way.
    pub fn record_write(&mut self, result: &Result<(), String>, kind: WriteKind)
        requires
            old(self)@.wf(),
            old(self)@.inner.in_flight is Some,
        ensures
            final(self)@ == old(self)@.with_inner(
                old(self)@.inner.record_write(result_of(*result), kind),
            ),
            final(self)@.wf(),
            old(self)@.sound() ==> final(self)@.sound(),
    {
        proof {
            lemma_record_write_wf(self@, result_of(*result), kind, 0);
        }
        self.inner.in_flight = None;
        let outcome = match result {
            Ok(()) => Ok(()),
            Err(err) => {
                let bounded_err = bound_error(err.as_str());
                match kind {
                    WriteKind::Periodic => {
                        self.inner.periodic_error = Some(bounded_err.clone());
                    },
                    WriteKind::Fallback => {
                        self.inner.fallback_error = Some(bounded_err.clone());
                    },
                    WriteKind::Terminal => {},
                }
                Err(bounded_err)
            },
        };
        self.account(&outcome);
    }

    /// Record a terminal write failure before any Failed fallback is attempted, so a
    /// fallback that itself panics still surfaces it.
    pub fn set_settlement_error(&mut self, err: &str)
        ensures
            final(self)@ == old(self)@.with_inner(old(self)@.inner.set_settlement_error(err@)),
            old(self)@.wf() ==> final(self)@.wf(),
            old(self)@.sound() ==> final(self)@.sound(),
    {
        proof {
            if self@.wf() {
                lemma_set_settlement_error_wf(self@, err@, 0);
            }
        }
        self.inner.settlement_error = Some(bound_error(err));
    }

    /// The transport accounting as it stands.
    pub fn diagnostics(&self) -> (diagnostics: StatusTransportDiagnostics)
        ensures
            diagnostics@ == self@.inner.diagnostics,
    {
        self.inner.diagnostics.clone()
    }

    /// The transport accounting with the write under way projected as written.
    pub fn projected_write_diagnostics(&self) -> (projected: StatusTransportDiagnostics)
        requires
            self@.inner.diagnostics.written < u64::MAX,
        ensures
            projected@ == self@.inner.diagnostics.projected(),
    {
        self.inner.diagnostics.projected()
    }

    pub fn periodic_error(&self) -> (error: Option<String>)
        ensures
            text_of(error) == self@.inner.periodic_error,
    {
        self.inner.periodic_error.clone()
    }

    pub fn fallback_error(&self) -> (error: Option<String>)
        ensures
            text_of(error) == self@.inner.fallback_error,
    {
        self.inner.fallback_error.clone()
    }

    /// Whether nothing is pending: no snapshot, no required command, no active write,
    /// no unwritten terminal, and no write under way.
    pub fn is_quiescent(&self) -> (quiescent: bool)
        ensures
            quiescent == self@.inner.quiescent(),
    {
        self.inner.periodic.is_none() && self.inner.required.len() == 0
            && self.inner.active_required.is_none() && self.inner.terminal.is_none()
            && self.inner.in_flight.is_none()
    }

    /// Account a non-required write that was under way when the worker unwound as a
    /// write failure carrying the panic as its error, never as disconnected.
    pub fn account_in_flight_unwind(&mut self)
        requires
            old(self)@.wf(),
        ensures
            final(self)@ == old(self)@.with_inner(old(self)@.inner.account_in_flight_unwind()),
            final(self)@.wf(),
            old(self)@.sound() ==> final(self)@.sound(),
    {
        if let Some(kind) = self.inner.in_flight {
            let unwound: Result<(), String> = Err(STATUS_WORKER_PANIC.to_string());
            self.record_write(&unwound, kind);
        }
    }

    /// Account and clear a pending snapshot the worker never wrote as disconnected.
    pub fn retire_pending_periodic(&mut self)
        requires
            old(self)@.wf(),
        ensures
            final(self)@ == old(self)@.with_inner(old(self)@.inner.retire_pending_periodic()),
            final(self)@.wf(),
            old(self)@.sound() ==> final(self)@.sound(),
    {
        proof {
            lemma_retire_pending_periodic_wf(self@, 0);
        }
        if self.inner.periodic.is_some() {
            self.inner.periodic = None;
            self.inner.diagnostics.disconnected = self.inner.diagnostics.disconnected + 1;
        }
    }

    /// Reconcile all work the worker abandoned when it disconnected or panicked. Marks
    /// shutdown first so no new command can enter the deque, then accounts a write that
    /// was under way, settles the active required write from its own stored truth,
    /// retires and resolves every queued command, and clears any pending snapshot.
    pub fn reconcile_abandoned(&mut self, authority: &AbandonmentAuthority)
        requires
            old(self)@.wf(),
        ensures
            final(self)@ == old(self)@.reconcile_abandoned(),
            final(self)@.wf(),
            old(self)@.sound() ==> final(self)@.sound(),
            final(self)@.drained(),
            final(self)@.inner.shutdown,
    {
        proof {
            lemma_reconcile_abandoned_wf(self@, 0);
            lemma_shut_wf(self@, 0);
        }
        self.inner.shutdown = true;
        self.account_in_flight_unwind();
        self.settle_active(Some(authority));
        self.retire_queued(authority);
        self.resolve_queued();
        self.retire_pending_periodic();
    }

    /// Seal the coordinator and hand the worker its terminal status.
    pub fn begin_finish(&mut self, terminal: TerminalStatusSpec)
        ensures
            final(self)@ == old(self)@.with_inner(old(self)@.inner.seal(terminal@)),
            old(self)@.wf() ==> final(self)@.wf(),
            old(self)@.sound() ==> final(self)@.sound(),
    {
        proof {
            if self@.wf() {
                lemma_seal_wf(self@, terminal@, 0);
            }
        }
        self.inner.sealed = true;
        self.inner.terminal = Some(terminal);
    }

    /// Finish a coordinator whose worker join has completed: account a terminal status
    /// the worker never reached, reconcile everything else it abandoned, and return the
    /// settlement with the refreshed accounting.
    pub fn complete_finish(
        &mut self,
        outcome: JoinOutcome,
        authority: &AbandonmentAuthority,
    ) -> (settlement: StatusSettlement)
        requires
            old(self)@.wf(),
            old(self)@.inner.terminal is Some ==> old(self)@.inner.diagnostics.submitted
                < u64::MAX,
        ensures
            final(self)@ == old(self)@.finished(),
            settlement@ == old(self)@.settlement(outcome@),
            final(self)@.wf(),
            old(self)@.sound() ==> final(self)@.sound(),
            final(self)@.inner.quiescent(),
            final(self)@.inner.shutdown,
            settlement@.diagnostics.balanced(),
    {
        proof {
            lemma_retire_pending_terminal_wf(self@, 0);
        }
        let mut settlement = match outcome {
            JoinOutcome::Settled(settlement) => settlement,
            JoinOutcome::Panicked => {
                let mut settlement = StatusSettlement::default();
                settlement.diagnostics = self.diagnostics();
                settlement.worker_error = Some(STATUS_WORKER_PANIC.to_string());
                settlement
            },
            JoinOutcome::AlreadyJoined => {
                let mut settlement = StatusSettlement::default();
                settlement.diagnostics = self.diagnostics();
                settlement
            },
        };
        if self.inner.terminal.is_some() {
            self.inner.terminal = None;
            self.inner.diagnostics.submitted = self.inner.diagnostics.submitted + 1;
            self.inner.diagnostics.disconnected = self.inner.diagnostics.disconnected + 1;
        }
        self.reconcile_abandoned(authority);
        settlement.diagnostics = self.diagnostics();
        if settlement.periodic_error.is_none() {
            settlement.periodic_error = self.periodic_error();
        }
        proof {
            lemma_reconcile_abandoned_wf(
                old(self)@.with_inner(old(self)@.inner.retire_pending_terminal()),
                0,
            );
        }
        settlement
    }
}

/// What a submitter reports of its acknowledgement: the failure, bounded, as the primary
/// fault.
pub open spec fn required_report(acknowledged: Result<(), Seq<char>>) -> Result<(), ErrorView> {
    match acknowledged {
        Ok(()) => Ok(()),
        Err(error) => Err(ErrorView::primary(error)),
    }
}

/// The typed outcome of a required status: a write failure or a disconnected worker is
/// a terminal infrastructure failure.
pub fn required_outcome(acknowledged: Result<(), String>) -> (outcome: Result<
    (),
    TranscriptPumpError,
>)
    ensures
        outcome_of(outcome) == required_report(result_of(acknowledged)),
{
    match acknowledged {
        Ok(()) => Ok(()),
        Err(err) => Err(TranscriptPumpError::new(err.as_str())),
    }
}

/// Whether `command` is the retired command `id`.
pub open spec fn is_resolving(command: CommandView, id: nat) -> bool {
    command.id == id && !command.is_queued()
}

/// The position of the first retired command `id`.
pub open spec fn first_matching(required: Seq<CommandView>, id: nat) -> Option<nat> {
    if exists|i: int| 0 <= i < required.len() && is_resolving(#[trigger] required[i], id) {
        Some(
            choose|i: nat|
                {
                    &&& i < required.len()
                    &&& is_resolving(#[trigger] required[i as int], id)
                    &&& forall|k: int|
                        0 <= k < i ==> !is_resolving(#[trigger] required[k], id)
                },
        )
    } else {
        None
    }
}

proof fn lemma_first_matching(required: Seq<CommandView>, id: nat, at: int)
    requires
        0 <= at <= required.len(),
        forall|k: int| 0 <= k < at ==> !is_resolving(#[trigger] required[k], id),
        at < required.len() ==> is_resolving(required[at], id),
    ensures
        first_matching(required, id) == if at < required.len() {
            Some(at as nat)
        } else {
            None
        },
{
    if at < required.len() {
        let i = choose|i: nat|
            {
                &&& i < required.len()
                &&& is_resolving(#[trigger] required[i as int], id)
                &&& forall|k: int| 0 <= k < i ==> !is_resolving(#[trigger] required[k], id)
            };
        assert(is_resolving(required[(at as nat) as int], id));
        assert(i == at);
    }
}

/// A deque with a queued front command counts at least one.
proof fn lemma_count_front(required: Seq<CommandView>)
    ensures
        required.len() > 0 && required[0].is_queued() ==> count_queued(required) >= 1,
{
    if required.len() > 0 {
        lemma_count_remove(required, 0);
    }
}

} // verus!
