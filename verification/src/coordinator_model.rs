//! The mathematical model of the status coordinator.
//!
//! `SharedView` is everything a coordinator's threads share: the coordinator's slots,
//! queue and counters, and the acknowledgement cells it handed out. Each operation of
//! the coordinator is a function from one `SharedView` to the next.

use vstd::prelude::*;

use crate::ack::{observable, resolved};
use crate::error::SettlementView;
use crate::status::{StatusView, TerminalView, TransportView};
use crate::text::{bounded, bounded_result};

verus! {

/// The bounded diagnostic fixed as an accepted required write's one-shot result when
/// the worker provably unwound before the store returned. "panicked" keeps it
/// attributable to a worker unwind in the transport `last_error`.
pub const ACCEPTED_WRITE_WORKER_UNWIND: &'static str =
    "persist pump status: status worker panicked before acknowledging an accepted required write";

/// The bounded disconnected result fixed on a never-accepted queued required write
/// when authorized termination retires it.
pub const QUEUED_REQUIRED_DISCONNECT: &'static str =
    "persist pump status: status worker disconnected";

/// The message a status-worker panic publishes and records.
pub const STATUS_WORKER_PANIC: &'static str =
    "status coordinator worker panicked while persisting a status";

/// Which non-required submission a write persists, so periodic and Complete-to-Failed
/// fallback failures stay distinct from terminal failures in the diagnostics. Required
/// writes track their in-flight state in the shared active record instead.
#[derive(Debug, Clone, Copy, PartialEq, Eq, Structural)]
pub enum WriteKind {
    Periodic,
    Terminal,
    /// The Failed fallback written after a Complete status could not be persisted.
    Fallback,
}

/// The lifecycle of a never-accepted required command.
pub enum LifecycleView {
    Queued,
    Resolving { immutable_error: Seq<char> },
}

/// A required command in the shared deque.
#[verifier::ext_equal]
pub struct CommandView {
    pub id: nat,
    pub status: StatusView,
    pub cell: nat,
    pub lifecycle: LifecycleView,
}

impl CommandView {
    pub open spec fn is_queued(self) -> bool {
        self.lifecycle is Queued
    }

    /// The command after authorized termination: a queued one is retired in place, a
    /// resolving one is left as it is.
    pub open spec fn retired(self) -> Self {
        if self.is_queued() {
            CommandView {
                lifecycle: LifecycleView::Resolving {
                    immutable_error: QUEUED_REQUIRED_DISCONNECT@,
                },
                ..self
            }
        } else {
            self
        }
    }
}

/// How far an accepted required write has come.
pub enum PhaseView {
    /// Accepted, and the store has not returned.
    Pending,
    /// The store returned this result.
    Observed(Result<(), Seq<char>>),
    /// The caller's result is fixed and accounted.
    Prepared(Result<(), Seq<char>>),
}

/// The record of one accepted required write.
#[verifier::ext_equal]
pub struct ActiveView {
    pub id: nat,
    pub cell: nat,
    pub phase: PhaseView,
    pub accounting_applied: bool,
}

/// What is to be delivered to one acknowledgement cell.
#[verifier::ext_equal]
pub struct DeliveryView {
    pub id: nat,
    pub cell: nat,
    pub result: Result<(), Seq<char>>,
}

/// What the worker does next.
pub enum WorkView {
    /// Persist the accepted required command `id` as this document.
    Required(nat, StatusView),
    Periodic(StatusView),
    Terminal(TerminalView),
    Idle,
}

/// How the worker's join came out when a coordinator finishes.
pub enum JoinView {
    Settled(SettlementView),
    Panicked,
    AlreadyJoined,
}

/// The coordinator's slots, queue and counters.
#[verifier::ext_equal]
pub struct CoordinatorView {
    pub periodic: Option<StatusView>,
    pub required: Seq<CommandView>,
    pub active: Option<ActiveView>,
    pub next_command_id: nat,
    pub terminal: Option<TerminalView>,
    pub diagnostics: TransportView,
    pub in_flight: Option<WriteKind>,
    pub periodic_error: Option<Seq<char>>,
    pub settlement_error: Option<Seq<char>>,
    pub fallback_error: Option<Seq<char>>,
    pub sealed: bool,
    pub shutdown: bool,
}

/// Everything the coordinator's threads share.
#[verifier::ext_equal]
pub struct SharedView {
    pub inner: CoordinatorView,
    pub acks: Seq<Option<Result<(), Seq<char>>>>,
}

/// How many commands of the deque are still queued.
pub open spec fn count_queued(required: Seq<CommandView>) -> nat
    decreases required.len(),
{
    if required.len() == 0 {
        0
    } else {
        count_queued(required.drop_last()) + one_if(required.last().is_queued())
    }
}

pub open spec fn one_if(condition: bool) -> nat {
    if condition {
        1
    } else {
        0
    }
}

/// The deque with every queued command retired in place.
pub open spec fn all_retired(required: Seq<CommandView>) -> Seq<CommandView> {
    required.map_values(|command: CommandView| command.retired())
}

/// The commands of the deque that are still queued, in order.
pub open spec fn still_queued(required: Seq<CommandView>) -> Seq<CommandView> {
    required.filter(|command: CommandView| command.is_queued())
}

/// The cells after every resolving command of the deque is delivered its own bounded
/// error, front first.
pub open spec fn all_delivered(
    required: Seq<CommandView>,
    acks: Seq<Option<Result<(), Seq<char>>>>,
) -> Seq<Option<Result<(), Seq<char>>>>
    decreases required.len(),
{
    if required.len() == 0 {
        acks
    } else {
        all_delivered(
            required.drop_first(),
            match required[0].lifecycle {
                LifecycleView::Queued => acks,
                LifecycleView::Resolving { immutable_error } => resolved(
                    acks,
                    required[0].cell as int,
                    Err(bounded(immutable_error)),
                ),
            },
        )
    }
}

/// The failure text of a write, kept apart by what was being written.
pub open spec fn latched_error(
    result: Result<(), Seq<char>>,
    kind: WriteKind,
    of: WriteKind,
    error: Option<Seq<char>>,
) -> Option<Seq<char>> {
    match result {
        Err(text) => if kind == of {
            Some(text)
        } else {
            error
        },
        Ok(()) => error,
    }
}

impl CoordinatorView {
    /// Nothing pending, nothing accounted, not yet sealed or shut down.
    pub open spec fn initial() -> Self {
        CoordinatorView {
            periodic: None,
            required: Seq::empty(),
            active: None,
            next_command_id: 0,
            terminal: None,
            diagnostics: TransportView::empty(),
            in_flight: None,
            periodic_error: None,
            settlement_error: None,
            fallback_error: None,
            sealed: false,
            shutdown: false,
        }
    }

    /// Submissions that are counted but have not reached a terminal category.
    pub open spec fn outstanding(self) -> nat {
        one_if(self.periodic is Some) + count_queued(self.required) + one_if(
            self.active matches Some(active) && !active.accounting_applied,
        ) + one_if(self.in_flight is Some)
    }

    /// No slot or queue holds anything, and no write is under way.
    pub open spec fn quiescent(self) -> bool {
        &&& self.periodic is None
        &&& self.required.len() == 0
        &&& self.active is None
        &&& self.terminal is None
        &&& self.in_flight is None
    }

    /// A best-effort snapshot: a newer one replaces an older pending one, a sealed
    /// coordinator drops it, a shut-down one disconnects it.
    pub open spec fn submit_periodic(self, status: StatusView) -> Self {
        let counted = self.diagnostics.submit();
        if self.shutdown {
            CoordinatorView { diagnostics: counted.disconnect(1), ..self }
        } else if self.sealed {
            CoordinatorView {
                diagnostics: TransportView { dropped: counted.dropped + 1, ..counted },
                ..self
            }
        } else if self.periodic is Some {
            CoordinatorView {
                periodic: Some(status),
                diagnostics: TransportView { coalesced: counted.coalesced + 1, ..counted },
                ..self
            }
        } else {
            CoordinatorView { periodic: Some(status), diagnostics: counted, ..self }
        }
    }

    /// Terminal sealing: no later snapshot is written, and the terminal status waits
    /// for the worker.
    pub open spec fn seal(self, terminal: TerminalView) -> Self {
        CoordinatorView { sealed: true, terminal: Some(terminal), ..self }
    }

    /// Whether the worker may accept the front command.
    pub open spec fn can_accept(self) -> bool {
        &&& self.active is None
        &&& !self.shutdown
        &&& self.required.len() > 0
        &&& self.required[0].is_queued()
    }

    /// The front command moves from the deque into the active record.
    pub open spec fn accept(self) -> Self {
        if self.can_accept() {
            CoordinatorView {
                required: self.required.drop_first(),
                active: Some(
                    ActiveView {
                        id: self.required[0].id,
                        cell: self.required[0].cell,
                        phase: PhaseView::Pending,
                        accounting_applied: false,
                    },
                ),
                ..self
            }
        } else {
            self
        }
    }

    /// The document handed to the store for the accepted command.
    pub open spec fn accepted_status(self) -> StatusView {
        self.required[0].status.stamped(self.diagnostics.projected())
    }

    /// Required commands come first, in order, then the newest snapshot, and the
    /// terminal status last.
    pub open spec fn work(self) -> WorkView {
        if self.can_accept() {
            WorkView::Required(self.required[0].id, self.accepted_status())
        } else {
            match (self.periodic, self.terminal) {
                (Some(status), _) => WorkView::Periodic(status),
                (None, Some(terminal)) => WorkView::Terminal(terminal),
                (None, None) => WorkView::Idle,
            }
        }
    }

    /// The slots once the worker has taken its work.
    pub open spec fn take_work(self) -> Self {
        match self.work() {
            WorkView::Required(_, _) => self.accept(),
            WorkView::Periodic(_) => self.take_periodic(),
            WorkView::Terminal(_) => self.take_terminal(),
            WorkView::Idle => self,
        }
    }

    /// The store's result enters the active record of the same command.
    pub open spec fn publish_observed(self, id: nat, result: Result<(), Seq<char>>) -> Self {
        match self.active {
            Some(active) => if active.id == id {
                CoordinatorView {
                    active: Some(ActiveView { phase: PhaseView::Observed(result), ..active }),
                    ..self
                }
            } else {
                self
            },
            None => self,
        }
    }

    /// What the active record's caller is due: nothing while the store may still
    /// return, else the store's own result bounded, or the result already fixed.
    pub open spec fn due(self, authorized: bool) -> Option<DeliveryView> {
        match self.active {
            None => None,
            Some(active) => match active.phase {
                PhaseView::Pending => if authorized {
                    Some(
                        DeliveryView {
                            id: active.id,
                            cell: active.cell,
                            result: Err(bounded(ACCEPTED_WRITE_WORKER_UNWIND@)),
                        },
                    )
                } else {
                    None
                },
                PhaseView::Observed(result) => Some(
                    DeliveryView {
                        id: active.id,
                        cell: active.cell,
                        result: bounded_result(result),
                    },
                ),
                PhaseView::Prepared(result) => Some(
                    DeliveryView { id: active.id, cell: active.cell, result },
                ),
            },
        }
    }

    /// Fix the active record's result and account it, once.
    pub open spec fn prepare_active(self, authorized: bool) -> Self {
        match self.due(authorized) {
            None => self,
            Some(delivery) => CoordinatorView {
                active: Some(
                    ActiveView {
                        phase: PhaseView::Prepared(delivery.result),
                        accounting_applied: true,
                        ..self.active.unwrap()
                    },
                ),
                diagnostics: if self.active.unwrap().accounting_applied {
                    self.diagnostics
                } else {
                    self.diagnostics.record(delivery.result)
                },
                ..self
            },
        }
    }

    /// Remove the active record of one exact command.
    pub open spec fn cleanup_active(self, id: nat) -> Self {
        if self.active matches Some(active) && active.id == id {
            CoordinatorView { active: None, ..self }
        } else {
            self
        }
    }

    /// Retire every never-accepted command in place and count it disconnected.
    pub open spec fn retire_queued(self) -> Self {
        CoordinatorView {
            shutdown: true,
            required: all_retired(self.required),
            diagnostics: self.diagnostics.disconnect(count_queued(self.required)),
            ..self
        }
    }

    /// A non-required write is about to be attempted.
    pub open spec fn begin_write(self, kind: WriteKind) -> Self {
        CoordinatorView { in_flight: Some(kind), ..self }
    }

    /// A non-required write reported `result`.
    pub open spec fn record_write(self, result: Result<(), Seq<char>>, kind: WriteKind) -> Self {
        let outcome = bounded_result(result);
        CoordinatorView {
            in_flight: None,
            diagnostics: self.diagnostics.record(outcome),
            periodic_error: latched_error(outcome, kind, WriteKind::Periodic, self.periodic_error),
            fallback_error: latched_error(outcome, kind, WriteKind::Fallback, self.fallback_error),
            ..self
        }
    }

    /// The pending snapshot leaves its slot for the store.
    pub open spec fn take_periodic(self) -> Self {
        CoordinatorView { periodic: None, ..self }
    }

    /// The terminal status leaves its slot for the store.
    pub open spec fn take_terminal(self) -> Self {
        CoordinatorView { terminal: None, ..self }
    }

    /// A terminal or fallback status is counted as a submission of its own.
    pub open spec fn begin_terminal(self, kind: WriteKind) -> Self {
        CoordinatorView { diagnostics: self.diagnostics.submit(), in_flight: Some(kind), ..self }
    }

    pub open spec fn set_settlement_error(self, error: Seq<char>) -> Self {
        CoordinatorView { settlement_error: Some(bounded(error)), ..self }
    }

    /// A write that was under way when the worker unwound is a write failure.
    pub open spec fn account_in_flight_unwind(self) -> Self {
        match self.in_flight {
            Some(kind) => self.record_write(Err(STATUS_WORKER_PANIC@), kind),
            None => self,
        }
    }

    /// A pending snapshot the worker never wrote is disconnected.
    pub open spec fn retire_pending_periodic(self) -> Self {
        CoordinatorView {
            periodic: None,
            diagnostics: self.diagnostics.disconnect(one_if(self.periodic is Some)),
            ..self
        }
    }

    /// A terminal status the worker never reached is submitted and disconnected.
    pub open spec fn retire_pending_terminal(self) -> Self {
        if self.terminal is Some {
            CoordinatorView {
                terminal: None,
                diagnostics: self.diagnostics.submit().disconnect(1),
                ..self
            }
        } else {
            self
        }
    }

    pub open spec fn shut(self) -> Self {
        CoordinatorView { shutdown: true, ..self }
    }

    /// What joining the worker reports: the worker's own settlement, or the accounting
    /// as it stands, with a worker failure where the join failed.
    pub open spec fn joined(self, outcome: JoinView) -> SettlementView {
        match outcome {
            JoinView::Settled(settlement) => settlement,
            JoinView::Panicked => SettlementView {
                worker_error: Some(STATUS_WORKER_PANIC@),
                ..SettlementView::clean(self.diagnostics)
            },
            JoinView::AlreadyJoined => SettlementView::clean(self.diagnostics),
        }
    }
}

impl SharedView {
    pub open spec fn initial() -> Self {
        SharedView { inner: CoordinatorView::initial(), acks: Seq::empty() }
    }

    pub open spec fn with_inner(self, inner: CoordinatorView) -> Self {
        SharedView { inner, ..self }
    }

    /// A required status: refused and disconnected after shutdown, else queued behind
    /// every earlier one with a fresh acknowledgement cell.
    pub open spec fn enqueue_required(self, status: StatusView) -> Self {
        let inner = self.inner;
        let counted = inner.diagnostics.submit();
        if inner.shutdown {
            self.with_inner(CoordinatorView { diagnostics: counted.disconnect(1), ..inner })
        } else {
            SharedView {
                inner: CoordinatorView {
                    diagnostics: counted,
                    next_command_id: inner.next_command_id + 1,
                    required: inner.required.push(
                        CommandView {
                            id: inner.next_command_id,
                            status,
                            cell: self.acks.len(),
                            lifecycle: LifecycleView::Queued,
                        },
                    ),
                    ..inner
                },
                acks: self.acks.push(None),
            }
        }
    }

    /// Deliver a result to the cell it is due to.
    pub open spec fn deliver(self, delivery: DeliveryView) -> Self {
        SharedView { acks: resolved(self.acks, delivery.cell as int, delivery.result), ..self }
    }

    /// Settle the active write: prepare it, deliver its result, remove its record.
    pub open spec fn settle_active(self, authorized: bool) -> Self {
        match self.inner.due(authorized) {
            None => self,
            Some(delivery) => {
                let delivered = self.with_inner(self.inner.prepare_active(authorized)).deliver(
                    delivery,
                );
                if observable(delivered.acks, delivery.cell as int) {
                    delivered.with_inner(delivered.inner.cleanup_active(delivery.id))
                } else {
                    delivered
                }
            },
        }
    }

    /// Deliver every retired command its own disconnected result and remove it.
    pub open spec fn resolve_queued(self) -> Self {
        SharedView {
            inner: CoordinatorView { required: still_queued(self.inner.required), ..self.inner },
            acks: all_delivered(self.inner.required, self.acks),
        }
    }

    /// Reconcile all work an abandoned worker left behind.
    pub open spec fn reconcile_abandoned(self) -> Self {
        let settled = self.with_inner(self.inner.shut().account_in_flight_unwind()).settle_active(
            true,
        );
        let resolved_all = settled.with_inner(settled.inner.retire_queued()).resolve_queued();
        resolved_all.with_inner(resolved_all.inner.retire_pending_periodic())
    }

    /// The state a finished coordinator is left in once its worker is joined.
    pub open spec fn finished(self) -> Self {
        self.with_inner(self.inner.retire_pending_terminal()).reconcile_abandoned()
    }

    /// The settlement a finished coordinator returns: the worker's, with the accounting
    /// after all reconciliation, and a periodic failure if either saw one.
    pub open spec fn settlement(self, outcome: JoinView) -> SettlementView {
        let joined = self.inner.joined(outcome);
        let inner = self.finished().inner;
        SettlementView {
            diagnostics: inner.diagnostics,
            periodic_error: if joined.periodic_error is Some {
                joined.periodic_error
            } else {
                inner.periodic_error
            },
            ..joined
        }
    }
}

} // verus!
