//! The invariant of the status coordinator, and its preservation by every operation.
//!
//! A well-formed state accounts for every submission exactly once, keeps the identities
//! of its required commands in order, owns every acknowledgement that is not yet
//! resolved, and retains no text above the cap. A sound state is well-formed, and every
//! acknowledgement of a command it owns holds that command's own result or none; the
//! coordinator's own transitions keep it sound.

use vstd::prelude::*;

use crate::ack::{observable, resolved};
use crate::coordinator_model::{
    all_delivered, all_retired, count_queued, one_if, still_queued, ActiveView, CommandView,
    CoordinatorView, DeliveryView, LifecycleView, PhaseView, SharedView, WriteKind,
    ACCEPTED_WRITE_WORKER_UNWIND, STATUS_WORKER_PANIC,
};
use crate::status::{StatusView, TerminalView};
use crate::text::{bounded, fits, law_bounded_within_cap};

verus! {

/// A write result whose error, if any, is within the cap.
pub open spec fn result_fits(result: Result<(), Seq<char>>) -> bool {
    result matches Err(error) ==> fits(Some(error))
}

impl SharedView {
    /// Every submission is in exactly one terminal category, or still outstanding, or
    /// one of `in_hand` that the worker took from its slot.
    pub open spec fn accounted(self, in_hand: nat) -> bool {
        self.inner.diagnostics.submitted == self.inner.diagnostics.settled()
            + self.inner.outstanding() + in_hand
    }

    /// Identities are issued in order, each with the acknowledgement cell of the same
    /// number; the deque is in order of identity, behind the active write.
    pub open spec fn identified(self) -> bool {
        let inner = self.inner;
        let required = inner.required;
        &&& self.acks.len() == inner.next_command_id
        &&& inner.next_command_id <= inner.diagnostics.submitted
        &&& forall|i: int, j: int|
            0 <= i < j < required.len() ==> (#[trigger] required[i]).id < (#[trigger] required[j]).id
        &&& forall|i: int|
            0 <= i < required.len() ==> (#[trigger] required[i]).id < inner.next_command_id
                && required[i].cell == required[i].id
        &&& inner.active matches Some(active) ==> {
            &&& active.id < inner.next_command_id
            &&& active.cell == active.id
            &&& forall|i: int| 0 <= i < required.len() ==> active.id < (#[trigger] required[i]).id
        }
    }

    /// The deque or the active record holds the command `id`.
    pub open spec fn owned(self, id: nat) -> bool {
        ||| self.inner.active matches Some(active) && active.id == id
        ||| exists|i: int|
            0 <= i < self.inner.required.len() && (#[trigger] self.inner.required[i]).id == id
    }

    /// No acknowledgement is lost: each is resolved, or its command is still owned.
    pub open spec fn acknowledged(self) -> bool {
        forall|id: nat|
            id < self.acks.len() ==> (#[trigger] self.acks[id as int]) is Some || self.owned(id)
    }

    /// A fixed result is accounted, and within the cap.
    pub open spec fn fixed(self) -> bool {
        self.inner.active matches Some(active) ==> (active.phase matches PhaseView::Prepared(result)
            ==> active.accounting_applied && result_fits(result))
    }

    /// Retained diagnostics are within the cap.
    pub open spec fn capped(self) -> bool {
        &&& fits(self.inner.diagnostics.last_error)
        &&& fits(self.inner.periodic_error)
        &&& fits(self.inner.settlement_error)
        &&& fits(self.inner.fallback_error)
    }

    /// Well-formed, with `in_hand` submissions taken from their slot but not yet begun.
    pub open spec fn wf_with(self, in_hand: nat) -> bool {
        &&& self.accounted(in_hand)
        &&& self.identified()
        &&& self.acknowledged()
        &&& self.fixed()
        &&& self.capped()
    }

    pub open spec fn wf(self) -> bool {
        self.wf_with(0)
    }

    /// A queued command is unresolved; a retired one is unresolved or has its own error.
    pub open spec fn command_ack(self, command: CommandView) -> bool {
        match command.lifecycle {
            LifecycleView::Queued => self.acks[command.cell as int] is None,
            LifecycleView::Resolving { immutable_error } => {
                self.acks[command.cell as int] is None || self.acks[command.cell as int]
                    == Some(Err::<(), Seq<char>>(bounded(immutable_error)))
            },
        }
    }

    /// An active write is accounted exactly when its result is fixed; until then it is
    /// unresolved, and from then on its cell holds that result or none.
    pub open spec fn active_ack(self, active: ActiveView) -> bool {
        match active.phase {
            PhaseView::Prepared(result) => self.acks[active.cell as int] is None
                || self.acks[active.cell as int] == Some(result),
            _ => !active.accounting_applied && self.acks[active.cell as int] is None,
        }
    }

    /// Every acknowledgement of an owned command holds that command's own result or none.
    pub open spec fn truthful(self) -> bool {
        &&& forall|i: int|
            0 <= i < self.inner.required.len() ==> self.command_ack(
                #[trigger] self.inner.required[i],
            )
        &&& self.inner.active matches Some(active) ==> self.active_ack(active)
    }

    /// Commands are retired only after shutdown, and a terminal status waits only in a
    /// sealed coordinator.
    pub open spec fn phased(self) -> bool {
        &&& !self.inner.shutdown ==> forall|i: int|
            0 <= i < self.inner.required.len() ==> (#[trigger] self.inner.required[i]).is_queued()
        &&& self.inner.terminal is Some ==> self.inner.sealed
    }

    /// Well-formed, and reached by the coordinator's own transitions alone.
    pub open spec fn sound_with(self, in_hand: nat) -> bool {
        &&& self.wf_with(in_hand)
        &&& self.truthful()
        &&& self.phased()
    }

    pub open spec fn sound(self) -> bool {
        self.sound_with(0)
    }

    /// Nothing is left for a worker but a terminal status.
    pub open spec fn drained(self) -> bool {
        &&& self.inner.periodic is None
        &&& self.inner.required.len() == 0
        &&& self.inner.active is None
        &&& self.inner.in_flight is None
    }
}

/// The retired command that a delivery is due to.
pub open spec fn retired_for(command: CommandView, delivery: DeliveryView) -> bool {
    &&& command.id == delivery.id
    &&& command.cell == delivery.cell
    &&& command.lifecycle matches LifecycleView::Resolving { immutable_error }
        && delivery.result == Err::<(), Seq<char>>(bounded(immutable_error))
}

/// What a delivery may fix: the result its active write is prepared with, the error its
/// command was retired with, or a result that the cell already holds.
pub open spec fn deliverable(state: SharedView, delivery: DeliveryView) -> bool {
    ||| state.inner.active matches Some(active) && active.id == delivery.id && active.cell
        == delivery.cell && active.phase == PhaseView::Prepared(delivery.result)
    ||| exists|i: int|
        0 <= i < state.inner.required.len() && retired_for(
            #[trigger] state.inner.required[i],
            delivery,
        )
    ||| delivery.cell < state.acks.len() && state.acks[delivery.cell as int] == Some(
        delivery.result,
    )
}

// ---------------------------------------------------------------------------------
// The deque
// ---------------------------------------------------------------------------------

proof fn lemma_count_push(required: Seq<CommandView>, command: CommandView)
    ensures
        count_queued(required.push(command)) == count_queued(required) + one_if(
            command.is_queued(),
        ),
{
    assert(required.push(command).drop_last() =~= required);
}

pub proof fn lemma_count_remove(required: Seq<CommandView>, i: int)
    requires
        0 <= i < required.len(),
    ensures
        count_queued(required) == count_queued(required.remove(i)) + one_if(
            required[i].is_queued(),
        ),
    decreases required.len(),
{
    if i == required.len() - 1 {
        assert(required.remove(i) =~= required.drop_last());
    } else {
        lemma_count_remove(required.drop_last(), i);
        assert(required.remove(i).drop_last() =~= required.drop_last().remove(i));
        assert(required.remove(i).last() == required.last());
    }
}

pub proof fn lemma_count_none(required: Seq<CommandView>)
    requires
        forall|i: int| 0 <= i < required.len() ==> !(#[trigger] required[i]).is_queued(),
    ensures
        count_queued(required) == 0,
    decreases required.len(),
{
    if required.len() > 0 {
        let shorter = required.drop_last();
        assert forall|i: int| 0 <= i < shorter.len() implies !(#[trigger] shorter[i]).is_queued() by {
            assert(shorter[i] == required[i]);
        }
        lemma_count_none(shorter);
    }
}

proof fn lemma_count_retired(required: Seq<CommandView>)
    ensures
        count_queued(all_retired(required)) == 0,
{
    let retired = all_retired(required);
    assert forall|i: int| 0 <= i < retired.len() implies !(#[trigger] retired[i]).is_queued() by {
        assert(retired[i] == required[i].retired());
    }
    lemma_count_none(retired);
}

/// Removing a command that is not queued leaves the queued ones as they are.
pub proof fn lemma_still_queued_remove(required: Seq<CommandView>, i: int)
    requires
        0 <= i < required.len(),
        !required[i].is_queued(),
    ensures
        still_queued(required.remove(i)) == still_queued(required),
    decreases required.len(),
{
    reveal_with_fuel(Seq::filter, 2);
    if i == required.len() - 1 {
        assert(required.remove(i) =~= required.drop_last());
    } else {
        lemma_still_queued_remove(required.drop_last(), i);
        assert(required.remove(i).drop_last() =~= required.drop_last().remove(i));
        assert(required.remove(i).last() == required.last());
    }
}

/// A deque of queued commands only is its own queued part.
pub proof fn lemma_still_queued_all(required: Seq<CommandView>)
    requires
        forall|i: int| 0 <= i < required.len() ==> (#[trigger] required[i]).is_queued(),
    ensures
        still_queued(required) == required,
    decreases required.len(),
{
    reveal_with_fuel(Seq::filter, 2);
    if required.len() > 0 {
        let shorter = required.drop_last();
        assert forall|i: int| 0 <= i < shorter.len() implies (#[trigger] shorter[i]).is_queued() by {
            assert(shorter[i] == required[i]);
        }
        lemma_still_queued_all(shorter);
        assert(shorter.push(required.last()) =~= required);
    } else {
        assert(still_queued(required) =~= required);
    }
}

/// Delivering the first retired command and removing it leaves the rest to deliver.
pub proof fn lemma_all_delivered_remove(
    required: Seq<CommandView>,
    acks: Seq<Option<Result<(), Seq<char>>>>,
    i: int,
    immutable_error: Seq<char>,
)
    requires
        0 <= i < required.len(),
        forall|k: int| 0 <= k < i ==> (#[trigger] required[k]).is_queued(),
        required[i].lifecycle == (LifecycleView::Resolving { immutable_error }),
    ensures
        all_delivered(required, acks) == all_delivered(
            required.remove(i),
            resolved(acks, required[i].cell as int, Err(bounded(immutable_error))),
        ),
    decreases required.len(),
{
    if i == 0 {
        assert(required.remove(0) =~= required.drop_first());
    } else {
        let rest = required.drop_first();
        assert forall|k: int| 0 <= k < i - 1 implies (#[trigger] rest[k]).is_queued() by {
            assert(rest[k] == required[k + 1]);
        }
        lemma_all_delivered_remove(rest, acks, i - 1, immutable_error);
        assert(required.remove(i).drop_first() =~= rest.remove(i - 1));
        assert(required[0].is_queued());
        assert(required.remove(i)[0] == required[0]);
    }
}

/// With nothing retired there is nothing to deliver.
pub proof fn lemma_all_delivered_none(
    required: Seq<CommandView>,
    acks: Seq<Option<Result<(), Seq<char>>>>,
)
    requires
        forall|i: int| 0 <= i < required.len() ==> (#[trigger] required[i]).is_queued(),
    ensures
        all_delivered(required, acks) == acks,
    decreases required.len(),
{
    if required.len() > 0 {
        let rest = required.drop_first();
        assert forall|i: int| 0 <= i < rest.len() implies (#[trigger] rest[i]).is_queued() by {
            assert(rest[i] == required[i + 1]);
        }
        assert(required[0].is_queued());
        lemma_all_delivered_none(rest, acks);
    }
}

// ---------------------------------------------------------------------------------
// Preservation, one operation at a time
// ---------------------------------------------------------------------------------

/// A coordinator starts sound.
pub proof fn lemma_initial_sound()
    ensures
        SharedView::initial().sound(),
        SharedView::initial().drained(),
{
    assert(count_queued(SharedView::initial().inner.required) == 0);
}

/// States that agree on identities, deque, active record and cells agree on what they
/// own and acknowledge.
proof fn lemma_acknowledged_same(before: SharedView, after: SharedView)
    requires
        before.acknowledged(),
        after.acks == before.acks,
        after.inner.required == before.inner.required,
        after.inner.active == before.inner.active,
    ensures
        after.acknowledged(),
        before.fixed() ==> after.fixed(),
        before.truthful() ==> after.truthful(),
{
    if before.truthful() {
        assert forall|i: int| 0 <= i < after.inner.required.len() implies after.command_ack(
            #[trigger] after.inner.required[i],
        ) by {
            assert(before.command_ack(before.inner.required[i]));
        }
    }
    assert forall|id: nat| id < after.acks.len() implies (#[trigger] after.acks[id as int]) is Some
        || after.owned(id) by {
        assert(before.acks[id as int] is Some || before.owned(id));
    }
}

pub proof fn lemma_submit_periodic_wf(state: SharedView, status: StatusView, in_hand: nat)
    requires
        state.wf_with(in_hand),
    ensures
        state.with_inner(state.inner.submit_periodic(status)).wf_with(in_hand),
        state.sound_with(in_hand)
            ==> state.with_inner(state.inner.submit_periodic(status)).sound_with(in_hand),
{
    lemma_acknowledged_same(state, state.with_inner(state.inner.submit_periodic(status)));
}

pub proof fn lemma_seal_wf(state: SharedView, terminal: TerminalView, in_hand: nat)
    requires
        state.wf_with(in_hand),
    ensures
        state.with_inner(state.inner.seal(terminal)).wf_with(in_hand),
        state.sound_with(in_hand)
            ==> state.with_inner(state.inner.seal(terminal)).sound_with(in_hand),
{
    lemma_acknowledged_same(state, state.with_inner(state.inner.seal(terminal)));
}

pub proof fn lemma_enqueue_required_wf(state: SharedView, status: StatusView, in_hand: nat)
    requires
        state.wf_with(in_hand),
    ensures
        state.enqueue_required(status).wf_with(in_hand),
        state.sound_with(in_hand) ==> state.enqueue_required(status).sound_with(in_hand),
{
    let after = state.enqueue_required(status);
    if state.inner.shutdown {
        lemma_acknowledged_same(state, after);
    } else {
        let command = after.inner.required.last();
        lemma_count_push(state.inner.required, command);
        let n = state.inner.required.len() as int;
        if state.truthful() {
            assert forall|i: int| 0 <= i < after.inner.required.len() implies after.command_ack(
                #[trigger] after.inner.required[i],
            ) by {
                if i < n {
                    assert(after.inner.required[i] == state.inner.required[i]);
                    assert(state.command_ack(state.inner.required[i]));
                }
            }
        }
        assert forall|id: nat| id < after.acks.len() implies (#[trigger] after.acks[id as int])
            is Some || after.owned(id) by {
            if id < state.acks.len() {
                assert(after.acks[id as int] == state.acks[id as int]);
                if state.acks[id as int] is None {
                    assert(state.owned(id));
                    lemma_owned_grows(state, after, id);
                }
            } else {
                assert(after.inner.required[n].id == id);
            }
        }
    }
}

/// Ownership survives when the active record stays and the deque only grows.
proof fn lemma_owned_grows(before: SharedView, after: SharedView, id: nat)
    requires
        before.owned(id),
        after.inner.active == before.inner.active,
        before.inner.required.len() <= after.inner.required.len(),
        forall|i: int|
            0 <= i < before.inner.required.len() ==> (#[trigger] after.inner.required[i]).id
                == before.inner.required[i].id,
    ensures
        after.owned(id),
{
    if !(before.inner.active matches Some(active) && active.id == id) {
        let i = choose|i: int|
            0 <= i < before.inner.required.len() && (#[trigger] before.inner.required[i]).id == id;
        assert(after.inner.required[i].id == id);
    }
}

pub proof fn lemma_accept_wf(state: SharedView, in_hand: nat)
    requires
        state.wf_with(in_hand),
    ensures
        state.with_inner(state.inner.accept()).wf_with(in_hand),
        state.sound_with(in_hand) ==> state.with_inner(state.inner.accept()).sound_with(in_hand),
{
    if state.inner.can_accept() {
        let after = state.with_inner(state.inner.accept());
        let required = state.inner.required;
        lemma_count_remove(required, 0);
        assert(required.remove(0) =~= required.drop_first());
        assert forall|i: int| 0 <= i < after.inner.required.len() implies (
        #[trigger] after.inner.required[i]) == required[i + 1] by {}
        if state.truthful() {
            assert(state.command_ack(required[0]));
            assert forall|i: int| 0 <= i < after.inner.required.len() implies after.command_ack(
                #[trigger] after.inner.required[i],
            ) by {
                assert(state.command_ack(required[i + 1]));
            }
        }
        assert forall|id: nat| id < after.acks.len() implies (#[trigger] after.acks[id as int])
            is Some || after.owned(id) by {
            if state.acks[id as int] is None {
                let i = choose|i: int| 0 <= i < required.len() && (#[trigger] required[i]).id == id;
                if i > 0 {
                    assert(after.inner.required[i - 1].id == id);
                }
            }
        }
    }
}

pub proof fn lemma_publish_observed_wf(
    state: SharedView,
    id: nat,
    result: Result<(), Seq<char>>,
    in_hand: nat,
)
    requires
        state.wf_with(in_hand),
    ensures
        state.with_inner(state.inner.publish_observed(id, result)).wf_with(in_hand),
        state.sound_with(in_hand) && (state.inner.active matches Some(active) ==> (active.id == id
            ==> active.phase is Pending)) ==> state.with_inner(
            state.inner.publish_observed(id, result),
        ).sound_with(in_hand),
{
    let after = state.with_inner(state.inner.publish_observed(id, result));
    assert forall|k: nat| k < after.acks.len() implies (#[trigger] after.acks[k as int]) is Some
        || after.owned(k) by {
        if state.acks[k as int] is None {
            assert(state.owned(k));
            lemma_owned_same(state, after, k);
        }
    }
}

/// Ownership survives when the active record keeps its identity and the deque stays.
proof fn lemma_owned_same(before: SharedView, after: SharedView, id: nat)
    requires
        before.owned(id),
        after.inner.required == before.inner.required,
        before.inner.active matches Some(active) ==> (after.inner.active matches Some(kept)
            && kept.id == active.id),
    ensures
        after.owned(id),
{
}

pub proof fn lemma_prepare_active_wf(state: SharedView, authorized: bool, in_hand: nat)
    requires
        state.wf_with(in_hand),
    ensures
        state.with_inner(state.inner.prepare_active(authorized)).wf_with(in_hand),
        state.sound_with(in_hand)
            ==> state.with_inner(state.inner.prepare_active(authorized)).sound_with(in_hand),
        state.inner.due(authorized) matches Some(delivery) ==> deliverable(
            state.with_inner(state.inner.prepare_active(authorized)),
            delivery,
        ) && result_fits(delivery.result) && delivery.cell == delivery.id && delivery.cell
            < state.acks.len(),
{
    law_bounded_within_cap(ACCEPTED_WRITE_WORKER_UNWIND@);
    let after = state.with_inner(state.inner.prepare_active(authorized));
    if let Some(delivery) = state.inner.due(authorized) {
        let active = state.inner.active.unwrap();
        if let PhaseView::Observed(Err(error)) = active.phase {
            law_bounded_within_cap(error);
        }
        assert(state.truthful() ==> state.active_ack(active));
        assert forall|k: nat| k < after.acks.len() implies (#[trigger] after.acks[k as int])
            is Some || after.owned(k) by {
            if state.acks[k as int] is None {
                assert(state.owned(k));
                lemma_owned_same(state, after, k);
            }
        }
    }
}

/// Whatever is delivered to a cell, the coordinator stays well-formed.
pub proof fn lemma_deliver_wf(state: SharedView, delivery: DeliveryView, in_hand: nat)
    requires
        state.wf_with(in_hand),
        delivery.cell < state.acks.len(),
    ensures
        state.deliver(delivery).wf_with(in_hand),
        observable(state.deliver(delivery).acks, delivery.cell as int),
        state.acks[delivery.cell as int] is None ==> state.deliver(delivery).acks[delivery.cell as int]
            == Some(delivery.result),
{
    let after = state.deliver(delivery);
    assert forall|k: nat| k < after.acks.len() implies (#[trigger] after.acks[k as int]) is Some
        || after.owned(k) by {
        if after.acks[k as int] is None {
            assert(state.acks[k as int] is None);
            lemma_owned_same(state, after, k);
        }
    }
}

/// What is due is delivered truthfully.
pub proof fn lemma_deliver_sound(state: SharedView, delivery: DeliveryView, in_hand: nat)
    requires
        state.sound_with(in_hand),
        deliverable(state, delivery),
    ensures
        state.deliver(delivery).sound_with(in_hand),
        delivery.cell < state.acks.len(),
        state.deliver(delivery).acks[delivery.cell as int] == Some(delivery.result),
{
    let after = state.deliver(delivery);
    let required = state.inner.required;
    let cell = delivery.cell as int;
    if exists|i: int|
        0 <= i < required.len() && retired_for(#[trigger] required[i], delivery) {
        let i = choose|i: int|
            0 <= i < required.len() && retired_for(#[trigger] required[i], delivery);
        assert(state.command_ack(required[i]));
    }
    lemma_deliver_wf(state, delivery, in_hand);
    if state.acks[cell] is None {
        assert forall|k: int| 0 <= k < required.len() implies after.command_ack(
            #[trigger] after.inner.required[k],
        ) by {
            assert(state.command_ack(required[k]));
            if required[k].cell == cell {
                if state.inner.active matches Some(active) && active.id == cell {
                    assert(state.inner.active.unwrap().id < required[k].id);
                } else {
                    let i = choose|i: int|
                        0 <= i < required.len() && retired_for(#[trigger] required[i], delivery);
                    if i < k {
                        assert(required[i].id < required[k].id);
                    } else if k < i {
                        assert(required[k].id < required[i].id);
                    }
                }
            }
        }
        if let Some(active) = state.inner.active {
            assert(state.active_ack(active));
            if exists|i: int|
                0 <= i < required.len() && retired_for(#[trigger] required[i], delivery) {
                let i = choose|i: int|
                    0 <= i < required.len() && retired_for(#[trigger] required[i], delivery);
                assert(active.id < required[i].id);
            }
            assert(after.active_ack(active));
        }
    }
}

pub proof fn lemma_cleanup_active_wf(state: SharedView, id: nat, in_hand: nat)
    requires
        state.wf_with(in_hand),
        observable(state.acks, id as int),
        state.inner.active matches Some(active) ==> (active.id == id ==> active.accounting_applied),
    ensures
        state.with_inner(state.inner.cleanup_active(id)).wf_with(in_hand),
        state.sound_with(in_hand)
            ==> state.with_inner(state.inner.cleanup_active(id)).sound_with(in_hand),
{
    let after = state.with_inner(state.inner.cleanup_active(id));
    if state.inner.active matches Some(active) && active.id == id {
        assert forall|k: nat| k < after.acks.len() implies (#[trigger] after.acks[k as int])
            is Some || after.owned(k) by {
            if state.acks[k as int] is None {
                assert(state.owned(k));
                let i = choose|i: int|
                    0 <= i < state.inner.required.len() && (#[trigger] state.inner.required[i]).id
                        == k;
                assert(after.inner.required[i].id == k);
            }
        }
    }
}

/// Settling keeps the invariant, and with authority it leaves no active record.
pub proof fn lemma_settle_active_wf(state: SharedView, authorized: bool, in_hand: nat)
    requires
        state.wf_with(in_hand),
    ensures
        state.settle_active(authorized).wf_with(in_hand),
        state.sound_with(in_hand) ==> state.settle_active(authorized).sound_with(in_hand),
        authorized ==> state.settle_active(authorized).inner.active is None,
        state.inner.due(authorized) matches Some(delivery) ==> {
            &&& state.settle_active(authorized).inner.active is None
            &&& state.settle_active(authorized).acks == resolved(
                state.acks,
                delivery.cell as int,
                delivery.result,
            )
            &&& state.sound_with(in_hand) ==> state.settle_active(
                authorized,
            ).acks[delivery.cell as int] == Some(delivery.result)
        },
        state.settle_active(authorized).inner.required == state.inner.required,
        state.settle_active(authorized).inner.in_flight == state.inner.in_flight,
        state.settle_active(authorized).inner.periodic == state.inner.periodic,
        state.settle_active(authorized).inner.terminal == state.inner.terminal,
        state.settle_active(authorized).inner.shutdown == state.inner.shutdown,
        state.settle_active(authorized).inner.sealed == state.inner.sealed,
{
    if let Some(delivery) = state.inner.due(authorized) {
        lemma_prepare_active_wf(state, authorized, in_hand);
        let prepared = state.with_inner(state.inner.prepare_active(authorized));
        lemma_deliver_wf(prepared, delivery, in_hand);
        if state.sound_with(in_hand) {
            lemma_deliver_sound(prepared, delivery, in_hand);
        }
        lemma_cleanup_active_wf(prepared.deliver(delivery), delivery.id, in_hand);
    }
}

pub proof fn lemma_retire_queued_wf(state: SharedView, in_hand: nat)
    requires
        state.wf_with(in_hand),
    ensures
        state.with_inner(state.inner.retire_queued()).wf_with(in_hand),
        state.sound_with(in_hand)
            ==> state.with_inner(state.inner.retire_queued()).sound_with(in_hand),
        forall|i: int|
            0 <= i < state.inner.required.len() ==> !(
            #[trigger] state.inner.retire_queued().required[i]).is_queued(),
{
    let after = state.with_inner(state.inner.retire_queued());
    let required = state.inner.required;
    lemma_count_retired(required);
    assert forall|i: int| 0 <= i < required.len() implies (#[trigger] after.inner.required[i])
        == required[i].retired() by {}
    if state.truthful() {
        assert forall|i: int| 0 <= i < after.inner.required.len() implies after.command_ack(
            #[trigger] after.inner.required[i],
        ) by {
            assert(state.command_ack(required[i]));
        }
    }
    assert forall|k: nat| k < after.acks.len() implies (#[trigger] after.acks[k as int]) is Some
        || after.owned(k) by {
        if state.acks[k as int] is None {
            assert(state.owned(k));
            lemma_owned_grows(state, after, k);
        }
    }
    assert(after.identified()) by {
        assert forall|i: int, j: int|
            0 <= i < j < required.len() implies (#[trigger] after.inner.required[i]).id < (
        #[trigger] after.inner.required[j]).id by {
            assert(required[i].id < required[j].id);
        }
    }
}

/// What a retired command is due.
pub open spec fn retired_delivery(command: CommandView) -> DeliveryView {
    DeliveryView {
        id: command.id,
        cell: command.cell,
        result: Err(bounded(command.lifecycle->immutable_error)),
    }
}

/// Deliver the retired command at `i` its own error.
pub open spec fn deliver_retired(state: SharedView, i: int) -> SharedView {
    state.deliver(retired_delivery(state.inner.required[i]))
}

/// Remove the command at `i` from the deque.
pub open spec fn remove_command(state: SharedView, i: int) -> SharedView {
    state.with_inner(
        CoordinatorView { required: state.inner.required.remove(i), ..state.inner },
    )
}

pub proof fn lemma_deliver_retired_wf(state: SharedView, i: int, in_hand: nat)
    requires
        state.wf_with(in_hand),
        0 <= i < state.inner.required.len(),
        !state.inner.required[i].is_queued(),
    ensures
        deliver_retired(state, i).wf_with(in_hand),
        state.sound_with(in_hand) ==> deliver_retired(state, i).sound_with(in_hand),
        observable(deliver_retired(state, i).acks, state.inner.required[i].cell as int),
{
    let delivery = retired_delivery(state.inner.required[i]);
    assert(retired_for(state.inner.required[i], delivery));
    lemma_deliver_wf(state, delivery, in_hand);
    if state.sound_with(in_hand) {
        lemma_deliver_sound(state, delivery, in_hand);
    }
}

pub proof fn lemma_remove_command_wf(state: SharedView, i: int, in_hand: nat)
    requires
        state.wf_with(in_hand),
        0 <= i < state.inner.required.len(),
        !state.inner.required[i].is_queued(),
        observable(state.acks, state.inner.required[i].cell as int),
    ensures
        remove_command(state, i).wf_with(in_hand),
        state.sound_with(in_hand) ==> remove_command(state, i).sound_with(in_hand),
{
    let after = remove_command(state, i);
    let required = state.inner.required;
    lemma_count_remove(required, i);
    assert forall|k: int| 0 <= k < after.inner.required.len() implies (
    #[trigger] after.inner.required[k]) == (if k < i {
        required[k]
    } else {
        required[k + 1]
    }) by {}
    if state.truthful() {
        assert forall|k: int| 0 <= k < after.inner.required.len() implies after.command_ack(
            #[trigger] after.inner.required[k],
        ) by {
            assert(state.command_ack(required[k]));
            assert(state.command_ack(required[k + 1]));
        }
    }
    assert forall|k: nat| k < after.acks.len() implies (#[trigger] after.acks[k as int]) is Some
        || after.owned(k) by {
        if state.acks[k as int] is None {
            assert(state.owned(k));
            if !(state.inner.active matches Some(active) && active.id == k) {
                let j = choose|j: int| 0 <= j < required.len() && (#[trigger] required[j]).id == k;
                if j < i {
                    assert(after.inner.required[j].id == k);
                } else {
                    assert(after.inner.required[j - 1].id == k);
                }
            }
        }
    }
}

/// The position of the first retired command, or the length of the deque.
pub open spec fn first_retired(required: Seq<CommandView>) -> int
    decreases required.len(),
{
    if required.len() == 0 {
        0
    } else if !required[0].is_queued() {
        0
    } else {
        1 + first_retired(required.drop_first())
    }
}

pub proof fn lemma_first_retired(required: Seq<CommandView>)
    ensures
        0 <= first_retired(required) <= required.len(),
        forall|k: int| 0 <= k < first_retired(required) ==> (#[trigger] required[k]).is_queued(),
        first_retired(required) < required.len() ==> !required[first_retired(
            required,
        )].is_queued(),
    decreases required.len(),
{
    if required.len() > 0 && required[0].is_queued() {
        let rest = required.drop_first();
        lemma_first_retired(rest);
        assert forall|k: int| 0 <= k < first_retired(required) implies (
        #[trigger] required[k]).is_queued() by {
            if k > 0 {
                assert(rest[k - 1] == required[k]);
            }
        }
    }
}

/// Delivering and removing the first retired command leaves what is to be resolved.
pub proof fn lemma_resolve_queued_step(state: SharedView, i: int)
    requires
        0 <= i < state.inner.required.len(),
        forall|k: int| 0 <= k < i ==> (#[trigger] state.inner.required[k]).is_queued(),
        !state.inner.required[i].is_queued(),
    ensures
        remove_command(deliver_retired(state, i), i).resolve_queued() == state.resolve_queued(),
{
    lemma_still_queued_remove(state.inner.required, i);
    let immutable_error = state.inner.required[i].lifecycle->immutable_error;
    lemma_all_delivered_remove(state.inner.required, state.acks, i, immutable_error);
}

pub proof fn lemma_resolve_queued_done(state: SharedView)
    requires
        forall|i: int|
            0 <= i < state.inner.required.len() ==> (
            #[trigger] state.inner.required[i]).is_queued(),
    ensures
        state.resolve_queued() == state,
{
    lemma_still_queued_all(state.inner.required);
    lemma_all_delivered_none(state.inner.required, state.acks);
}

pub proof fn lemma_resolve_queued_wf(state: SharedView, in_hand: nat)
    requires
        state.wf_with(in_hand),
    ensures
        state.resolve_queued().wf_with(in_hand),
        state.sound_with(in_hand) ==> state.resolve_queued().sound_with(in_hand),
        (forall|i: int|
            0 <= i < state.inner.required.len() ==> !(
            #[trigger] state.inner.required[i]).is_queued()) ==> state.resolve_queued().inner.required.len()
            == 0,
    decreases state.inner.required.len(),
{
    let required = state.inner.required;
    lemma_first_retired(required);
    let i = first_retired(required);
    if i < required.len() {
        let delivered = deliver_retired(state, i);
        let after = remove_command(delivered, i);
        lemma_deliver_retired_wf(state, i, in_hand);
        lemma_remove_command_wf(delivered, i, in_hand);
        lemma_resolve_queued_step(state, i);
        lemma_resolve_queued_wf(after, in_hand);
        if forall|k: int| 0 <= k < required.len() ==> !(#[trigger] required[k]).is_queued() {
            assert forall|k: int| 0 <= k < after.inner.required.len() implies !(
            #[trigger] after.inner.required[k]).is_queued() by {
                assert(after.inner.required[k] == if k < i {
                    required[k]
                } else {
                    required[k + 1]
                });
            }
        }
    } else {
        lemma_resolve_queued_done(state);
        if required.len() > 0 {
            assert(required[0].is_queued());
        }
    }
}

/// Beginning a write takes over the submission the worker has in hand.
pub proof fn lemma_begin_write_wf(state: SharedView, kind: WriteKind, in_hand: nat)
    requires
        state.wf_with(in_hand + 1),
        state.inner.in_flight is None,
    ensures
        state.with_inner(state.inner.begin_write(kind)).wf_with(in_hand),
        state.sound_with(in_hand + 1)
            ==> state.with_inner(state.inner.begin_write(kind)).sound_with(in_hand),
{
    lemma_acknowledged_same(state, state.with_inner(state.inner.begin_write(kind)));
}

pub proof fn lemma_take_periodic_wf(state: SharedView, in_hand: nat)
    requires
        state.wf_with(in_hand),
    ensures
        state.with_inner(state.inner.take_periodic()).wf_with(
            in_hand + one_if(state.inner.periodic is Some),
        ),
        state.sound_with(in_hand) ==> state.with_inner(state.inner.take_periodic()).sound_with(
            in_hand + one_if(state.inner.periodic is Some),
        ),
{
    lemma_acknowledged_same(state, state.with_inner(state.inner.take_periodic()));
}

pub proof fn lemma_take_terminal_wf(state: SharedView, in_hand: nat)
    requires
        state.wf_with(in_hand),
    ensures
        state.with_inner(state.inner.take_terminal()).wf_with(in_hand),
        state.sound_with(in_hand)
            ==> state.with_inner(state.inner.take_terminal()).sound_with(in_hand),
{
    lemma_acknowledged_same(state, state.with_inner(state.inner.take_terminal()));
}

pub proof fn lemma_begin_terminal_wf(state: SharedView, kind: WriteKind, in_hand: nat)
    requires
        state.wf_with(in_hand),
        state.inner.in_flight is None,
    ensures
        state.with_inner(state.inner.begin_terminal(kind)).wf_with(in_hand),
        state.sound_with(in_hand)
            ==> state.with_inner(state.inner.begin_terminal(kind)).sound_with(in_hand),
{
    lemma_acknowledged_same(state, state.with_inner(state.inner.begin_terminal(kind)));
}

pub proof fn lemma_record_write_wf(
    state: SharedView,
    result: Result<(), Seq<char>>,
    kind: WriteKind,
    in_hand: nat,
)
    requires
        state.wf_with(in_hand),
        state.inner.in_flight is Some,
    ensures
        state.with_inner(state.inner.record_write(result, kind)).wf_with(in_hand),
        state.sound_with(in_hand)
            ==> state.with_inner(state.inner.record_write(result, kind)).sound_with(in_hand),
{
    if let Err(error) = result {
        law_bounded_within_cap(error);
    }
    lemma_acknowledged_same(state, state.with_inner(state.inner.record_write(result, kind)));
}

pub proof fn lemma_set_settlement_error_wf(state: SharedView, error: Seq<char>, in_hand: nat)
    requires
        state.wf_with(in_hand),
    ensures
        state.with_inner(state.inner.set_settlement_error(error)).wf_with(in_hand),
        state.sound_with(in_hand)
            ==> state.with_inner(state.inner.set_settlement_error(error)).sound_with(in_hand),
{
    law_bounded_within_cap(error);
    lemma_acknowledged_same(state, state.with_inner(state.inner.set_settlement_error(error)));
}

pub proof fn lemma_account_in_flight_unwind_wf(state: SharedView, in_hand: nat)
    requires
        state.wf_with(in_hand),
    ensures
        state.with_inner(state.inner.account_in_flight_unwind()).wf_with(in_hand),
        state.sound_with(in_hand)
            ==> state.with_inner(state.inner.account_in_flight_unwind()).sound_with(in_hand),
{
    if let Some(kind) = state.inner.in_flight {
        lemma_record_write_wf(state, Err(STATUS_WORKER_PANIC@), kind, in_hand);
    }
}

pub proof fn lemma_retire_pending_periodic_wf(state: SharedView, in_hand: nat)
    requires
        state.wf_with(in_hand),
    ensures
        state.with_inner(state.inner.retire_pending_periodic()).wf_with(in_hand),
        state.sound_with(in_hand)
            ==> state.with_inner(state.inner.retire_pending_periodic()).sound_with(in_hand),
{
    lemma_acknowledged_same(state, state.with_inner(state.inner.retire_pending_periodic()));
}

pub proof fn lemma_retire_pending_terminal_wf(state: SharedView, in_hand: nat)
    requires
        state.wf_with(in_hand),
    ensures
        state.with_inner(state.inner.retire_pending_terminal()).wf_with(in_hand),
        state.sound_with(in_hand)
            ==> state.with_inner(state.inner.retire_pending_terminal()).sound_with(in_hand),
{
    lemma_acknowledged_same(state, state.with_inner(state.inner.retire_pending_terminal()));
}

pub proof fn lemma_shut_wf(state: SharedView, in_hand: nat)
    requires
        state.wf_with(in_hand),
    ensures
        state.with_inner(state.inner.shut()).wf_with(in_hand),
        state.sound_with(in_hand) ==> state.with_inner(state.inner.shut()).sound_with(in_hand),
{
    lemma_acknowledged_same(state, state.with_inner(state.inner.shut()));
}

/// Reconciliation keeps the invariant and leaves nothing but a terminal status.
pub proof fn lemma_reconcile_abandoned_wf(state: SharedView, in_hand: nat)
    requires
        state.wf_with(in_hand),
    ensures
        state.reconcile_abandoned().wf_with(in_hand),
        state.sound_with(in_hand) ==> state.reconcile_abandoned().sound_with(in_hand),
        state.reconcile_abandoned().drained(),
        state.reconcile_abandoned().inner.shutdown,
        state.reconcile_abandoned().inner.terminal == state.inner.terminal,
        state.reconcile_abandoned().inner.sealed == state.inner.sealed,
{
    let shut = state.with_inner(state.inner.shut());
    lemma_shut_wf(state, in_hand);
    let accounted = shut.with_inner(shut.inner.account_in_flight_unwind());
    lemma_account_in_flight_unwind_wf(shut, in_hand);
    assert(accounted == state.with_inner(state.inner.shut().account_in_flight_unwind()));
    let settled = accounted.settle_active(true);
    lemma_settle_active_wf(accounted, true, in_hand);
    let retired = settled.with_inner(settled.inner.retire_queued());
    lemma_retire_queued_wf(settled, in_hand);
    let resolved_all = retired.resolve_queued();
    lemma_resolve_queued_wf(retired, in_hand);
    lemma_retire_pending_periodic_wf(resolved_all, in_hand);
}

} // verus!
