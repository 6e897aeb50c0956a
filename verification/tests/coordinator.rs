//! Transitions of the coordinator's shared state, driven one at a time.

use transcript_pump::ack::{RequiredAckResolver, RequiredAckWaiter};
use transcript_pump::coordinator::{
    AbandonmentAuthority, ActivePhase, QueuedLifecycle, RequiredCommand, RequiredCommandId,
    SharedStatusState, Work, COORDINATOR_SHUT_DOWN,
};
use transcript_pump::coordinator_model::{
    WriteKind, ACCEPTED_WRITE_WORKER_UNWIND, QUEUED_REQUIRED_DISCONNECT, STATUS_WORKER_PANIC,
};
use transcript_pump::status::{
    build_status, PumpState, PumpStatus, PumpSummary, StatusTransportDiagnostics,
    TerminalStatusSpec,
};

fn running_status() -> PumpStatus {
    build_status(
        PumpState::Running,
        0,
        0,
        &PumpSummary::default(),
        None,
        None,
        StatusTransportDiagnostics::default(),
    )
}

fn numbered_status(records: u64) -> PumpStatus {
    let mut status = running_status();
    status.records = records;
    status
}

/// Enqueue a required command directly, returning its id and the submitter's waiter.
fn test_enqueue_required(
    shared: &mut SharedStatusState,
    status: PumpStatus,
) -> (RequiredCommandId, RequiredAckWaiter) {
    let id = RequiredCommandId(shared.inner.next_command_id);
    let waiter = shared
        .enqueue_required(status)
        .expect("the coordinator is open");
    (id, waiter)
}

/// Enqueue a required command already retired with a chosen error, its disconnected
/// accounting applied once.
fn test_enqueue_resolving(
    shared: &mut SharedStatusState,
    status: PumpStatus,
    immutable_error: &'static str,
) -> (RequiredCommandId, RequiredAckWaiter) {
    let (resolver, waiter) = shared.acks.new_ack();
    shared.inner.diagnostics.submitted += 1;
    shared.inner.diagnostics.disconnected += 1;
    let id = RequiredCommandId(shared.inner.next_command_id);
    shared.inner.next_command_id += 1;
    shared.inner.required.push_back(RequiredCommand {
        id,
        status,
        resolver,
        lifecycle: QueuedLifecycle::Resolving { immutable_error },
    });
    (id, waiter)
}

fn test_resolving_resolvers(
    shared: &SharedStatusState,
) -> Vec<(RequiredCommandId, RequiredAckResolver)> {
    shared
        .inner
        .required
        .iter()
        .filter(|e| matches!(e.lifecycle, QueuedLifecycle::Resolving { .. }))
        .map(|e| (e.id, e.resolver))
        .collect()
}

fn test_active_resolver(shared: &SharedStatusState) -> Option<RequiredAckResolver> {
    shared.inner.active_required.as_ref().map(|a| a.resolver)
}

fn is_pending(shared: &SharedStatusState) -> bool {
    matches!(
        shared.inner.active_required.as_ref().map(|a| &a.phase),
        Some(ActivePhase::Pending)
    )
}

fn tuple(d: &StatusTransportDiagnostics) -> (u64, u64, u64, u64, u64, u64) {
    (
        d.submitted,
        d.written,
        d.coalesced,
        d.dropped,
        d.disconnected,
        d.write_failures,
    )
}

#[test]
fn required_acceptance_atomically_moves_ack_from_queue_to_active() {
    let mut shared = SharedStatusState::new();
    let (id, waiter) = test_enqueue_required(&mut shared, running_status());

    assert_eq!(shared.inner.required.len(), 1, "the command is queued");
    assert!(
        shared.inner.active_required.is_none(),
        "nothing is active yet"
    );

    let accepted = shared
        .accept_next_required()
        .expect("the queued required command is accepted");
    assert_eq!(accepted.id, id, "the exact queued command is accepted");

    assert!(
        shared.inner.required.is_empty(),
        "the command left the FIFO"
    );
    let active = shared
        .inner
        .active_required
        .as_ref()
        .expect("its resolver is now the active record");
    assert_eq!(active.id, id, "the exact command is active");
    assert!(
        matches!(active.phase, ActivePhase::Pending),
        "the accepted write is Accepted/Pending"
    );
    assert_eq!(
        accepted.status.transport.written, 1,
        "the accepted status carries a self-consistent projected accounting"
    );

    let resolver = test_active_resolver(&shared).expect("an active resolver");
    resolver.resolve_once(&mut shared.acks, Ok(()));
    assert_eq!(
        waiter.wait(&shared.acks),
        Ok(()),
        "the moved resolver wakes the exact submitter"
    );

    assert!(
        shared.accept_next_required().is_none(),
        "no second required is selected while one is active"
    );
}

#[test]
fn pending_accepted_write_unwind_resolves_once_as_write_failure() {
    let mut shared = SharedStatusState::new();
    let (_id, waiter) = test_enqueue_required(&mut shared, running_status());
    shared.accept_next_required().expect("accepted");

    let authority = AbandonmentAuthority::assume_worker_abandoned();
    shared.settle_active(Some(&authority));

    let result = waiter.wait(&shared.acks);
    let err = result.expect_err("a Pending unwind resolves as a failure");
    assert!(
        err.contains("panicked"),
        "the caller's one-shot carries the accepted-write worker-unwind diagnostic: {err}"
    );
    assert_eq!(err, ACCEPTED_WRITE_WORKER_UNWIND);

    let d = shared.diagnostics();
    assert_eq!(
        d.write_failures, 1,
        "counted once as a write failure: {d:?}"
    );
    assert_eq!(d.written, 0, "no store result was invented: {d:?}");
    assert_eq!(d.disconnected, 0, "not disconnected: {d:?}");
    assert!(
        d.last_error
            .as_deref()
            .is_some_and(|e| e.contains("panicked")),
        "the unwind is the transport last_error: {d:?}"
    );
    assert!(
        shared.inner.active_required.is_none(),
        "the record is cleaned after its one-shot is observable"
    );

    shared.settle_active(Some(&authority));
    let d = shared.diagnostics();
    assert_eq!(
        d.write_failures, 1,
        "still exactly one write failure: {d:?}"
    );
}

#[test]
fn live_worker_pending_result_cannot_be_synthesized_by_direct_reconcile() {
    let mut shared = SharedStatusState::new();
    let (id, waiter) = test_enqueue_required(&mut shared, running_status());
    shared.accept_next_required().expect("accepted");
    assert!(is_pending(&shared));

    shared.settle_active(None);
    shared.settle_active(None);
    assert!(
        shared.prepare_active(None).is_none(),
        "prepare without authority never synthesizes a Pending result"
    );
    let resolver = test_active_resolver(&shared).expect("still active and owned");
    assert!(
        !resolver.is_observable(&shared.acks),
        "the live worker's one-shot is not resolved by an unauthorized reconcile"
    );
    assert!(is_pending(&shared));
    let d = shared.diagnostics();
    assert_eq!((d.written, d.write_failures, d.disconnected), (0, 0, 0));

    shared.publish_observed(id, Ok(()));
    shared.settle_active(None);
    assert_eq!(
        waiter.wait(&shared.acks),
        Ok(()),
        "the exact real store success wins, not an invented unwind"
    );
    assert!(shared.diagnostics().is_balanced());
    assert!(shared.is_quiescent(), "settlement is quiescent");
}

#[test]
fn shutdown_refuses_required_acceptance() {
    let mut shared = SharedStatusState::new();
    let (id, waiter) = test_enqueue_required(&mut shared, running_status());

    shared.inner.shutdown = true;

    assert!(
        shared.accept_next_required().is_none(),
        "acceptance refuses a queued entry after shutdown"
    );

    assert_eq!(
        shared.inner.required.len(),
        1,
        "the entry stays in the shared deque"
    );
    let front = shared
        .inner
        .required
        .front()
        .expect("the entry is still owned");
    assert_eq!(front.id, id, "the same identity is owned by the queue");
    assert!(
        matches!(front.lifecycle, QueuedLifecycle::Queued),
        "shutdown does not itself retire the entry"
    );
    assert!(
        shared.inner.active_required.is_none(),
        "nothing was moved to an active write"
    );
    assert!(
        !waiter.is_observable(&shared.acks),
        "the queued waiter stays unresolved while it remains shared"
    );

    let authority = AbandonmentAuthority::assume_worker_abandoned();
    shared.reconcile_abandoned(&authority);
    assert_eq!(
        waiter
            .wait(&shared.acks)
            .expect_err("the queued submitter is resolved disconnected"),
        QUEUED_REQUIRED_DISCONNECT,
        "authorized reconciliation delivers exactly the disconnected result"
    );

    let d = shared.diagnostics();
    assert_eq!(
        tuple(&d),
        (1, 0, 0, 0, 1, 0),
        "the exact shutdown-disconnect diagnostic tuple: {d:?}"
    );
    assert!(d.is_balanced(), "diagnostics balance independently: {d:?}");
    assert!(
        shared.is_quiescent(),
        "shared state is quiescent after reconciliation"
    );
}

#[test]
fn active_and_queued_required_writes_reconcile_distinctly() {
    let mut shared = SharedStatusState::new();
    let (_active_id, active_waiter) = test_enqueue_required(&mut shared, running_status());
    shared.accept_next_required().expect("active accepted");
    let (_queued_id, queued_waiter) = test_enqueue_required(&mut shared, running_status());

    shared.settle_active(None);
    shared.resolve_queued();
    assert!(is_pending(&shared), "the active write is still Pending");
    assert_eq!(
        shared.inner.required.len(),
        1,
        "the queued command is still queued"
    );
    assert!(
        shared
            .inner
            .required
            .iter()
            .all(|e| matches!(e.lifecycle, QueuedLifecycle::Queued)),
        "an unauthorized reconcile never retires a queued command"
    );

    let authority = AbandonmentAuthority::assume_worker_abandoned();
    shared.reconcile_abandoned(&authority);

    let active_result = active_waiter
        .wait(&shared.acks)
        .expect_err("active resolves to a failure");
    let queued_result = queued_waiter
        .wait(&shared.acks)
        .expect_err("queued resolves disconnected");
    assert!(
        active_result.contains("before acknowledging an accepted required write"),
        "the active caller gets the accepted-write unwind diagnostic: {active_result}"
    );
    assert!(
        queued_result.contains("disconnected"),
        "the queued caller gets the disconnected diagnostic: {queued_result}"
    );
    assert_ne!(
        active_result, queued_result,
        "no diagnostic crosses between the active and queued callers"
    );

    let d = shared.diagnostics();
    assert_eq!(d.write_failures, 1, "one active write failure: {d:?}");
    assert_eq!(d.disconnected, 1, "one queued disconnect: {d:?}");
    assert!(shared.is_quiescent(), "settlement is quiescent: {d:?}");
}

#[test]
fn observed_required_store_error_survives_unwind_before_ack() {
    let mut shared = SharedStatusState::new();
    let (_id, waiter) = test_enqueue_required(&mut shared, running_status());
    let accepted = shared.accept_next_required().expect("accepted");

    shared.publish_observed(accepted.id, Err("exact store boom".to_string()));

    let authority = AbandonmentAuthority::assume_worker_abandoned();
    shared.reconcile_abandoned(&authority);

    let err = waiter
        .wait(&shared.acks)
        .expect_err("the caller keeps the store error");
    assert_eq!(err, "exact store boom", "the exact observed error survives");
    assert!(
        !err.contains("panicked"),
        "a generic worker-unwind diagnostic never replaces the observed error: {err}"
    );
    let d = shared.diagnostics();
    assert_eq!(d.write_failures, 1, "one write failure: {d:?}");
    assert_eq!(
        d.last_error.as_deref(),
        Some("exact store boom"),
        "the transport last_error keeps the exact error: {d:?}"
    );
}

#[test]
fn observed_required_success_survives_unwind_before_ack() {
    let mut shared = SharedStatusState::new();
    let (_id, waiter) = test_enqueue_required(&mut shared, running_status());
    let accepted = shared.accept_next_required().expect("accepted");
    shared.publish_observed(accepted.id, Ok(()));

    let authority = AbandonmentAuthority::assume_worker_abandoned();
    shared.reconcile_abandoned(&authority);

    assert_eq!(
        waiter.wait(&shared.acks),
        Ok(()),
        "observed success stays success"
    );
    let d = shared.diagnostics();
    assert_eq!(d.written, 1, "counted once as written: {d:?}");
    assert_eq!(d.write_failures, 0, "no write failure: {d:?}");
}

#[test]
fn observed_required_results_resolve_exactly_once() {
    for (observed, expect_written, expect_failures) in
        [(Ok(()), 1u64, 0u64), (Err("boom".to_string()), 0u64, 1u64)]
    {
        let mut shared = SharedStatusState::new();
        let (_id, waiter) = test_enqueue_required(&mut shared, running_status());
        let accepted = shared.accept_next_required().expect("accepted");
        shared.publish_observed(accepted.id, observed.clone());

        shared.settle_active(None);
        shared.settle_active(None);
        let authority = AbandonmentAuthority::assume_worker_abandoned();
        shared.settle_active(Some(&authority));

        match &observed {
            Ok(()) => assert_eq!(waiter.wait(&shared.acks), Ok(()), "success resolves once"),
            Err(e) => assert_eq!(
                waiter
                    .wait(&shared.acks)
                    .expect_err("failure resolves once"),
                *e,
                "the exact error resolves once"
            ),
        }
        let d = shared.diagnostics();
        assert_eq!(d.written, expect_written, "written once: {d:?}");
        assert_eq!(d.write_failures, expect_failures, "failure once: {d:?}");
        assert!(
            shared.inner.active_required.is_none(),
            "the record is cleaned after its result is observable"
        );
    }
}

#[test]
fn resolved_active_record_remains_recoverable_until_matching_cleanup() {
    let mut shared = SharedStatusState::new();
    let (_id, waiter) = test_enqueue_required(&mut shared, running_status());
    let accepted = shared.accept_next_required().expect("accepted");
    let id = accepted.id;
    shared.publish_observed(id, Ok(()));

    let (prepared_id, resolver, result) = shared.prepare_active(None).expect("prepared");
    assert_eq!(prepared_id, id);
    let active = shared
        .inner
        .active_required
        .as_ref()
        .expect("still recoverable");
    assert!(matches!(active.phase, ActivePhase::Prepared { .. }));
    assert!(
        !resolver.is_observable(&shared.acks),
        "Accepted/Prepared: the one-shot is not yet observable"
    );

    resolver.resolve_once(&mut shared.acks, result);
    assert!(
        resolver.is_observable(&shared.acks),
        "the one-shot is now observable"
    );
    assert!(
        shared.inner.active_required.is_some(),
        "Resolved/Retiring: the record is recoverable until matching cleanup"
    );

    shared.cleanup_active_if_observable(RequiredCommandId(9999), true);
    assert!(
        shared.inner.active_required.is_some(),
        "cleanup targets one exact identity"
    );
    shared.cleanup_active_if_observable(id, false);
    assert!(
        shared.inner.active_required.is_some(),
        "an unobservable result is never cleaned"
    );

    shared.cleanup_active_if_observable(id, true);
    assert!(
        shared.inner.active_required.is_none(),
        "matching cleanup transitions Resolved/Retiring to cleaned"
    );
    assert_eq!(
        waiter.wait(&shared.acks),
        Ok(()),
        "the submitter observed its result"
    );
}

#[test]
fn active_prepared_unwind_resumes_exact_result_once() {
    let mut shared = SharedStatusState::new();
    let (_id, waiter) = test_enqueue_required(&mut shared, running_status());
    let accepted = shared.accept_next_required().expect("accepted");
    shared.publish_observed(accepted.id, Err("exact active boom".to_string()));

    // A settler that got as far as the prepared boundary and no further.
    assert!(shared.prepare_active(None).is_some());
    let active = shared
        .inner
        .active_required
        .as_ref()
        .expect("still recoverable");
    assert_eq!(active.id, accepted.id, "the same identity is recoverable");
    assert!(matches!(active.phase, ActivePhase::Prepared { .. }));
    let resolver = test_active_resolver(&shared).expect("still owned");
    assert!(!resolver.is_observable(&shared.acks));
    assert_eq!(
        shared.diagnostics().write_failures,
        1,
        "accounting applied once"
    );

    shared.settle_active(None);
    assert_eq!(
        waiter
            .wait(&shared.acks)
            .expect_err("resumes to the exact result"),
        "exact active boom",
        "the resumed settler delivers the exact result, never a replacement"
    );
    let d = shared.diagnostics();
    assert_eq!(d.write_failures, 1, "no re-accounting on resume: {d:?}");
    assert_eq!(d.written, 0, "no success invented: {d:?}");
    assert!(shared.inner.active_required.is_none());
    assert!(d.is_balanced(), "diagnostics balance independently: {d:?}");
    assert!(shared.is_quiescent());
}

#[test]
fn active_prepared_concurrent_settler_converges() {
    let mut shared = SharedStatusState::new();
    let (_id, waiter) = test_enqueue_required(&mut shared, running_status());
    let accepted = shared.accept_next_required().expect("accepted");
    shared.publish_observed(accepted.id, Err("converge boom".to_string()));

    // Every settler reaches the prepared boundary before any resolves.
    let mut held = Vec::new();
    for _ in 0..6 {
        held.push(shared.prepare_active(None).expect("prepared"));
    }
    for (id, resolver, result) in held {
        resolver.resolve_once(&mut shared.acks, result);
        let observable = resolver.is_observable(&shared.acks);
        shared.cleanup_active_if_observable(id, observable);
    }

    assert_eq!(
        waiter.wait(&shared.acks).expect_err("resolves once"),
        "converge boom",
        "every settler converges on the one exact result"
    );
    let d = shared.diagnostics();
    assert_eq!(
        d.write_failures, 1,
        "accounting applied exactly once: {d:?}"
    );
    assert_eq!(d.written, 0, "no success invented: {d:?}");
    assert!(shared.inner.active_required.is_none());
    assert!(d.is_balanced());
    assert!(shared.is_quiescent());
}

#[test]
fn active_retiring_unwind_resumes_without_replacement() {
    let mut shared = SharedStatusState::new();
    let (_id, waiter) = test_enqueue_required(&mut shared, running_status());
    let accepted = shared.accept_next_required().expect("accepted");
    shared.publish_observed(accepted.id, Err("retiring boom".to_string()));

    // A settler that resolved the one-shot but did not clean up.
    let (_id, resolver, result) = shared.prepare_active(None).expect("prepared");
    resolver.resolve_once(&mut shared.acks, result);
    assert!(resolver.is_observable(&shared.acks));
    assert!(shared.inner.active_required.is_some());

    shared.settle_active(None);
    assert_eq!(
        waiter
            .wait(&shared.acks)
            .expect_err("keeps the delivered result"),
        "retiring boom",
        "the resumed settler never replaces the delivered result"
    );
    let d = shared.diagnostics();
    assert_eq!(d.write_failures, 1, "no re-accounting on resume: {d:?}");
    assert!(shared.inner.active_required.is_none());
    assert!(d.is_balanced());
    assert!(shared.is_quiescent());
}

#[test]
fn active_retiring_concurrent_cleanup_targets_one_id() {
    let mut shared = SharedStatusState::new();
    let (_id, waiter) = test_enqueue_required(&mut shared, running_status());
    let accepted = shared.accept_next_required().expect("accepted");
    shared.publish_observed(accepted.id, Ok(()));

    // Every settler reaches the retiring boundary before any cleans up.
    let mut held = Vec::new();
    for _ in 0..6 {
        let (id, resolver, result) = shared.prepare_active(None).expect("prepared");
        resolver.resolve_once(&mut shared.acks, result);
        held.push((id, resolver.is_observable(&shared.acks)));
    }
    for (id, observable) in held {
        shared.cleanup_active_if_observable(id, observable);
    }

    assert_eq!(waiter.wait(&shared.acks), Ok(()));
    let d = shared.diagnostics();
    assert_eq!(d.written, 1, "accounting applied exactly once: {d:?}");
    assert_eq!(d.write_failures, 0, "no failure invented: {d:?}");
    assert!(shared.inner.active_required.is_none());
    assert!(d.is_balanced());
    assert!(shared.is_quiescent());
}

#[test]
fn pending_reconciliation_requires_worker_abandonment_authority() {
    let mut shared = SharedStatusState::new();
    let (_id, waiter) = test_enqueue_required(&mut shared, running_status());
    shared.accept_next_required().expect("accepted");

    shared.settle_active(None);
    let resolver = test_active_resolver(&shared).expect("still owned");
    assert!(
        !resolver.is_observable(&shared.acks),
        "Pending stays unresolved"
    );
    let d = shared.diagnostics();
    assert_eq!(
        (d.written, d.write_failures),
        (0, 0),
        "no accounting: {d:?}"
    );

    let authority = AbandonmentAuthority::assume_worker_abandoned();
    shared.settle_active(Some(&authority));
    assert!(
        waiter.wait(&shared.acks).is_err(),
        "authorized reconciliation resolves the pending write"
    );
    assert_eq!(shared.diagnostics().write_failures, 1);
}

#[test]
fn concurrent_reconciliation_resolves_active_ack_once() {
    let mut shared = SharedStatusState::new();
    let (_id, waiter) = test_enqueue_required(&mut shared, running_status());
    shared.accept_next_required().expect("accepted");

    let authority = AbandonmentAuthority::assume_worker_abandoned();
    let mut held = Vec::new();
    for _ in 0..8 {
        held.push(shared.prepare_active(Some(&authority)).expect("prepared"));
    }
    for (id, resolver, result) in held {
        resolver.resolve_once(&mut shared.acks, result);
        let observable = resolver.is_observable(&shared.acks);
        shared.cleanup_active_if_observable(id, observable);
    }

    assert!(
        waiter.wait(&shared.acks).is_err(),
        "the one-shot resolves exactly once"
    );
    let d = shared.diagnostics();
    assert_eq!(d.write_failures, 1, "accounting applied once: {d:?}");
    assert_eq!(d.written, 0, "no success invented: {d:?}");
    assert!(shared.inner.active_required.is_none());
}

#[test]
fn worker_termination_preserves_each_required_ack_identity_and_accounting() {
    let mut shared = SharedStatusState::new();

    let (_a, active_waiter) = test_enqueue_required(&mut shared, running_status());
    let active = shared.accept_next_required().expect("active accepted");
    shared.publish_observed(active.id, Err("active boom".to_string()));

    let (b_id, b_wait) = test_enqueue_required(&mut shared, running_status());
    let (c_id, c_wait) = test_enqueue_required(&mut shared, running_status());
    let (d_id, d_wait) = test_enqueue_required(&mut shared, running_status());

    let authority = AbandonmentAuthority::assume_worker_abandoned();
    shared.settle_active(Some(&authority));
    assert_eq!(
        active_waiter
            .wait(&shared.acks)
            .expect_err("active keeps its own error"),
        "active boom",
        "the active caller keeps its own observed error, not a disconnect"
    );

    shared.retire_queued(&authority);
    let resolvers = test_resolving_resolvers(&shared);
    assert_eq!(
        resolvers.len(),
        3,
        "all queued retired in place to Resolving"
    );
    let ids: Vec<_> = resolvers.iter().map(|(id, _)| *id).collect();
    assert!(
        ids.contains(&b_id) && ids.contains(&c_id) && ids.contains(&d_id),
        "each stable command identity is preserved in shared ownership"
    );
    for (_, r) in &resolvers {
        assert!(
            !r.is_observable(&shared.acks),
            "no one-shot resolves before delivery"
        );
    }
    let d = shared.diagnostics();
    assert_eq!(
        d.disconnected, 3,
        "disconnected accounting applied once: {d:?}"
    );

    shared.resolve_queued();
    assert!(b_wait.wait(&shared.acks).is_err(), "queued b resolves");
    assert!(c_wait.wait(&shared.acks).is_err(), "queued c resolves");
    assert!(d_wait.wait(&shared.acks).is_err(), "queued d resolves");

    let d = shared.diagnostics();
    assert_eq!(d.write_failures, 1, "one active write failure: {d:?}");
    assert_eq!(d.disconnected, 3, "three queued disconnects: {d:?}");
    assert!(d.is_balanced(), "balanced: {d:?}");
    assert!(shared.is_quiescent(), "settlement is quiescent");
}

#[test]
fn queued_resolvers_remain_shared_across_pre_delivery_unwind() {
    let mut shared = SharedStatusState::new();
    let (_b, b_wait) = test_enqueue_required(&mut shared, running_status());
    let (_c, c_wait) = test_enqueue_required(&mut shared, running_status());

    let authority = AbandonmentAuthority::assume_worker_abandoned();
    shared.retire_queued(&authority);

    let resolvers = test_resolving_resolvers(&shared);
    assert_eq!(
        resolvers.len(),
        2,
        "both resolvers stay in shared ownership"
    );
    for (_, r) in &resolvers {
        assert!(
            !r.is_observable(&shared.acks),
            "no resolver was lost to (or resolved by) a local vector"
        );
    }

    shared.resolve_queued();
    assert!(b_wait.wait(&shared.acks).is_err(), "b resumes to disconnect");
    assert!(c_wait.wait(&shared.acks).is_err(), "c resumes to disconnect");
    assert!(shared.is_quiescent(), "quiescent after resume");
}

#[test]
fn queued_resolution_resumes_after_one_delivery_without_loss_or_swap() {
    let mut shared = SharedStatusState::new();
    let (b_id, b_wait) = test_enqueue_required(&mut shared, running_status());
    let (_c, c_wait) = test_enqueue_required(&mut shared, running_status());

    let authority = AbandonmentAuthority::assume_worker_abandoned();
    shared.retire_queued(&authority);

    let resolvers = test_resolving_resolvers(&shared);
    assert_eq!(
        resolvers[0].0, b_id,
        "the first shared entry is FIFO-first (b)"
    );
    resolvers[0]
        .1
        .resolve_once(&mut shared.acks, Err("x".to_string()));
    assert!(
        resolvers[0].1.is_observable(&shared.acks),
        "b's one-shot is observable"
    );
    assert!(
        !resolvers[1].1.is_observable(&shared.acks),
        "c is not yet resolved"
    );
    assert_eq!(
        test_resolving_resolvers(&shared).len(),
        2,
        "both entries remain shared until matching cleanup"
    );

    shared.resolve_queued();
    assert_eq!(
        b_wait.wait(&shared.acks),
        Err("x".to_string()),
        "b keeps its own delivered result"
    );
    assert!(c_wait.wait(&shared.acks).is_err(), "c resumes without loss");
    assert!(shared.is_quiescent(), "quiescent after resume");
}

#[test]
fn retirement_is_in_place_and_counted_once() {
    let mut shared = SharedStatusState::new();
    let (_b, b_wait) = test_enqueue_required(&mut shared, running_status());
    let (_c, c_wait) = test_enqueue_required(&mut shared, running_status());
    let (_d, d_wait) = test_enqueue_required(&mut shared, running_status());

    // A reconciler that unwound before the retirement left everything as it was.
    assert!(!shared.inner.shutdown);
    assert_eq!(shared.inner.required.len(), 3);
    assert_eq!(shared.inner.diagnostics.disconnected, 0);
    for waiter in [&b_wait, &c_wait, &d_wait] {
        assert!(!waiter.is_observable(&shared.acks));
    }

    let authority = AbandonmentAuthority::assume_worker_abandoned();
    shared.retire_queued(&authority);
    assert!(shared.inner.shutdown, "the resumed commit shut the FIFO");
    assert_eq!(
        shared.inner.diagnostics.disconnected, 3,
        "each entry accounted disconnected exactly once on resume"
    );
    assert!(
        shared.inner.required.iter().all(|e| matches!(
            e.lifecycle,
            QueuedLifecycle::Resolving { immutable_error }
                if immutable_error == QUEUED_REQUIRED_DISCONNECT
        )),
        "every entry retired in place to Resolving with the static disconnect error"
    );
    // A repeated retirement changes nothing.
    shared.retire_queued(&authority);
    assert_eq!(shared.inner.diagnostics.disconnected, 3);

    shared.resolve_queued();
    for waiter in [b_wait, c_wait, d_wait] {
        assert_eq!(
            waiter.wait(&shared.acks).expect_err("resolves"),
            QUEUED_REQUIRED_DISCONNECT
        );
    }
    let d = shared.diagnostics();
    assert!(d.is_balanced(), "diagnostics balance independently: {d:?}");
    assert!(shared.is_quiescent(), "quiescent after resume");
}

#[test]
fn queued_resolution_resumes_after_one_without_result_swap() {
    const ERR_A: &str = "persist pump status: queued disconnect A";
    const ERR_B: &str = "persist pump status: queued disconnect B";

    // Two reconcilers select the same identity before either cleans it.
    {
        let mut shared = SharedStatusState::new();
        let (a_id, a_wait) = test_enqueue_resolving(&mut shared, running_status(), ERR_A);
        let (b_id, b_wait) = test_enqueue_resolving(&mut shared, running_status(), ERR_B);

        for expected in [a_id, b_id] {
            let first = shared.select_resolving().expect("selected");
            let second = shared.select_resolving().expect("selected");
            assert_eq!(first.0, expected);
            assert_eq!(second.0, expected);
            for (id, resolver, error) in [first, second] {
                resolver.resolve_once(&mut shared.acks, Err(error.to_string()));
                let observable = resolver.is_observable(&shared.acks);
                shared.cleanup_resolving_if_observable(id, observable);
            }
        }
        assert!(shared.select_resolving().is_none());

        assert_eq!(a_wait.wait(&shared.acks).expect_err("a resolves"), ERR_A);
        assert_eq!(b_wait.wait(&shared.acks).expect_err("b resolves"), ERR_B);
        let d = shared.diagnostics();
        assert_eq!(
            d.disconnected, 2,
            "disconnected accounting applied once per entry: {d:?}"
        );
        assert!(d.is_balanced());
        assert!(shared.is_quiescent());
    }

    // A reconciler unwinds after one result became observable, before cleanup.
    {
        let mut shared = SharedStatusState::new();
        let (_a, a_wait) = test_enqueue_resolving(&mut shared, running_status(), ERR_A);
        let (_b, b_wait) = test_enqueue_resolving(&mut shared, running_status(), ERR_B);

        let (_, resolver, error) = shared.select_resolving().expect("selected");
        resolver.resolve_once(&mut shared.acks, Err(error.to_string()));
        assert_eq!(test_resolving_resolvers(&shared).len(), 2);

        shared.resolve_queued();
        assert_eq!(a_wait.wait(&shared.acks).expect_err("a resumes"), ERR_A);
        assert_eq!(b_wait.wait(&shared.acks).expect_err("b resumes"), ERR_B);
        let d = shared.diagnostics();
        assert_eq!(d.disconnected, 2);
        assert!(d.is_balanced());
        assert!(shared.is_quiescent());
    }

    // Ordinary retirement fixes exactly the disconnected result for every entry.
    {
        let mut shared = SharedStatusState::new();
        let (_p, p_wait) = test_enqueue_required(&mut shared, running_status());
        let (_q, q_wait) = test_enqueue_required(&mut shared, running_status());
        let authority = AbandonmentAuthority::assume_worker_abandoned();
        shared.retire_queued(&authority);
        assert_eq!(shared.inner.diagnostics.disconnected, 2);
        shared.resolve_queued();
        assert_eq!(
            p_wait.wait(&shared.acks).expect_err("p resolves"),
            QUEUED_REQUIRED_DISCONNECT
        );
        assert_eq!(
            q_wait.wait(&shared.acks).expect_err("q resolves"),
            QUEUED_REQUIRED_DISCONNECT
        );
        assert!(shared.diagnostics().is_balanced());
        assert!(shared.is_quiescent());
    }
}

#[test]
fn resolution_fixes_the_first_result_only() {
    let mut shared = SharedStatusState::new();
    let (resolver, waiter) = shared.acks.new_ack();
    let (_, other) = shared.acks.new_ack();
    assert!(!waiter.is_observable(&shared.acks));
    resolver.resolve_once(&mut shared.acks, Err("first".to_string()));
    resolver.resolve_once(&mut shared.acks, Ok(()));
    assert_eq!(waiter.wait(&shared.acks), Err("first".to_string()));
    assert!(
        !other.is_observable(&shared.acks),
        "another cell is untouched"
    );
}

#[test]
fn work_is_taken_in_order_required_periodic_terminal() {
    let mut shared = SharedStatusState::new();
    shared.begin_finish(TerminalStatusSpec::complete(7, PumpSummary::default()));
    shared.inner.sealed = false;
    assert!(shared.submit_periodic(numbered_status(5)));
    let (first, _) = test_enqueue_required(&mut shared, numbered_status(1));

    match shared.next_work() {
        Work::Required(accepted) => {
            assert_eq!(accepted.id, first);
            assert_eq!(accepted.status.records, 1);
            assert_eq!(accepted.status.transport.submitted, 2);
            assert_eq!(accepted.status.transport.written, 1);
            shared.publish_observed(accepted.id, Ok(()));
            shared.settle_active(None);
        }
        other => panic!("a required status comes first: {other:?}"),
    }
    match shared.next_work() {
        Work::Periodic(status) => assert_eq!(status.records, 5),
        other => panic!("then the snapshot: {other:?}"),
    }
    match shared.next_work() {
        Work::Terminal(terminal) => assert_eq!(terminal.started_at_ms, 7),
        other => panic!("then the terminal: {other:?}"),
    }
    assert!(matches!(shared.next_work(), Work::Idle));
}

#[test]
fn a_retired_front_command_is_never_accepted() {
    let mut shared = SharedStatusState::new();
    test_enqueue_resolving(&mut shared, running_status(), "retired");
    assert!(shared.accept_next_required().is_none());
    assert_eq!(shared.inner.required.len(), 1);
}

#[test]
fn each_snapshot_lands_in_one_category() {
    let mut shared = SharedStatusState::new();
    assert!(shared.submit_periodic(numbered_status(1)));
    assert!(
        shared.submit_periodic(numbered_status(2)),
        "coalesces the first"
    );
    assert_eq!(shared.inner.periodic.as_ref().map(|s| s.records), Some(2));
    shared.begin_finish(TerminalStatusSpec::complete(0, PumpSummary::default()));
    assert!(!shared.submit_periodic(numbered_status(3)), "dropped");
    assert_eq!(shared.inner.periodic.as_ref().map(|s| s.records), Some(2));
    shared.inner.shutdown = true;
    assert!(!shared.submit_periodic(numbered_status(4)), "disconnected");
    assert_eq!(tuple(&shared.diagnostics()), (4, 0, 1, 1, 1, 0));
    assert!(!shared.diagnostics().is_balanced(), "one is still pending");
    shared.retire_pending_periodic();
    assert_eq!(tuple(&shared.diagnostics()), (4, 0, 1, 1, 2, 0));
    assert!(shared.diagnostics().is_balanced());
}

#[test]
fn a_refused_required_status_is_typed_and_creates_no_acknowledgement() {
    let mut shared = SharedStatusState::new();
    shared.inner.shutdown = true;
    let error = shared
        .enqueue_required(running_status())
        .expect_err("refused");
    assert_eq!(error.message(), COORDINATOR_SHUT_DOWN);
    assert_eq!(
        error.message(),
        "persist pump status: status coordinator already shut down"
    );
    assert!(shared.acks.cells.is_empty());
    assert_eq!(tuple(&shared.diagnostics()), (1, 0, 0, 0, 1, 0));
}

#[test]
fn an_unwound_write_is_a_failure_of_its_own_kind() {
    for (kind, periodic, fallback) in [
        (WriteKind::Periodic, true, false),
        (WriteKind::Fallback, false, true),
        (WriteKind::Terminal, false, false),
    ] {
        let mut shared = SharedStatusState::new();
        shared.inner.diagnostics.submitted = 1;
        shared.begin_write(kind);
        shared.account_in_flight_unwind();
        shared.account_in_flight_unwind();
        let d = shared.diagnostics();
        assert_eq!(tuple(&d), (1, 0, 0, 0, 0, 1));
        assert_eq!(d.last_error.as_deref(), Some(STATUS_WORKER_PANIC));
        assert_eq!(shared.periodic_error().is_some(), periodic);
        assert_eq!(shared.fallback_error().is_some(), fallback);
    }
}

#[test]
fn write_results_are_recorded_by_kind() {
    let mut shared = SharedStatusState::new();
    shared.inner.diagnostics.submitted = 3;
    shared.begin_write(WriteKind::Periodic);
    assert!(!shared.is_quiescent());
    shared.record_write(&Err("p".to_string()), WriteKind::Periodic);
    shared.begin_write(WriteKind::Terminal);
    shared.record_write(&Err("t".to_string()), WriteKind::Terminal);
    shared.set_settlement_error("t");
    shared.begin_write(WriteKind::Fallback);
    shared.record_write(&Err("f".to_string()), WriteKind::Fallback);
    assert_eq!(shared.periodic_error().as_deref(), Some("p"));
    assert_eq!(shared.inner.settlement_error.as_deref(), Some("t"));
    assert_eq!(shared.fallback_error().as_deref(), Some("f"));
    assert_eq!(shared.diagnostics().last_error.as_deref(), Some("f"));
    assert_eq!(shared.projected_write_diagnostics().written, 1);
    assert_eq!(tuple(&shared.diagnostics()), (3, 0, 0, 0, 0, 3));
    assert!(shared.is_quiescent());
}

#[test]
fn reconciliation_accounts_everything_and_is_idempotent() {
    let mut shared = SharedStatusState::new();
    let (_, active) = test_enqueue_required(&mut shared, running_status());
    let (_, queued) = test_enqueue_required(&mut shared, running_status());
    shared.accept_next_required().expect("accepted");
    shared.submit_periodic(running_status());
    let authority = AbandonmentAuthority::assume_worker_abandoned();
    shared.reconcile_abandoned(&authority);
    let once = shared.diagnostics();
    assert_eq!(tuple(&once), (3, 0, 0, 0, 2, 1));
    assert!(once.is_balanced());
    assert!(shared.is_quiescent());
    assert!(active.is_observable(&shared.acks) && queued.is_observable(&shared.acks));
    shared.reconcile_abandoned(&authority);
    assert_eq!(shared.diagnostics(), once);
}
