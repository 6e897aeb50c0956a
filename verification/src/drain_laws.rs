//! What holds of a drain as a whole: from the stream to the pump's outcome.

use vstd::prelude::*;
use vstd::utf8::*;

use crate::capture::{persist_failure, CaptureActionView, CaptureView};
use crate::capture_laws::{
    answers, bytes_persisted, bytes_read, capture_after, last_step, law_capture_is_exact,
    law_success_means_everything_persisted, law_transcript_is_a_prefix, possible, records_seen,
    stream_ended, stream_records, Moment,
};
use crate::config::TranscriptPumpConfig;
use crate::coordinator_model::SharedView;
use crate::drain::{
    caught, is_pump_thread, pump_spawn_failure, status_spawn_failure, try_terminal, wait_terminal,
    Drained, DrainedView, TerminalPoll, PUMP_PANICKED,
};
use crate::error::{ErrorView, SettlementView, TranscriptPumpError};
use crate::fault::latched;
use crate::preview::{accepted, wrapped};
use crate::status::{PumpState, PumpSummary, SummaryView, TransportView};
use crate::text::bounded;
use crate::worker::{next_step, returned_step, ActionView, WorkerView};
use crate::worker_laws::{
    law_fallback_repeats_the_complete_document, law_sealed_worker_writes_everything_and_exits,
    law_terminal_document_says_what_was_observed, serve, waiting,
};

verus! {

/// The pump succeeds exactly when the capture did and its settlement has no terminal
/// failure; a failure's primary fault is the capture's own where the capture failed.
pub proof fn law_outcome_never_masks_the_capture(drained: DrainedView, settlement: SettlementView)
    ensures
        drained.settled(settlement) is Ok <==> drained.result is Ok && settlement.settlement_error
            is None && settlement.worker_error is None,
        drained.result matches Err(error) ==> (drained.settled(settlement) matches Err(reported)
            && reported.message == error.message && reported.transport == Some(
            settlement.diagnostics,
        )),
        drained.settled(settlement) matches Ok(summary) ==> {
            &&& summary.transport == settlement.diagnostics
            &&& summary.bytes == drained.summary.bytes
            &&& summary.records == drained.summary.records
            &&& summary.dropped_console == drained.summary.dropped_console
        },
{
}

/// A capture fault is latched before settlement begins, so whatever the settlement then
/// publishes, supervision sees the capture's fault first.
pub proof fn law_capture_fault_is_published_first(
    drained: DrainedView,
    later: Seq<char>,
)
    ensures
        drained.result matches Err(error) ==> drained.published(None) == Some(error.message)
            && latched(drained.published(None), later) == Some(error.message),
        drained.result is Ok ==> drained.published(None) is None,
{
}

/// The capture of `history` ended with `result`: its last step said so, or the capture
/// panicked behind it, in the reader, the transcript file or the preview sink.
pub open spec fn ended_with(
    start: CaptureView,
    history: Seq<Moment>,
    result: Result<(), ErrorView>,
) -> bool {
    &&& possible(start, history)
    &&& result == caught(None) || (history.len() > 0 && last_step(start, history).action
        == CaptureActionView::Finish(result))
}

/// A pump that reports success has persisted the whole stream, byte for byte and in order,
/// and its summary counts exactly that stream's bytes and records, together with the
/// settlement's final accounting.
pub proof fn law_reported_success_is_exact(
    path: Seq<char>,
    config: TranscriptPumpConfig,
    started_at_ms: u64,
    observed: bool,
    history: Seq<Moment>,
    drained: DrainedView,
    settlement: SettlementView,
)
    requires
        ended_with(
            CaptureView::initial(path, config, started_at_ms, observed),
            history,
            drained.result,
        ),
        drained.summary == capture_after(
            CaptureView::initial(path, config, started_at_ms, observed),
            history,
        ).counters.summary(),
    ensures
        drained.settled(settlement) matches Ok(summary) ==> {
            let start = CaptureView::initial(path, config, started_at_ms, observed);
            let stream = bytes_read(history);
            &&& stream_ended(history)
            &&& bytes_persisted(start, history) == stream
            &&& summary.bytes == wrapped(stream.len() as int)
            &&& summary.records == wrapped(stream_records(stream, true).len() as int)
            &&& summary.dropped_console == wrapped(
                stream_records(stream, true).len() - accepted(answers(history)),
            )
            &&& summary.transport == settlement.diagnostics
        },
{
    if drained.settled(settlement) is Ok {
        law_success_means_everything_persisted(path, config, started_at_ms, observed, history);
    }
}

/// However a capture ends, a panic of its reader, its transcript file or its preview sink
/// among the ways, its terminal status counts exactly the bytes that reached the transcript,
/// the records seen in them, and the previews that no sink accepted, and names its own fault.
pub proof fn law_terminal_status_is_truthful(
    path: Seq<char>,
    config: TranscriptPumpConfig,
    started_at_ms: u64,
    observed: bool,
    history: Seq<Moment>,
    drained: DrainedView,
    now_ms: u64,
    transport: TransportView,
    periodic_error: Option<Seq<char>>,
)
    requires
        ended_with(
            CaptureView::initial(path, config, started_at_ms, observed),
            history,
            drained.result,
        ),
        drained.summary == capture_after(
            CaptureView::initial(path, config, started_at_ms, observed),
            history,
        ).counters.summary(),
    ensures
        ({
            let start = CaptureView::initial(path, config, started_at_ms, observed);
            let document = drained.terminal().build(now_ms, transport, periodic_error);
            let records = records_seen(start, history);
            &&& document.schema_version == 3
            &&& document.started_at_ms == drained.started_at_ms
            &&& document.updated_at_ms == now_ms
            &&& document.transport == transport
            &&& document.bytes == wrapped(bytes_persisted(start, history).len() as int)
            &&& document.records == wrapped(records.len() as int)
            &&& document.dropped_console == wrapped(records.len() - accepted(answers(history)))
            &&& document.state == match drained.result {
                Ok(()) => PumpState::Complete,
                Err(_) => PumpState::Failed,
            }
            &&& document.error == match drained.result {
                Ok(()) => None,
                Err(error) => Some(bounded(error.message)),
            }
        }),
{
    law_capture_is_exact(path, config, started_at_ms, observed, history);
}

/// The message of a panicked pump is within the cap.
proof fn lemma_panic_message_fits()
    ensures
        bounded(PUMP_PANICKED@) == PUMP_PANICKED@,
{
    reveal_strlit("transcript pump panicked");
    assert(is_ascii_chars(PUMP_PANICKED@));
    is_ascii_chars_encode_utf8(PUMP_PANICKED@);
}

/// A capture that panics, wherever its reader, its transcript file or its preview sink left
/// it, is reported as a typed failure that names the panic; and where the store accepts
/// every write, the last document it holds is the Failed status with that same cause, and
/// with the counts from before the panic.
pub proof fn law_panicked_capture_is_reported_truthfully(
    path: Seq<char>,
    config: TranscriptPumpConfig,
    started_at_ms: u64,
    history: Seq<Moment>,
    drained: DrainedView,
    settlement: SettlementView,
    shared: SharedView,
    answered: Seq<Result<(), Seq<char>>>,
    now_ms: u64,
)
    requires
        possible(CaptureView::initial(path, config, started_at_ms, true), history),
        drained.result == caught(None),
        drained.summary == capture_after(
            CaptureView::initial(path, config, started_at_ms, true),
            history,
        ).counters.summary(),
        shared.sound(),
        WorkerView::Draining.holds(shared),
        shared.inner.terminal == Some(drained.terminal()),
        answered.len() > waiting(shared.inner),
        forall|i: int| 0 <= i < answered.len() ==> (#[trigger] answered[i]) is Ok,
    ensures
        drained.settled(settlement) matches Err(error) && error.message == PUMP_PANICKED@,
        drained.published(None) == Some(PUMP_PANICKED@),
        ({
            let start = CaptureView::initial(path, config, started_at_ms, true);
            let counters = capture_after(start, history).counters;
            let documents = serve(shared, answered, now_ms).documents;
            let document = documents.last();
            &&& documents.len() == waiting(shared.inner)
            &&& document.state == PumpState::Failed
            &&& document.error == Some(PUMP_PANICKED@)
            &&& document.bytes == wrapped(bytes_persisted(start, history).len() as int)
            &&& document.records == counters.records
            &&& document.dropped_console == counters.dropped_console
        }),
{
    lemma_panic_message_fits();
    law_transcript_is_a_prefix(path, config, started_at_ms, true, history);
    law_sealed_worker_writes_everything_and_exits(shared, answered, now_ms);
    assert(answered[waiting(shared.inner) - 1] is Ok);
}

/// The Failed fallback of a complete capture is as truthful as the Complete status it stands
/// in for: it counts the whole stream, which reached the transcript, and names why the
/// Complete status is missing.
pub proof fn law_fallback_status_is_truthful(
    path: Seq<char>,
    config: TranscriptPumpConfig,
    started_at_ms: u64,
    observed: bool,
    history: Seq<Moment>,
    drained: DrainedView,
    shared: SharedView,
    meanwhile: SharedView,
    error: Seq<char>,
    began_ms: u64,
    now_ms: u64,
)
    requires
        ended_with(
            CaptureView::initial(path, config, started_at_ms, observed),
            history,
            drained.result,
        ),
        drained.result is Ok,
        drained.summary == capture_after(
            CaptureView::initial(path, config, started_at_ms, observed),
            history,
        ).counters.summary(),
        shared.inner.work() is Terminal,
        shared.inner.terminal == Some(drained.terminal()),
    ensures
        ({
            let begun = next_step(shared, began_ms);
            let stream = bytes_read(history);
            let records = stream_records(stream, true);
            returned_step(
                begun.worker,
                meanwhile,
                Err(error),
                now_ms,
            ).action matches ActionView::Write(fallback) && {
                &&& fallback.state == PumpState::Failed
                &&& fallback.started_at_ms == drained.started_at_ms
                &&& fallback.bytes == wrapped(stream.len() as int)
                &&& fallback.records == wrapped(records.len() as int)
                &&& fallback.dropped_console == wrapped(
                    records.len() - accepted(answers(history)),
                )
                &&& fallback.error == Some(
                    bounded("complete status could not be persisted: "@ + bounded(error)),
                )
            }
        }),
{
    law_success_means_everything_persisted(path, config, started_at_ms, observed, history);
    law_fallback_repeats_the_complete_document(shared, meanwhile, error, began_ms, now_ms);
    law_terminal_document_says_what_was_observed(shared, began_ms);
}

/// How a capture's end is told: a complete one by a Complete status without an error, a
/// failed one by a Failed status with its own message; both with its start and its counts.
/// Without a coordinator the pump reports exactly that end.
pub proof fn law_terminal_status_tells_the_end(drained: DrainedView)
    ensures
        drained.terminal().started_at_ms == drained.started_at_ms,
        drained.terminal().summary.bytes == drained.summary.bytes,
        drained.terminal().summary.records == drained.summary.records,
        drained.terminal().summary.dropped_console == drained.summary.dropped_console,
        drained.result is Ok ==> drained.terminal().state == PumpState::Complete
            && drained.terminal().error is None && drained.unobserved() == Ok::<
            SummaryView,
            ErrorView,
        >(drained.summary),
        drained.result matches Err(error) ==> drained.terminal().state == PumpState::Failed
            && drained.terminal().error == Some(error.message) && drained.unobserved() == Err::<
            SummaryView,
            ErrorView,
        >(error),
{
}

/// A capture that returned is taken at its word, and one that panicked has failed with the
/// panic as its message.
pub proof fn law_panic_is_a_failure_like_any_other(returned: Result<(), ErrorView>)
    ensures
        caught(Some(returned)) == returned,
        caught(None) matches Err(error) && error.message == "transcript pump panicked"@
            && error.transport is None,
{
    lemma_panic_message_fits();
}

/// A settled capture is read off its fields as they stand.
pub proof fn law_drained_is_read_as_it_stands(drained: Drained)
    ensures
        drained@.started_at_ms == drained.started_at_ms,
        drained@.summary == drained.summary@,
        drained.result is Ok <==> drained@.result is Ok,
        drained.result matches Err(error) ==> drained@.result == Err::<(), ErrorView>(error@),
{
}
/// The pump's outcome is handed on as it was reported; a pump that is still draining has
/// none; and one that vanished is a failure that says so.
pub proof fn law_outcome_is_handed_on_as_reported(
    poll: TerminalPoll,
    polled: Option<Result<PumpSummary, TranscriptPumpError>>,
    received: Option<Result<PumpSummary, TranscriptPumpError>>,
    waited: Result<PumpSummary, TranscriptPumpError>,
)
    requires
        call_ensures(try_terminal, (poll,), polled),
        call_ensures(wait_terminal, (received,), waited),
    ensures
        polled is None <==> poll is Pending,
        poll matches TerminalPoll::Reported(outcome) ==> polled == Some(outcome),
        poll is Disconnected ==> (polled matches Some(outcome) && (outcome matches Err(error)
            && error@.message == bounded("transcript pump thread vanished"@))),
        received matches Some(outcome) ==> waited == outcome,
        received is None ==> (waited matches Err(error) && error@.message == bounded(
            "transcript pump thread vanished"@,
        )),
{
}

/// The panics of exactly two threads are the pump's own.
pub proof fn law_pump_threads_are_two(name: Option<&str>, pump: bool)
    requires
        call_ensures(is_pump_thread, (name,), pump),
    ensures
        name is None ==> !pump,
        name matches Some(named) ==> (pump <==> named@ == "transcript-pump"@ || named@
            == "transcript-pump-status"@),
{
}

/// A failure to start a thread, or to persist a status, names what failed and why.
pub proof fn law_spawn_failures_name_their_thread(
    detail: &str,
    path: &str,
    status: TranscriptPumpError,
    pump: TranscriptPumpError,
    unpersisted: String,
)
    requires
        call_ensures(status_spawn_failure, (detail,), status),
        call_ensures(pump_spawn_failure, (detail,), pump),
        call_ensures(persist_failure, (path, detail), unpersisted),
    ensures
        status@.message == bounded("spawn transcript pump status writer: "@ + detail@),
        pump@.message == bounded("spawn transcript pump thread: "@ + detail@),
        unpersisted@ == "persist pump status at "@ + path@ + ": "@ + detail@,
{
}
/// A failed pump tells everything: whether the capture failed or only its settlement, each
/// diagnostic of the settlement is found in its own field, bounded, beside the primary fault.
pub proof fn law_failed_pump_tells_everything(
    drained: DrainedView,
    settlement: SettlementView,
    text: Seq<char>,
)
    ensures
        drained.settled(settlement) matches Err(reported) ==> {
            &&& reported.transport == Some(settlement.diagnostics)
            &&& settlement.settlement_error is None <==> reported.settlement_error is None
            &&& settlement.fallback_error is None <==> reported.fallback_error is None
            &&& settlement.periodic_error is None <==> reported.periodic_error is None
            &&& settlement.worker_error is None <==> reported.worker_error is None
            &&& settlement.settlement_error == Some(text) ==> reported.settlement_error == Some(
                bounded(text),
            )
            &&& settlement.fallback_error == Some(text) ==> reported.fallback_error == Some(
                bounded(text),
            )
            &&& settlement.periodic_error == Some(text) ==> reported.periodic_error == Some(
                bounded(text),
            )
            &&& settlement.worker_error == Some(text) ==> reported.worker_error == Some(
                bounded(text),
            )
            &&& drained.result is Ok && settlement.settlement_error == Some(text)
                ==> reported.message == bounded(text)
            &&& drained.result is Ok && settlement.settlement_error is None
                && settlement.worker_error == Some(text) ==> reported.message == bounded(text)
        },
{
}

/// A latch that already names a fault is not touched by the capture's end, and an empty one
/// names the capture's own fault exactly when the capture failed.
pub proof fn law_capture_end_publishes_its_fault(drained: DrainedView, first: Seq<char>)
    ensures
        drained.published(Some(first)) == Some(first),
        drained.published(None) is Some <==> drained.result is Err,
        drained.result matches Err(error) ==> drained.published(None) == Some(error.message),
{
}
} // verus!
