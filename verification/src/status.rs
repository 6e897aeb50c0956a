//! The status document a pump keeps beside its transcript.

use vstd::prelude::*;

use crate::text::{
    as_text, bound_optional, bounded, bounded_opt, fits, join_text, str_of, text_of,
};

verus! {

/// Schema version of the adjacent `transcript-pump.json` status document. Bump
/// this when the persisted shape changes so readers can detect the format.
///
/// v2 adds `periodic_error`: a best-effort periodic status write may fail without
/// failing capture, and that last failure is retained on the terminal status.
///
/// v3 adds `transport`: the exact accounting of every status submission, so a
/// terminal status proves it lost nothing silently.
pub const PUMP_STATUS_SCHEMA_VERSION: u32 = 3;

/// The lifecycle state of a transcript pump, persisted in its status document.
#[derive(Debug, Clone, Copy, PartialEq, Eq, Structural)]
pub enum PumpState {
    /// Capture has begun; the transcript is open.
    Running,
    /// The coder closed stdout and every byte was persisted.
    Complete,
    /// Capture ended on an infrastructure failure; `error` names the cause.
    Failed,
}

/// Exact, balanced accounting of every status submission a coordinator handled. Each
/// submission lands in exactly one terminal category, so a terminal status can prove
/// it discarded nothing without an operator noticing.
#[derive(Debug, PartialEq, Eq)]
pub struct StatusTransportDiagnostics {
    /// Total status submissions the coordinator was asked to persist.
    pub submitted: u64,
    /// Submissions the store persisted successfully.
    pub written: u64,
    /// Periodic snapshots replaced in the pending slot by a newer snapshot before
    /// the worker could write them.
    pub coalesced: u64,
    /// Periodic snapshots dropped because terminal sealing had already begun.
    pub dropped: u64,
    /// Submissions refused because the coordinator's worker had already shut down.
    pub disconnected: u64,
    /// Submissions the store attempted but failed to persist.
    pub write_failures: u64,
    /// The most recent write failure message, if any.
    pub last_error: Option<String>,
}

/// The transport accounting as numbers and text.
#[verifier::ext_equal]
pub struct TransportView {
    pub submitted: nat,
    pub written: nat,
    pub coalesced: nat,
    pub dropped: nat,
    pub disconnected: nat,
    pub write_failures: nat,
    pub last_error: Option<Seq<char>>,
}

impl TransportView {
    /// Nothing submitted yet.
    pub open spec fn empty() -> Self {
        TransportView {
            submitted: 0,
            written: 0,
            coalesced: 0,
            dropped: 0,
            disconnected: 0,
            write_failures: 0,
            last_error: None,
        }
    }

    /// The submissions that reached a terminal category.
    pub open spec fn settled(self) -> nat {
        self.written + self.coalesced + self.dropped + self.disconnected + self.write_failures
    }

    /// Every submission is accounted for in exactly one terminal category.
    pub open spec fn balanced(self) -> bool {
        self.submitted == self.settled()
    }

    /// One more submission.
    pub open spec fn submit(self) -> Self {
        TransportView { submitted: self.submitted + 1, ..self }
    }

    /// One more submission refused or abandoned.
    pub open spec fn disconnect(self, count: nat) -> Self {
        TransportView { disconnected: self.disconnected + count, ..self }
    }

    /// One more submission whose write reported `result`.
    pub open spec fn record(self, result: Result<(), Seq<char>>) -> Self {
        match result {
            Ok(()) => TransportView { written: self.written + 1, ..self },
            Err(error) => TransportView {
                write_failures: self.write_failures + 1,
                last_error: Some(error),
                ..self
            },
        }
    }

    /// The accounting a document carries: its own write counted as if it succeeded.
    pub open spec fn projected(self) -> Self {
        TransportView { written: self.written + 1, ..self }
    }
}

impl View for StatusTransportDiagnostics {
    type V = TransportView;

    open spec fn view(&self) -> TransportView {
        TransportView {
            submitted: self.submitted as nat,
            written: self.written as nat,
            coalesced: self.coalesced as nat,
            dropped: self.dropped as nat,
            disconnected: self.disconnected as nat,
            write_failures: self.write_failures as nat,
            last_error: text_of(self.last_error),
        }
    }
}

impl Clone for StatusTransportDiagnostics {
    fn clone(&self) -> (copy: Self)
        ensures
            copy == *self,
    {
        StatusTransportDiagnostics {
            submitted: self.submitted,
            written: self.written,
            coalesced: self.coalesced,
            dropped: self.dropped,
            disconnected: self.disconnected,
            write_failures: self.write_failures,
            last_error: self.last_error.clone(),
        }
    }
}

impl Default for StatusTransportDiagnostics {
    fn default() -> (diagnostics: Self)
        ensures
            diagnostics@ == TransportView::empty(),
    {
        StatusTransportDiagnostics {
            submitted: 0,
            written: 0,
            coalesced: 0,
            dropped: 0,
            disconnected: 0,
            write_failures: 0,
            last_error: None,
        }
    }
}

impl StatusTransportDiagnostics {
    /// Whether the balance invariant holds: every submission is accounted for in
    /// exactly one terminal category. The categories together must fit the counter.
    pub fn is_balanced(&self) -> (balanced: bool)
        requires
            self@.settled() <= u64::MAX,
        ensures
            balanced == self@.balanced(),
    {
        self.submitted == self.written + self.coalesced + self.dropped + self.disconnected
            + self.write_failures
    }

    /// The accounting a document carries: its own write counted as if it succeeded.
    pub fn projected(&self) -> (projected: StatusTransportDiagnostics)
        requires
            self.written < u64::MAX,
        ensures
            projected@ == self@.projected(),
    {
        let mut projected = self.clone();
        projected.written = projected.written + 1;
        projected
    }
}

/// What a completed drain observed: total bytes persisted, records seen, previews a
/// saturated or disconnected console could not accept, and, on a settled capture, the
/// final balanced status transport accounting.
#[derive(Debug, PartialEq, Eq)]
pub struct PumpSummary {
    pub bytes: u64,
    pub records: u64,
    pub dropped_console: u64,
    /// The final balanced status transport accounting, populated when the capture
    /// settles successfully (it is carried on the typed error otherwise).
    pub transport: StatusTransportDiagnostics,
}

/// A drain's observations as numbers and text.
#[verifier::ext_equal]
pub struct SummaryView {
    pub bytes: u64,
    pub records: u64,
    pub dropped_console: u64,
    pub transport: TransportView,
}

impl View for PumpSummary {
    type V = SummaryView;

    open spec fn view(&self) -> SummaryView {
        SummaryView {
            bytes: self.bytes,
            records: self.records,
            dropped_console: self.dropped_console,
            transport: self.transport@,
        }
    }
}

impl Clone for PumpSummary {
    fn clone(&self) -> (copy: Self)
        ensures
            copy == *self,
    {
        PumpSummary {
            bytes: self.bytes,
            records: self.records,
            dropped_console: self.dropped_console,
            transport: self.transport.clone(),
        }
    }
}

impl Default for PumpSummary {
    fn default() -> (summary: Self)
        ensures
            summary@ == (SummaryView {
                bytes: 0,
                records: 0,
                dropped_console: 0,
                transport: TransportView::empty(),
            }),
    {
        PumpSummary {
            bytes: 0,
            records: 0,
            dropped_console: 0,
            transport: StatusTransportDiagnostics::default(),
        }
    }
}

/// Durable diagnostic state written beside the transcript. It records what the pump
/// observed so an operator can distinguish a quiet coder, a blocked console, a failed
/// pump, and completed capture. It is diagnostics only and never an execution lease or
/// liveness authority.
#[derive(Debug, PartialEq, Eq)]
pub struct PumpStatus {
    pub schema_version: u32,
    pub state: PumpState,
    pub started_at_ms: u64,
    pub updated_at_ms: u64,
    pub bytes: u64,
    pub records: u64,
    pub dropped_console: u64,
    /// The terminal failure cause, present only on a `Failed` state.
    pub error: Option<String>,
    /// The last best-effort periodic status-write failure, if any. It is retained
    /// on the terminal status, a successful `Complete` too, so a slow or flaky status
    /// filesystem is observable without failing canonical capture.
    pub periodic_error: Option<String>,
    /// The transport accounting at the time this status was written. On a terminal
    /// status it balances every submission; on an intermediate status it is the
    /// running tally.
    pub transport: StatusTransportDiagnostics,
}

/// A status document as numbers and text.
#[verifier::ext_equal]
pub struct StatusView {
    pub schema_version: u32,
    pub state: PumpState,
    pub started_at_ms: u64,
    pub updated_at_ms: u64,
    pub bytes: u64,
    pub records: u64,
    pub dropped_console: u64,
    pub error: Option<Seq<char>>,
    pub periodic_error: Option<Seq<char>>,
    pub transport: TransportView,
}

impl StatusView {
    /// The same document with another transport accounting.
    pub open spec fn stamped(self, transport: TransportView) -> Self {
        StatusView { transport, ..self }
    }
}

impl View for PumpStatus {
    type V = StatusView;

    open spec fn view(&self) -> StatusView {
        StatusView {
            schema_version: self.schema_version,
            state: self.state,
            started_at_ms: self.started_at_ms,
            updated_at_ms: self.updated_at_ms,
            bytes: self.bytes,
            records: self.records,
            dropped_console: self.dropped_console,
            error: text_of(self.error),
            periodic_error: text_of(self.periodic_error),
            transport: self.transport@,
        }
    }
}

impl Clone for PumpStatus {
    fn clone(&self) -> (copy: Self)
        ensures
            copy == *self,
    {
        PumpStatus {
            schema_version: self.schema_version,
            state: self.state,
            started_at_ms: self.started_at_ms,
            updated_at_ms: self.updated_at_ms,
            bytes: self.bytes,
            records: self.records,
            dropped_console: self.dropped_console,
            error: self.error.clone(),
            periodic_error: self.periodic_error.clone(),
            transport: self.transport.clone(),
        }
    }
}

/// The document built from a drain's observations: the errors are bounded, everything
/// else is carried over.
pub open spec fn status_document(
    state: PumpState,
    started_at_ms: u64,
    updated_at_ms: u64,
    summary: SummaryView,
    error: Option<Seq<char>>,
    periodic_error: Option<Seq<char>>,
    transport: TransportView,
) -> StatusView {
    StatusView {
        schema_version: PUMP_STATUS_SCHEMA_VERSION,
        state,
        started_at_ms,
        updated_at_ms,
        bytes: summary.bytes,
        records: summary.records,
        dropped_console: summary.dropped_console,
        error: bounded_opt(error),
        periodic_error: bounded_opt(periodic_error),
        transport,
    }
}

/// Build a status document. The persisted primary and periodic errors are bounded so a
/// pathological store error can never bloat the on-disk document.
pub fn build_status(
    state: PumpState,
    started_at_ms: u64,
    updated_at_ms: u64,
    summary: &PumpSummary,
    error: Option<&str>,
    periodic_error: Option<&str>,
    transport: StatusTransportDiagnostics,
) -> (status: PumpStatus)
    ensures
        status@ == status_document(
            state,
            started_at_ms,
            updated_at_ms,
            summary@,
            str_of(error),
            str_of(periodic_error),
            transport@,
        ),
        fits(status@.error),
        fits(status@.periodic_error),
{
    PumpStatus {
        schema_version: PUMP_STATUS_SCHEMA_VERSION,
        state,
        started_at_ms,
        updated_at_ms,
        bytes: summary.bytes,
        records: summary.records,
        dropped_console: summary.dropped_console,
        error: bound_optional(error),
        periodic_error: bound_optional(periodic_error),
        transport,
    }
}

/// The `Running` document of a capture in progress. Its transport accounting is stamped
/// later, when the coordinator hands it to the store.
pub fn running_status(started_at_ms: u64, updated_at_ms: u64, summary: &PumpSummary) -> (status:
    PumpStatus)
    ensures
        status@ == status_document(
            PumpState::Running,
            started_at_ms,
            updated_at_ms,
            summary@,
            None,
            None,
            TransportView::empty(),
        ),
{
    build_status(
        PumpState::Running,
        started_at_ms,
        updated_at_ms,
        summary,
        None,
        None,
        StatusTransportDiagnostics::default(),
    )
}

/// A partially-built terminal status. The drain decides the terminal state, counters,
/// and primary error; the coordinator worker fills in the balanced transport
/// diagnostics before writing it.
#[derive(Debug)]
pub struct TerminalStatusSpec {
    pub state: PumpState,
    pub started_at_ms: u64,
    pub summary: PumpSummary,
    pub error: Option<String>,
}

/// A partially-built terminal status as numbers and text.
#[verifier::ext_equal]
pub struct TerminalView {
    pub state: PumpState,
    pub started_at_ms: u64,
    pub summary: SummaryView,
    pub error: Option<Seq<char>>,
}

/// What the cause of a Complete-to-Failed fallback starts with.
pub const COMPLETE_UNPERSISTED: &'static str = "complete status could not be persisted: ";

impl TerminalView {
    pub open spec fn complete(started_at_ms: u64, summary: SummaryView) -> Self {
        TerminalView { state: PumpState::Complete, started_at_ms, summary, error: None }
    }

    pub open spec fn failed(started_at_ms: u64, summary: SummaryView, error: Seq<char>) -> Self {
        TerminalView { state: PumpState::Failed, started_at_ms, summary, error: Some(error) }
    }

    /// The Failed fallback for a Complete status that could not be persisted: the
    /// same observations, with the settlement failure as the cause.
    pub open spec fn as_failed(self, settlement_error: Seq<char>) -> Self {
        TerminalView::failed(
            self.started_at_ms,
            self.summary,
            COMPLETE_UNPERSISTED@ + settlement_error,
        )
    }

    pub open spec fn build(
        self,
        updated_at_ms: u64,
        transport: TransportView,
        periodic_error: Option<Seq<char>>,
    ) -> StatusView {
        status_document(
            self.state,
            self.started_at_ms,
            updated_at_ms,
            self.summary,
            self.error,
            periodic_error,
            transport,
        )
    }
}

impl View for TerminalStatusSpec {
    type V = TerminalView;

    open spec fn view(&self) -> TerminalView {
        TerminalView {
            state: self.state,
            started_at_ms: self.started_at_ms,
            summary: self.summary@,
            error: text_of(self.error),
        }
    }
}

impl TerminalStatusSpec {
    pub fn complete(started_at_ms: u64, summary: PumpSummary) -> (spec_value: Self)
        ensures
            spec_value@ == TerminalView::complete(started_at_ms, summary@),
    {
        TerminalStatusSpec { state: PumpState::Complete, started_at_ms, summary, error: None }
    }

    pub fn failed(started_at_ms: u64, summary: PumpSummary, error: &str) -> (spec_value: Self)
        ensures
            spec_value@ == TerminalView::failed(started_at_ms, summary@, error@),
    {
        TerminalStatusSpec {
            state: PumpState::Failed,
            started_at_ms,
            summary,
            error: Some(error.to_string()),
        }
    }

    /// The Failed fallback for a Complete status that could not be persisted.
    pub fn as_failed(&self, settlement_error: &str) -> (spec_value: Self)
        ensures
            spec_value@ == self@.as_failed(settlement_error@),
    {
        TerminalStatusSpec {
            state: PumpState::Failed,
            started_at_ms: self.started_at_ms,
            summary: self.summary.clone(),
            error: Some(join_text(COMPLETE_UNPERSISTED, settlement_error)),
        }
    }

    pub fn build(
        &self,
        updated_at_ms: u64,
        transport: StatusTransportDiagnostics,
        periodic_error: Option<&str>,
    ) -> (status: PumpStatus)
        ensures
            status@ == self@.build(updated_at_ms, transport@, str_of(periodic_error)),
    {
        build_status(
            self.state,
            self.started_at_ms,
            updated_at_ms,
            &self.summary,
            as_text(&self.error),
            periodic_error,
            transport,
        )
    }
}

/// Milliseconds in the given time since the epoch, kept to the low 64 bits; zero when
/// the clock stands before the epoch (`None`).
pub open spec fn epoch_millis(since_epoch: Option<(u64, u32)>) -> nat {
    match since_epoch {
        Some((secs, nanos)) => ((secs * 1000 + nanos / 1_000_000) % 0x1_0000_0000_0000_0000) as nat,
        None => 0,
    }
}

/// The status timestamp of a clock reading, given as whole seconds and nanoseconds
/// since the epoch.
pub fn now_ms(since_epoch: Option<(u64, u32)>) -> (millis: u64)
    ensures
        millis == epoch_millis(since_epoch),
{
    match since_epoch {
        Some((secs, nanos)) => {
            let total: u128 = (secs as u128) * 1000 + (nanos / 1_000_000) as u128;
            (total % 0x1_0000_0000_0000_0000) as u64
        },
        None => 0,
    }
}

/// The accounting read off its counters is the accounting they hold.
pub proof fn law_transport_is_read_as_it_stands(transport: StatusTransportDiagnostics)
    ensures
        transport@.submitted == transport.submitted,
        transport@.written == transport.written,
        transport@.coalesced == transport.coalesced,
        transport@.dropped == transport.dropped,
        transport@.disconnected == transport.disconnected,
        transport@.write_failures == transport.write_failures,
        transport.last_error matches Some(text) ==> transport@.last_error == Some(text@),
        transport.last_error is None ==> transport@.last_error is None,
{
}

/// A drain's observations are read off their fields as they stand.
pub proof fn law_summary_is_read_as_it_stands(summary: PumpSummary)
    ensures
        summary@.bytes == summary.bytes,
        summary@.records == summary.records,
        summary@.dropped_console == summary.dropped_console,
        summary@.transport == summary.transport@,
{
}

/// A document is read off its fields as they stand.
pub proof fn law_document_is_read_as_it_stands(status: PumpStatus)
    ensures
        status@.schema_version == status.schema_version,
        status@.state == status.state,
        status@.started_at_ms == status.started_at_ms,
        status@.updated_at_ms == status.updated_at_ms,
        status@.bytes == status.bytes,
        status@.records == status.records,
        status@.dropped_console == status.dropped_console,
        status@.transport == status.transport@,
        status.error matches Some(text) ==> status@.error == Some(text@),
        status.error is None ==> status@.error is None,
        status.periodic_error matches Some(text) ==> status@.periodic_error == Some(text@),
        status.periodic_error is None ==> status@.periodic_error is None,
{
}

/// A partially-built terminal status is read off its fields as they stand.
pub proof fn law_terminal_is_read_as_it_stands(terminal: TerminalStatusSpec)
    ensures
        terminal@.state == terminal.state,
        terminal@.started_at_ms == terminal.started_at_ms,
        terminal@.summary == terminal.summary@,
        terminal.error matches Some(text) ==> terminal@.error == Some(text@),
        terminal.error is None ==> terminal@.error is None,
{
}

/// Every submission is in one of five categories, and the balance counts each of them.
pub proof fn law_balance_counts_every_category(transport: TransportView)
    ensures
        transport.balanced() <==> transport.submitted == transport.written + transport.coalesced
            + transport.dropped + transport.disconnected + transport.write_failures,
{
}

/// A write is counted once: as written when it succeeded, else as a failure whose text is
/// the most recent error. Nothing else moves, and the balance shifts by exactly one.
pub proof fn law_write_is_counted_once(transport: TransportView, result: Result<(), Seq<char>>)
    ensures
        ({
            let after = transport.record(result);
            &&& after.submitted == transport.submitted
            &&& after.coalesced == transport.coalesced
            &&& after.dropped == transport.dropped
            &&& after.disconnected == transport.disconnected
            &&& after.settled() == transport.settled() + 1
            &&& result is Ok ==> after.written == transport.written + 1 && after.write_failures
                == transport.write_failures && after.last_error == transport.last_error
            &&& result matches Err(error) ==> after.written == transport.written
                && after.write_failures == transport.write_failures + 1 && after.last_error
                == Some(error)
        }),
{
}

/// A submission, and a disconnection, move their own counter only.
pub proof fn law_submissions_move_their_own_counter(transport: TransportView, count: nat)
    ensures
        ({
            let after = transport.submit();
            &&& after.submitted == transport.submitted + 1
            &&& after.settled() == transport.settled()
            &&& after.written == transport.written
            &&& after.last_error == transport.last_error
        }),
        ({
            let after = transport.disconnect(count);
            &&& after.submitted == transport.submitted
            &&& after.disconnected == transport.disconnected + count
            &&& after.settled() == transport.settled() + count
            &&& after.written == transport.written
            &&& after.write_failures == transport.write_failures
            &&& after.last_error == transport.last_error
        }),
        TransportView::empty().submitted == 0,
        TransportView::empty().settled() == 0,
        TransportView::empty().last_error is None,
{
}

/// The accounting that a document carries counts its own write as one that succeeded.
pub proof fn law_projection_counts_the_write_itself(transport: TransportView)
    ensures
        transport.projected().written == transport.written + 1,
        transport.projected().submitted == transport.submitted,
        transport.projected().coalesced == transport.coalesced,
        transport.projected().dropped == transport.dropped,
        transport.projected().disconnected == transport.disconnected,
        transport.projected().write_failures == transport.write_failures,
        transport.projected().last_error == transport.last_error,
{
}

/// A document carries what was observed, field by field, and differs from it only in that
/// its error texts are bounded; stamping it replaces its accounting and nothing else.
pub proof fn law_document_carries_what_was_observed(
    state: PumpState,
    started_at_ms: u64,
    updated_at_ms: u64,
    summary: SummaryView,
    error: Option<Seq<char>>,
    periodic_error: Option<Seq<char>>,
    transport: TransportView,
    stamp: TransportView,
)
    ensures
        ({
            let document = status_document(
                state,
                started_at_ms,
                updated_at_ms,
                summary,
                error,
                periodic_error,
                transport,
            );
            let stamped = document.stamped(stamp);
            &&& document.schema_version == 3
            &&& document.state == state
            &&& document.started_at_ms == started_at_ms
            &&& document.updated_at_ms == updated_at_ms
            &&& document.bytes == summary.bytes
            &&& document.records == summary.records
            &&& document.dropped_console == summary.dropped_console
            &&& document.transport == transport
            &&& error is Some <==> document.error is Some
            &&& error matches Some(text) ==> document.error == Some(bounded(text))
            &&& periodic_error is Some <==> document.periodic_error is Some
            &&& periodic_error matches Some(text) ==> document.periodic_error == Some(
                bounded(text),
            )
            &&& stamped.transport == stamp
            &&& stamped.schema_version == document.schema_version
            &&& stamped.state == document.state
            &&& stamped.started_at_ms == document.started_at_ms
            &&& stamped.updated_at_ms == document.updated_at_ms
            &&& stamped.bytes == document.bytes
            &&& stamped.records == document.records
            &&& stamped.dropped_console == document.dropped_console
            &&& stamped.error == document.error
            &&& stamped.periodic_error == document.periodic_error
        }),
{
}

/// A terminal document says how the capture ended and what it observed; the Failed fallback
/// of a Complete status says the same of everything but the state and the cause.
pub proof fn law_terminal_document_carries_what_was_observed(
    terminal: TerminalView,
    settlement_error: Seq<char>,
    now_ms: u64,
    transport: TransportView,
    periodic_error: Option<Seq<char>>,
    other_transport: TransportView,
)
    ensures
        ({
            let document = terminal.build(now_ms, transport, periodic_error);
            let fallback = terminal.as_failed(settlement_error).build(
                now_ms,
                other_transport,
                periodic_error,
            );
            &&& document.state == terminal.state
            &&& document.started_at_ms == terminal.started_at_ms
            &&& document.updated_at_ms == now_ms
            &&& document.bytes == terminal.summary.bytes
            &&& document.records == terminal.summary.records
            &&& document.dropped_console == terminal.summary.dropped_console
            &&& document.transport == transport
            &&& terminal.error is None ==> document.error is None
            &&& terminal.error matches Some(text) ==> document.error == Some(bounded(text))
            &&& fallback.state == PumpState::Failed
            &&& fallback.schema_version == document.schema_version
            &&& fallback.started_at_ms == document.started_at_ms
            &&& fallback.updated_at_ms == document.updated_at_ms
            &&& fallback.bytes == document.bytes
            &&& fallback.records == document.records
            &&& fallback.dropped_console == document.dropped_console
            &&& fallback.periodic_error == document.periodic_error
            &&& fallback.transport == other_transport
            &&& fallback.error == Some(
                bounded("complete status could not be persisted: "@ + settlement_error),
            )
        }),
{
}

/// A complete capture's terminal status has no error, a failed one's has exactly its own;
/// both keep the start and the observations.
pub proof fn law_terminal_says_how_the_capture_ended(
    started_at_ms: u64,
    summary: SummaryView,
    error: Seq<char>,
)
    ensures
        TerminalView::complete(started_at_ms, summary).state == PumpState::Complete,
        TerminalView::complete(started_at_ms, summary).started_at_ms == started_at_ms,
        TerminalView::complete(started_at_ms, summary).summary == summary,
        TerminalView::complete(started_at_ms, summary).error is None,
        TerminalView::failed(started_at_ms, summary, error).state == PumpState::Failed,
        TerminalView::failed(started_at_ms, summary, error).started_at_ms == started_at_ms,
        TerminalView::failed(started_at_ms, summary, error).summary == summary,
        TerminalView::failed(started_at_ms, summary, error).error == Some(error),
{
}

/// The timestamp is the number of whole milliseconds since the epoch, as long as that fits.
pub proof fn law_timestamp_is_whole_milliseconds(secs: u64, nanos: u32)
    requires
        nanos < 1_000_000_000,
        secs < 18_446_744_073_709_551,
    ensures
        ({
            let millis = epoch_millis(Some((secs, nanos)));
            let elapsed = secs * 1_000_000_000 + nanos;
            millis * 1_000_000 <= elapsed < (millis + 1) * 1_000_000
        }),
        epoch_millis(None) == 0,
{
}
/// The balance that is reported of an accounting is the balance of its counters, and the
/// accounting it projects counts one more write.
pub proof fn law_reported_balance_is_the_counters(
    transport: &StatusTransportDiagnostics,
    balanced: bool,
    projected: StatusTransportDiagnostics,
)
    requires
        call_ensures(StatusTransportDiagnostics::is_balanced, (transport,), balanced),
        call_ensures(StatusTransportDiagnostics::projected, (transport,), projected),
    ensures
        balanced <==> transport.submitted == transport.written + transport.coalesced
            + transport.dropped + transport.disconnected + transport.write_failures,
        projected.written == transport.written + 1,
        projected.submitted == transport.submitted,
        projected.coalesced == transport.coalesced,
        projected.dropped == transport.dropped,
        projected.disconnected == transport.disconnected,
        projected.write_failures == transport.write_failures,
{
    assert(projected@.written == projected.written);
    assert(projected@.submitted == projected.submitted);
    assert(projected@.coalesced == projected.coalesced);
    assert(projected@.dropped == projected.dropped);
    assert(projected@.disconnected == projected.disconnected);
    assert(projected@.write_failures == projected.write_failures);
}
} // verus!
