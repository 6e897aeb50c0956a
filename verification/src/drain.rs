//! From a capture's result to the pump's terminal outcome.
//!
//! A drain runs a capture, publishes its first fault, and only then settles the status
//! coordinator. The pieces here decide what is published, what terminal status is
//! written, and what the pump reports.

use vstd::prelude::*;

use crate::error::{
    outcome_of, ErrorView, SettlementView, StatusSettlement, TranscriptPumpError,
};
use crate::fault::{latched, FirstFault};
use crate::preview::SharedCounters;
use crate::status::{PumpSummary, SummaryView, TerminalStatusSpec, TerminalView};
use crate::text::join_text;

verus! {

/// What a capture that panicked failed with.
pub const PUMP_PANICKED: &'static str = "transcript pump panicked";

/// What a pump that ended without an outcome failed with.
pub const PUMP_VANISHED: &'static str = "transcript pump thread vanished";

/// The name of the capture thread.
pub const PUMP_THREAD: &'static str = "transcript-pump";

/// The name of the status worker thread.
pub const STATUS_THREAD: &'static str = "transcript-pump-status";

/// The name of the status document beside a transcript.
pub const STATUS_FILE_NAME: &'static str = "transcript-pump.json";

/// What the pump reports, its summary and its failure taken by their views.
pub open spec fn report_of(outcome: Result<PumpSummary, TranscriptPumpError>) -> Result<
    SummaryView,
    ErrorView,
> {
    match outcome {
        Ok(summary) => Ok(summary@),
        Err(error) => Err(error@),
    }
}

/// A capture that has ended, before its status is settled.
#[derive(Debug)]
pub struct Drained {
    pub result: Result<(), TranscriptPumpError>,
    pub started_at_ms: u64,
    pub summary: PumpSummary,
}

#[verifier::ext_equal]
pub struct DrainedView {
    pub result: Result<(), ErrorView>,
    pub started_at_ms: u64,
    pub summary: SummaryView,
}

impl View for Drained {
    type V = DrainedView;

    open spec fn view(&self) -> DrainedView {
        DrainedView {
            result: outcome_of(self.result),
            started_at_ms: self.started_at_ms,
            summary: self.summary@,
        }
    }
}

/// The capture's result, where a caught panic (`None`) is a failure like any other.
pub open spec fn caught(result: Option<Result<(), ErrorView>>) -> Result<(), ErrorView> {
    match result {
        Some(returned) => returned,
        None => Err(ErrorView::primary(PUMP_PANICKED@)),
    }
}

/// The capture's result that may be absent, taken by its view.
pub open spec fn caught_of(result: Option<Result<(), TranscriptPumpError>>) -> Option<
    Result<(), ErrorView>,
> {
    match result {
        Some(returned) => Some(outcome_of(returned)),
        None => None,
    }
}

impl DrainedView {
    /// The terminal status of the capture: Complete, or Failed with its primary fault.
    pub open spec fn terminal(self) -> TerminalView {
        match self.result {
            Ok(()) => TerminalView::complete(self.started_at_ms, self.summary),
            Err(error) => TerminalView::failed(self.started_at_ms, self.summary, error.message),
        }
    }

    /// What the pump reports without a status coordinator.
    pub open spec fn unobserved(self) -> Result<SummaryView, ErrorView> {
        match self.result {
            Ok(()) => Ok(self.summary),
            Err(error) => Err(error),
        }
    }

    /// What the pump reports once its status is settled: the summary with the final
    /// accounting, the settlement's own failure, or the capture's failure carrying the
    /// settlement's diagnostics.
    pub open spec fn settled(self, settlement: SettlementView) -> Result<SummaryView, ErrorView> {
        match self.result {
            Ok(()) => match settlement.terminal_failure() {
                Some(error) => Err(error),
                None => Ok(SummaryView { transport: settlement.diagnostics, ..self.summary }),
            },
            Err(error) => Err(error.with_settlement(settlement)),
        }
    }

    /// What the fault latch names once the capture's own fault is published.
    pub open spec fn published(self, fault: Option<Seq<char>>) -> Option<Seq<char>> {
        match self.result {
            Ok(()) => fault,
            Err(error) => latched(fault, error.message),
        }
    }
}

impl Drained {
    /// Take the end of a capture: its result, or `None` when it panicked. The first fault
    /// is published here, before any terminal settlement, so a blocked status store cannot
    /// hide it from supervision.
    pub fn publish(
        result: Option<Result<(), TranscriptPumpError>>,
        counters: &SharedCounters,
        started_at_ms: u64,
        first_fault: &mut FirstFault,
    ) -> (drained: Self)
        ensures
            drained@ == (DrainedView {
                result: caught(caught_of(result)),
                started_at_ms,
                summary: counters.summary(),
            }),
            final(first_fault)@ == drained@.published(old(first_fault)@),
    {
        let result = match result {
            Some(returned) => returned,
            None => Err(TranscriptPumpError::new(PUMP_PANICKED)),
        };
        if let Err(error) = &result {
            first_fault.publish(error);
        }
        Drained { result, started_at_ms, summary: counters.snapshot() }
    }

    /// The terminal status to finish the coordinator with.
    pub fn terminal(&self) -> (terminal: TerminalStatusSpec)
        ensures
            terminal@ == self@.terminal(),
    {
        match &self.result {
            Ok(()) => TerminalStatusSpec::complete(self.started_at_ms, self.summary.clone()),
            Err(error) => TerminalStatusSpec::failed(
                self.started_at_ms,
                self.summary.clone(),
                error.message(),
            ),
        }
    }

    /// The outcome without a status coordinator.
    pub fn unobserved(self) -> (outcome: Result<PumpSummary, TranscriptPumpError>)
        ensures
            report_of(outcome) == self@.unobserved(),
    {
        match self.result {
            Ok(()) => Ok(self.summary),
            Err(error) => Err(error),
        }
    }

    /// The outcome once the coordinator has settled. A terminal-settlement failure or a
    /// status-worker panic is a typed terminal failure even of a complete capture, because
    /// it is then not independently observable; the capture's own fault is never masked.
    pub fn settled(self, settlement: StatusSettlement) -> (outcome: Result<
        PumpSummary,
        TranscriptPumpError,
    >)
        ensures
            report_of(outcome) == self@.settled(settlement@),
    {
        match self.result {
            Ok(()) => {
                if let Some(error) = settlement.terminal_failure() {
                    return Err(error);
                }
                let mut summary = self.summary;
                summary.transport = settlement.diagnostics;
                Ok(summary)
            },
            Err(error) => Err(error.with_settlement(&settlement)),
        }
    }
}

/// The failure of a status worker thread that could not be spawned.
pub fn status_spawn_failure(detail: &str) -> (error: TranscriptPumpError)
    ensures
        error@ == ErrorView::primary("spawn transcript pump status writer: "@ + detail@),
{
    TranscriptPumpError::new(join_text("spawn transcript pump status writer: ", detail).as_str())
}

/// The failure of a capture thread that could not be spawned.
pub fn pump_spawn_failure(detail: &str) -> (error: TranscriptPumpError)
    ensures
        error@ == ErrorView::primary("spawn transcript pump thread: "@ + detail@),
{
    TranscriptPumpError::new(join_text("spawn transcript pump thread: ", detail).as_str())
}

/// The outcome of a whole drain, where a residual panic that escaped it (`None`) is
/// published and reported like any other fault.
pub fn pump_outcome(
    outcome: Option<Result<PumpSummary, TranscriptPumpError>>,
    first_fault: &mut FirstFault,
) -> (reported: Result<PumpSummary, TranscriptPumpError>)
    ensures
        match outcome {
            Some(returned) => reported == returned && final(first_fault)@ == old(first_fault)@,
            None => {
                &&& report_of(reported) == Err::<SummaryView, ErrorView>(
                    ErrorView::primary(PUMP_PANICKED@),
                )
                &&& final(first_fault)@ == latched(
                    old(first_fault)@,
                    ErrorView::primary(PUMP_PANICKED@).message,
                )
            },
        },
{
    match outcome {
        Some(returned) => returned,
        None => {
            let error = TranscriptPumpError::new(PUMP_PANICKED);
            first_fault.publish(&error);
            Err(error)
        },
    }
}

/// What a look at the pump's outcome channel found.
#[derive(Debug)]
pub enum TerminalPoll {
    /// The pump reported its outcome.
    Reported(Result<PumpSummary, TranscriptPumpError>),
    /// The pump is still draining.
    Pending,
    /// The pump's end of the channel is gone.
    Disconnected,
}

/// The pump's terminal outcome if it has finished. A pump thread that vanished without
/// reporting surfaces as a typed failure rather than a hang.
pub fn try_terminal(poll: TerminalPoll) -> (outcome: Option<Result<PumpSummary, TranscriptPumpError>>)
    ensures
        match poll {
            TerminalPoll::Reported(returned) => outcome == Some(returned),
            TerminalPoll::Pending => outcome is None,
            TerminalPoll::Disconnected => outcome matches Some(reported) && report_of(reported)
                == Err::<SummaryView, ErrorView>(ErrorView::primary(PUMP_VANISHED@)),
        },
{
    match poll {
        TerminalPoll::Reported(returned) => Some(returned),
        TerminalPoll::Pending => None,
        TerminalPoll::Disconnected => Some(Err(TranscriptPumpError::new(PUMP_VANISHED))),
    }
}

/// The outcome that waiting for the pump ends with: what it reported, or a typed failure
/// where its end of the channel is gone (`None`).
pub fn wait_terminal(received: Option<Result<PumpSummary, TranscriptPumpError>>) -> (outcome: Result<
    PumpSummary,
    TranscriptPumpError,
>)
    ensures
        match received {
            Some(returned) => outcome == returned,
            None => report_of(outcome) == Err::<SummaryView, ErrorView>(
                ErrorView::primary(PUMP_VANISHED@),
            ),
        },
{
    match received {
        Some(returned) => returned,
        None => Err(TranscriptPumpError::new(PUMP_VANISHED)),
    }
}

/// Whether a thread's panics are caught and reported through durable status: those of the
/// capture thread and of the status worker. An unnamed thread is neither.
pub fn is_pump_thread(name: Option<&str>) -> (pump: bool)
    ensures
        pump == (name matches Some(named) && (named@ == PUMP_THREAD@ || named@ == STATUS_THREAD@)),
{
    match name {
        Some(named) => {
            let named = named.to_string();
            named == PUMP_THREAD.to_string() || named == STATUS_THREAD.to_string()
        },
        None => false,
    }
}

/// The separators that some machine's paths use.
pub open spec fn is_separator(c: char) -> bool {
    c == '/' || c == '\\' || c == ':'
}

/// A file name that every machine takes for one: not empty, without a separator, and not
/// one of the names that stand for a directory.
pub open spec fn plain_name(name: Seq<char>) -> bool {
    &&& name.len() > 0
    &&& forall|i: int| 0 <= i < name.len() ==> !is_separator(#[trigger] name[i])
    &&& name != seq!['.']
    &&& name != seq!['.', '.']
}

/// A directory that every machine takes for one: the root, written as nothing before the
/// slash, or single slashes between components, of which the last is not a lone dot, unless
/// that dot is all there is.
pub open spec fn plain_directory(directory: Seq<char>) -> bool {
    &&& forall|i: int|
        0 <= i < directory.len() ==> !is_separator(#[trigger] directory[i]) || directory[i] == '/'
    &&& forall|i: int|
        0 <= i < directory.len() - 1 ==> !(#[trigger] directory[i] == '/' && directory[i + 1]
            == '/')
    &&& directory.len() > 0 ==> directory.last() != '/'
    &&& directory.len() > 1 && directory.last() == '.' ==> directory[directory.len() - 2] != '/'
}

/// `path` names the file `leaf` in `directory`, and every machine takes it so.
pub open spec fn names_file_in(path: Seq<char>, directory: Seq<char>, leaf: Seq<char>) -> bool {
    &&& path == directory + seq!['/'] + leaf
    &&& plain_directory(directory)
    &&& plain_name(leaf)
}

/// `sibling` is `name` beside `path`: it ends in the name, and where every machine reads
/// `path` the same way it stands in the same directory, behind the separator of whichever
/// machine built it, or alone where `path` is a bare file name.
pub open spec fn beside(path: Seq<char>, name: Seq<char>, sibling: Seq<char>) -> bool {
    &&& name.is_suffix_of(sibling)
    &&& plain_name(path) ==> sibling == name
    &&& forall|directory: Seq<char>, leaf: Seq<char>| #[trigger]
        names_file_in(path, directory, leaf) ==> sibling == directory + seq!['/'] + name || sibling
            == directory + seq!['\\'] + name
}

/// `std::path::Path::with_file_name`: the path with its last component replaced by `name`,
/// so that the result has the same parent, or with `name` pushed behind it where it has no
/// such component. Either way the result ends in `name`. What counts as a component, and
/// which separator is written, is the machine's; what stands before the name is stated of
/// paths that every machine reads the same way, and left unsaid of the others.
#[verifier::external_body]
fn with_file_name(path: &str, name: &str) -> (sibling: String)
    ensures
        plain_name(name@) ==> beside(path@, name@, sibling@),
{
    std::path::Path::new(path).with_file_name(name).to_string_lossy().into_owned()
}

/// The adjacent status document path for a transcript: `transcript-pump.json` beside the
/// transcript file.
pub fn status_path_for(transcript_path: &str) -> (path: String)
    ensures
        beside(transcript_path@, STATUS_FILE_NAME@, path@),
{
    proof {
        reveal_strlit("transcript-pump.json");
        assert(STATUS_FILE_NAME@[0] == 't');
        assert(plain_name(STATUS_FILE_NAME@));
    }
    with_file_name(transcript_path, STATUS_FILE_NAME)
}

} // verus!
