//! The typed pump failure and the settlement it is composed from.

use vstd::prelude::*;
use vstd::string::*;

use crate::status::{StatusTransportDiagnostics, TransportView};
use crate::text::{
    as_text, bound_error, bound_optional, bounded, bounded_opt, fits, str_of, text_of,
};

verus! {

/// A typed transcript-pump infrastructure failure. Coder supervision converts this
/// into a terminal error that bypasses the generic coder retry budget, so a capture
/// failure never masquerades as a retryable coder error.
///
/// The `message` is the immutable primary fault, the first thing that went wrong.
/// Bounded secondary diagnostics ride alongside it rather than overwriting it.
#[derive(Debug)]
pub struct TranscriptPumpError {
    message: String,
    /// The last best-effort periodic status write failure, retained as evidence.
    periodic_error: Option<String>,
    /// A terminal-settlement failure (the Complete/Failed status could not be
    /// persisted) observed while reporting the primary fault.
    settlement_error: Option<String>,
    /// A Complete-to-Failed fallback write failure.
    fallback_error: Option<String>,
    /// A status-coordinator worker panic or join failure.
    worker_error: Option<String>,
    /// The coordinator's balanced transport accounting, when a status coordinator
    /// was involved.
    transport: Option<StatusTransportDiagnostics>,
}

/// A typed failure as numbers and text.
#[verifier::ext_equal]
pub struct ErrorView {
    pub message: Seq<char>,
    pub periodic_error: Option<Seq<char>>,
    pub settlement_error: Option<Seq<char>>,
    pub fallback_error: Option<Seq<char>>,
    pub worker_error: Option<Seq<char>>,
    pub transport: Option<TransportView>,
}

/// The transport accounting that may be absent.
pub open spec fn transport_of(transport: Option<StatusTransportDiagnostics>) -> Option<
    TransportView,
> {
    match transport {
        Some(diagnostics) => Some(diagnostics@),
        None => None,
    }
}

impl ErrorView {
    /// A bare primary fault.
    pub open spec fn primary(message: Seq<char>) -> Self {
        ErrorView {
            message: bounded(message),
            periodic_error: None,
            settlement_error: None,
            fallback_error: None,
            worker_error: None,
            transport: None,
        }
    }

    /// The same primary fault carrying a settlement's diagnostics, each bounded.
    pub open spec fn with_settlement(self, settlement: SettlementView) -> Self {
        ErrorView {
            message: self.message,
            periodic_error: bounded_opt(settlement.periodic_error),
            settlement_error: bounded_opt(settlement.settlement_error),
            fallback_error: bounded_opt(settlement.fallback_error),
            worker_error: bounded_opt(settlement.worker_error),
            transport: Some(settlement.diagnostics),
        }
    }

    /// Every message of the failure is within the total cap.
    pub open spec fn within_cap(self) -> bool {
        &&& fits(Some(self.message))
        &&& fits(self.periodic_error)
        &&& fits(self.settlement_error)
        &&& fits(self.fallback_error)
        &&& fits(self.worker_error)
    }

    /// The failure as one line: the primary fault, then each secondary diagnostic
    /// that is present, behind its label.
    pub open spec fn display(self) -> Seq<char> {
        "transcript pump failure: "@ + self.message + labelled(
            "; terminal-status settlement failed: "@,
            self.settlement_error,
        ) + labelled("; failed-status fallback failed: "@, self.fallback_error) + labelled(
            "; last periodic status error: "@,
            self.periodic_error,
        ) + labelled("; status worker error: "@, self.worker_error)
    }
}

/// A label and a message, or nothing when the message is absent.
pub open spec fn labelled(label: Seq<char>, message: Option<Seq<char>>) -> Seq<char> {
    match message {
        Some(text) => label + text,
        None => Seq::empty(),
    }
}

impl View for TranscriptPumpError {
    type V = ErrorView;

    closed spec fn view(&self) -> ErrorView {
        ErrorView {
            message: self.message@,
            periodic_error: text_of(self.periodic_error),
            settlement_error: text_of(self.settlement_error),
            fallback_error: text_of(self.fallback_error),
            worker_error: text_of(self.worker_error),
            transport: transport_of(self.transport),
        }
    }
}

impl Clone for TranscriptPumpError {
    fn clone(&self) -> (copy: Self)
        ensures
            copy == *self,
    {
        proof {
            use_type_invariant(self);
        }
        TranscriptPumpError {
            message: self.message.clone(),
            periodic_error: self.periodic_error.clone(),
            settlement_error: self.settlement_error.clone(),
            fallback_error: self.fallback_error.clone(),
            worker_error: self.worker_error.clone(),
            transport: match &self.transport {
                Some(transport) => Some(transport.clone()),
                None => None,
            },
        }
    }
}

impl Default for TranscriptPumpError {
    fn default() -> (error: Self)
        ensures
            error@ == ErrorView::primary(Seq::empty()),
    {
        proof {
            reveal_strlit("");
            assert(""@ =~= Seq::<char>::empty());
        }
        TranscriptPumpError::new("")
    }
}

impl TranscriptPumpError {
    /// Every message that a failure carries is within the total cap.
    #[verifier::type_invariant]
    spec fn messages_fit(self) -> bool {
        self@.within_cap()
    }

    /// The one constructor every typed pump failure flows through; it bounds the
    /// primary so no pathological store error can bloat the returned failure.
    pub fn new(message: &str) -> (error: Self)
        ensures
            error@ == ErrorView::primary(message@),
            error@.within_cap(),
    {
        TranscriptPumpError {
            message: bound_error(message),
            periodic_error: None,
            settlement_error: None,
            fallback_error: None,
            worker_error: None,
            transport: None,
        }
    }

    pub fn message(&self) -> (text: &str)
        ensures
            text@ == self@.message,
            fits(Some(text@)),
    {
        proof {
            use_type_invariant(self);
        }
        self.message.as_str()
    }

    pub fn periodic_error(&self) -> (text: Option<&str>)
        ensures
            str_of(text) == self@.periodic_error,
            fits(str_of(text)),
    {
        proof {
            use_type_invariant(self);
        }
        as_text(&self.periodic_error)
    }

    pub fn settlement_error(&self) -> (text: Option<&str>)
        ensures
            str_of(text) == self@.settlement_error,
            fits(str_of(text)),
    {
        proof {
            use_type_invariant(self);
        }
        as_text(&self.settlement_error)
    }

    pub fn fallback_error(&self) -> (text: Option<&str>)
        ensures
            str_of(text) == self@.fallback_error,
            fits(str_of(text)),
    {
        proof {
            use_type_invariant(self);
        }
        as_text(&self.fallback_error)
    }

    pub fn worker_error(&self) -> (text: Option<&str>)
        ensures
            str_of(text) == self@.worker_error,
            fits(str_of(text)),
    {
        proof {
            use_type_invariant(self);
        }
        as_text(&self.worker_error)
    }

    pub fn transport(&self) -> (transport: Option<&StatusTransportDiagnostics>)
        ensures
            match transport {
                Some(diagnostics) => self@.transport == Some(diagnostics@),
                None => self@.transport is None,
            },
    {
        match &self.transport {
            Some(diagnostics) => Some(diagnostics),
            None => None,
        }
    }

    /// Fold a completed status settlement's secondary diagnostics onto this primary
    /// fault without overwriting the primary `message`.
    pub fn with_settlement(self, settlement: &StatusSettlement) -> (error: Self)
        ensures
            error@ == self@.with_settlement(settlement@),
            error@.within_cap(),
    {
        proof {
            use_type_invariant(&self);
        }
        TranscriptPumpError {
            message: self.message,
            periodic_error: bound_optional(as_text(&settlement.periodic_error)),
            settlement_error: bound_optional(as_text(&settlement.settlement_error)),
            fallback_error: bound_optional(as_text(&settlement.fallback_error)),
            worker_error: bound_optional(as_text(&settlement.worker_error)),
            transport: Some(settlement.diagnostics.clone()),
        }
    }

    /// The failure as one line of text.
    pub fn display(&self) -> (line: String)
        ensures
            line@ == self@.display(),
    {
        let mut line = "transcript pump failure: ".to_string();
        line.append(self.message.as_str());
        append_labelled(
            &mut line,
            "; terminal-status settlement failed: ",
            &self.settlement_error,
        );
        append_labelled(&mut line, "; failed-status fallback failed: ", &self.fallback_error);
        append_labelled(&mut line, "; last periodic status error: ", &self.periodic_error);
        append_labelled(&mut line, "; status worker error: ", &self.worker_error);
        line
    }
}

fn append_labelled(line: &mut String, label: &str, message: &Option<String>)
    ensures
        final(line)@ == old(line)@ + labelled(label@, text_of(*message)),
{
    match message {
        Some(text) => {
            line.append(label);
            line.append(text.as_str());
            assert(line@ =~= old(line)@ + (label@ + text@));
        },
        None => {
            assert(line@ =~= old(line)@ + Seq::<char>::empty());
        },
    }
}

/// The outcome of settling a status coordinator at terminal time. It carries the
/// balanced transport diagnostics and any terminal-settlement, fallback, or worker
/// failure so the drain can build a composite typed error that never masks the primary
/// fault.
#[derive(Debug)]
pub struct StatusSettlement {
    pub diagnostics: StatusTransportDiagnostics,
    /// The terminal status (Complete or Failed) could not be persisted.
    pub settlement_error: Option<String>,
    /// A Complete-to-Failed fallback also failed to persist.
    pub fallback_error: Option<String>,
    /// The last best-effort periodic write failure, kept distinct from required and
    /// terminal failures.
    pub periodic_error: Option<String>,
    /// The coordinator worker panicked or could not be joined.
    pub worker_error: Option<String>,
}

/// A settlement as numbers and text.
#[verifier::ext_equal]
pub struct SettlementView {
    pub diagnostics: TransportView,
    pub settlement_error: Option<Seq<char>>,
    pub fallback_error: Option<Seq<char>>,
    pub periodic_error: Option<Seq<char>>,
    pub worker_error: Option<Seq<char>>,
}

impl SettlementView {
    /// A settlement that carries only the transport accounting.
    pub open spec fn clean(diagnostics: TransportView) -> Self {
        SettlementView {
            diagnostics,
            settlement_error: None,
            fallback_error: None,
            periodic_error: None,
            worker_error: None,
        }
    }

    /// What the settlement reports as the primary fault: the settlement failure, or,
    /// without one, the worker failure.
    pub open spec fn fault(self) -> Option<Seq<char>> {
        if self.settlement_error is Some {
            self.settlement_error
        } else {
            self.worker_error
        }
    }

    /// The composite failure of a settlement with a fault.
    pub open spec fn terminal_failure(self) -> Option<ErrorView> {
        match self.fault() {
            Some(message) => Some(ErrorView::primary(message).with_settlement(self)),
            None => None,
        }
    }
}

/// A result without a value, its failure taken by its view.
pub open spec fn outcome_of(outcome: Result<(), TranscriptPumpError>) -> Result<(), ErrorView> {
    match outcome {
        Ok(()) => Ok(()),
        Err(error) => Err(error@),
    }
}

/// The typed failure that may be absent.
pub open spec fn error_of(error: Option<TranscriptPumpError>) -> Option<ErrorView> {
    match error {
        Some(failure) => Some(failure@),
        None => None,
    }
}

impl View for StatusSettlement {
    type V = SettlementView;

    open spec fn view(&self) -> SettlementView {
        SettlementView {
            diagnostics: self.diagnostics@,
            settlement_error: text_of(self.settlement_error),
            fallback_error: text_of(self.fallback_error),
            periodic_error: text_of(self.periodic_error),
            worker_error: text_of(self.worker_error),
        }
    }
}

impl Default for StatusSettlement {
    fn default() -> (settlement: Self)
        ensures
            settlement@ == SettlementView::clean(TransportView::empty()),
    {
        StatusSettlement {
            diagnostics: StatusTransportDiagnostics::default(),
            settlement_error: None,
            fallback_error: None,
            periodic_error: None,
            worker_error: None,
        }
    }
}

impl StatusSettlement {
    /// A settled capture is a terminal infrastructure failure when the terminal status
    /// could not be persisted (even if a Failed fallback landed, capture is not
    /// independently observable) OR when the status worker panicked. Build the
    /// composite typed error, or `None` when settlement succeeded cleanly.
    pub fn terminal_failure(&self) -> (failure: Option<TranscriptPumpError>)
        ensures
            error_of(failure) == self@.terminal_failure(),
            failure matches Some(error) ==> error@.within_cap(),
    {
        let message = match &self.settlement_error {
            Some(error) => error.as_str(),
            None => match &self.worker_error {
                Some(error) => error.as_str(),
                None => {
                    return None;
                },
            },
        };
        Some(TranscriptPumpError::new(message).with_settlement(self))
    }
}

/// A failure that picks up settlement diagnostics keeps its primary fault, and nothing
/// that was present in the settlement is lost from its own field.
pub proof fn law_settlement_never_masks_primary(error: ErrorView, settlement: SettlementView)
    ensures
        error.with_settlement(settlement).message == error.message,
        error.with_settlement(settlement).settlement_error is Some
            <==> settlement.settlement_error is Some,
        error.with_settlement(settlement).fallback_error is Some
            <==> settlement.fallback_error is Some,
        error.with_settlement(settlement).periodic_error is Some
            <==> settlement.periodic_error is Some,
        error.with_settlement(settlement).worker_error is Some <==> settlement.worker_error is Some,
        error.with_settlement(settlement).transport == Some(settlement.diagnostics),
{
}

/// Settlement is a clean success exactly when neither the terminal write nor the worker
/// failed; a periodic failure alone never fails capture.
pub proof fn law_terminal_failure_iff_unobservable(settlement: SettlementView)
    ensures
        settlement.terminal_failure() is None <==> settlement.settlement_error is None
            && settlement.worker_error is None,
        settlement.settlement_error matches Some(error) ==> settlement.terminal_failure().unwrap().message
            == bounded(error),
{
}

/// A failure is its message, bounded, and nothing beside it.
pub proof fn law_primary_carries_its_message_alone(message: Seq<char>)
    ensures
        ErrorView::primary(message).message == bounded(message),
        ErrorView::primary(message).periodic_error is None,
        ErrorView::primary(message).settlement_error is None,
        ErrorView::primary(message).fallback_error is None,
        ErrorView::primary(message).worker_error is None,
        ErrorView::primary(message).transport is None,
{
}

/// Each diagnostic of a settlement is found in its own field of the failure, bounded.
pub proof fn law_diagnostics_keep_their_fields(
    error: ErrorView,
    settlement: SettlementView,
    text: Seq<char>,
)
    ensures
        settlement.periodic_error == Some(text) ==> error.with_settlement(settlement).periodic_error
            == Some(bounded(text)),
        settlement.settlement_error == Some(text) ==> error.with_settlement(
            settlement,
        ).settlement_error == Some(bounded(text)),
        settlement.fallback_error == Some(text) ==> error.with_settlement(settlement).fallback_error
            == Some(bounded(text)),
        settlement.worker_error == Some(text) ==> error.with_settlement(settlement).worker_error
            == Some(bounded(text)),
{
}

/// A settlement's failure names the settlement failure before the worker failure, and
/// carries everything that the settlement carries.
pub proof fn law_terminal_failure_names_its_cause(settlement: SettlementView)
    ensures
        settlement.settlement_error matches Some(cause) ==> (
        settlement.terminal_failure() matches Some(error) && error.message == bounded(cause)
            && error.settlement_error == Some(bounded(cause)) && error.transport == Some(
            settlement.diagnostics,
        )),
        settlement.settlement_error is None ==> (settlement.worker_error matches Some(cause) ==> (
        settlement.terminal_failure() matches Some(error) && error.message == bounded(cause)
            && error.worker_error == Some(bounded(cause)) && error.transport == Some(
            settlement.diagnostics,
        ))),
        settlement.terminal_failure() matches Some(error) ==> {
            &&& error.periodic_error is Some <==> settlement.periodic_error is Some
            &&& error.fallback_error is Some <==> settlement.fallback_error is Some
            &&& error.worker_error is Some <==> settlement.worker_error is Some
        },
{
}

/// The line of a failure is the primary fault, followed by each diagnostic that is present
/// behind its own label, in this order: settlement, fallback, periodic, worker.
pub proof fn law_display_names_each_diagnostic(error: ErrorView)
    ensures
        ({
            let settled = match error.settlement_error {
                Some(text) => "; terminal-status settlement failed: "@ + text,
                None => Seq::empty(),
            };
            let fell_back = match error.fallback_error {
                Some(text) => "; failed-status fallback failed: "@ + text,
                None => Seq::empty(),
            };
            let periodic = match error.periodic_error {
                Some(text) => "; last periodic status error: "@ + text,
                None => Seq::empty(),
            };
            let worker = match error.worker_error {
                Some(text) => "; status worker error: "@ + text,
                None => Seq::empty(),
            };
            error.display() == "transcript pump failure: "@ + error.message + settled + fell_back
                + periodic + worker
        }),
{
}

/// A settlement is read off its fields as they stand.
pub proof fn law_settlement_is_read_as_it_stands(settlement: StatusSettlement)
    ensures
        settlement@.diagnostics == settlement.diagnostics@,
        settlement@.settlement_error == text_of(settlement.settlement_error),
        settlement@.fallback_error == text_of(settlement.fallback_error),
        settlement@.periodic_error == text_of(settlement.periodic_error),
        settlement@.worker_error == text_of(settlement.worker_error),
{
}
} // verus!
