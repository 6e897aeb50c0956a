//! Captures against an in-memory stream, transcript and status store.

use std::sync::Mutex;
use std::time::{Duration, Instant};

use transcript_pump::capture::{
    persist_failure, Capture, CaptureAction, CaptureEvent, CapturePhase, ChunkWrite,
};
use transcript_pump::config::{FlushInterval, TranscriptPumpConfig, DEFAULT_CONSOLE_PREVIEW_LIMIT};
use transcript_pump::coordinator::{
    required_outcome, AbandonmentAuthority, JoinOutcome, SharedStatusState,
};
use transcript_pump::drain::Drained;
use transcript_pump::error::TranscriptPumpError;
use transcript_pump::fault::FirstFault;
use transcript_pump::preview::{
    console_preview_sink, PreviewSink, TRUNCATION_MARKER,
};
use transcript_pump::status::{PumpState, PumpStatus, PumpSummary, PUMP_STATUS_SCHEMA_VERSION};
use transcript_pump::text::MAX_STATUS_ERROR_LEN;
use transcript_pump::worker::{StatusWorker, WorkerAction};

/// A sink that records every delivered preview and always accepts.
struct RecordingSink {
    previews: Mutex<Vec<Vec<u8>>>,
}

impl RecordingSink {
    fn new() -> Self {
        Self {
            previews: Mutex::new(Vec::new()),
        }
    }
}

impl PreviewSink for RecordingSink {
    fn deliver(&self, preview: &[u8]) -> bool {
        self.previews.lock().unwrap().push(preview.to_vec());
        true
    }
}

/// A sink that refuses every preview and counts the offers.
struct SaturatedSink {
    offered: Mutex<u64>,
}

impl SaturatedSink {
    fn new() -> Self {
        Self {
            offered: Mutex::new(0),
        }
    }
}

impl PreviewSink for SaturatedSink {
    fn deliver(&self, _preview: &[u8]) -> bool {
        *self.offered.lock().unwrap() += 1;
        false
    }
}

/// What the next read finds.
enum Input {
    Bytes(Vec<u8>),
    Fails(&'static str),
    Panics,
}

/// What a store does with a document of a state.
enum Reply {
    Lands,
    Fails(String),
    Panics,
}

type StoreFn = Box<dyn Fn(PumpState) -> Reply>;

/// Everything around a capture, in memory.
struct World {
    input: Vec<Input>,
    transcript: Vec<u8>,
    create: Result<(), String>,
    flush: Result<(), String>,
    /// What each write returns; once exhausted, everything is written at once.
    writes: Vec<ChunkWrite>,
    elapsed: u128,
    /// The sink never comes back from its first offer.
    sink_panics: bool,
    store: Option<StoreFn>,
    documents: Vec<PumpStatus>,
    latch: FirstFault,
}

fn world(bytes: &[u8]) -> World {
    World {
        input: vec![Input::Bytes(bytes.to_vec())],
        transcript: Vec::new(),
        create: Ok(()),
        flush: Ok(()),
        writes: Vec::new(),
        elapsed: 0,
        sink_panics: false,
        store: None,
        documents: Vec::new(),
        latch: FirstFault::default(),
    }
}

fn observed(bytes: &[u8]) -> World {
    let mut world = world(bytes);
    world.store = Some(Box::new(|_| Reply::Lands));
    world
}

struct Status {
    shared: SharedStatusState,
    worker: StatusWorker,
    exited: Option<JoinOutcome>,
}

impl World {
    /// Let the status worker run until it waits or exits.
    fn run_worker(&mut self, status: &mut Status) {
        while status.exited.is_none() {
            let mut action = status.worker.next_action(&mut status.shared, 5);
            loop {
                match action {
                    WorkerAction::AwaitWake => return,
                    WorkerAction::Continue => break,
                    WorkerAction::Exit(settlement) => {
                        status.exited = Some(JoinOutcome::Settled(settlement));
                        break;
                    }
                    WorkerAction::Write(document) => {
                        let reply = (self.store.as_ref().unwrap())(document.state);
                        self.documents.push(document);
                        let result = match reply {
                            Reply::Lands => Ok(()),
                            Reply::Fails(error) => Err(error),
                            Reply::Panics => {
                                status.exited = Some(JoinOutcome::Settled(
                                    status.worker.unwound(&mut status.shared, &mut self.latch),
                                ));
                                break;
                            }
                        };
                        action = status.worker.write_returned(
                            &mut status.shared,
                            &mut self.latch,
                            result,
                            5,
                        );
                    }
                }
            }
        }
    }

    /// Drain the stream. `None` from the capture stands for a panic.
    fn drain<P: PreviewSink + ?Sized>(
        &mut self,
        preview: &P,
        config: TranscriptPumpConfig,
    ) -> Result<PumpSummary, TranscriptPumpError> {
        let mut status = Status {
            shared: SharedStatusState::new(),
            worker: StatusWorker::new(),
            exited: None,
        };
        let mut capture = Capture::new("t.jsonl", config, 1, self.store.is_some());
        let result = self.capture(&mut capture, preview, &mut status);
        let drained = Drained::publish(result, &capture.counters, 1, &mut self.latch);
        if self.store.is_none() {
            return drained.unobserved();
        }
        status.shared.begin_finish(drained.terminal());
        self.run_worker(&mut status);
        let authority = AbandonmentAuthority::assume_worker_abandoned();
        let outcome = status.exited.take().expect("the worker exits");
        let settlement = status.shared.complete_finish(outcome, &authority);
        assert!(status.shared.is_quiescent());
        drained.settled(settlement)
    }

    fn capture<P: PreviewSink + ?Sized>(
        &mut self,
        capture: &mut Capture,
        preview: &P,
        status: &mut Status,
    ) -> Option<Result<(), TranscriptPumpError>> {
        let mut action = capture.first_action();
        let mut reads = 0;
        self.input.reverse();
        self.writes.reverse();
        loop {
            let event = match action {
                CaptureAction::Create => CaptureEvent::Created(self.create.clone()),
                CaptureAction::SubmitRequired(document) => {
                    let acknowledged = match status.shared.enqueue_required(document) {
                        Ok(waiter) => {
                            self.run_worker(status);
                            required_outcome(waiter.wait(&status.shared.acks))
                        }
                        Err(error) => Err(error),
                    };
                    CaptureEvent::Acknowledged(acknowledged)
                }
                CaptureAction::Read(size) => {
                    reads += 1;
                    assert!(reads < 1_000_000);
                    match self.input.pop() {
                        None => CaptureEvent::Read(Ok(Vec::new())),
                        Some(Input::Fails(error)) => CaptureEvent::Read(Err(error.to_string())),
                        Some(Input::Panics) => return None,
                        Some(Input::Bytes(mut bytes)) => {
                            if bytes.len() > size {
                                let rest = bytes.split_off(size);
                                self.input.push(Input::Bytes(rest));
                            }
                            CaptureEvent::Read(Ok(bytes))
                        }
                    }
                }
                CaptureAction::Write => {
                    let pending = capture.unwritten().to_vec();
                    assert!(!pending.is_empty());
                    let write = match self.writes.pop() {
                        Some(ChunkWrite::Wrote(n)) => ChunkWrite::Wrote(n.min(pending.len())),
                        Some(other) => other,
                        None => ChunkWrite::Wrote(pending.len()),
                    };
                    if let ChunkWrite::Wrote(n) = &write {
                        self.transcript.extend_from_slice(&pending[..*n]);
                    }
                    CaptureEvent::Wrote(write)
                }
                CaptureAction::Offer(rendered) => {
                    if self.sink_panics {
                        return None;
                    }
                    CaptureEvent::Offered(preview.deliver(&rendered))
                }
                CaptureAction::Measure => CaptureEvent::Elapsed(self.elapsed),
                CaptureAction::Snapshot(document) => {
                    if let Some(document) = document {
                        if status.shared.submit_periodic(document) {
                            self.run_worker(status);
                        }
                    }
                    CaptureEvent::Snapshotted
                }
                CaptureAction::Flush => CaptureEvent::Flushed(self.flush.clone()),
                CaptureAction::Finish(outcome) => return Some(outcome),
            };
            action = capture.advance(event, 5);
        }
    }

    fn last(&self) -> &PumpStatus {
        self.documents.last().expect("a document was written")
    }
}

#[test]
fn complete_write_failure_falls_back_to_failed() {
    let mut world = observed(b"{\"a\":1}\n");
    world.store = Some(Box::new(|state| match state {
        PumpState::Complete => {
            Reply::Fails("persist pump status: simulated Complete write failure".to_string())
        }
        _ => Reply::Lands,
    }));
    let err = world
        .drain(&SaturatedSink::new(), TranscriptPumpConfig::default())
        .expect_err("an unpersistable Complete status fails the drain");
    assert!(
        err.message().contains("simulated Complete write failure"),
        "the primary names the Complete write failure: {err:?}"
    );
    assert!(
        err.settlement_error()
            .is_some_and(|s| s.contains("simulated Complete write failure")),
        "the terminal-settlement failure is attached to its dedicated field: {err:?}"
    );
    assert!(
        err.fallback_error().is_none(),
        "the Failed fallback persisted, so no fallback error"
    );
    let attempts: Vec<PumpState> = world.documents.iter().map(|s| s.state).collect();
    assert_eq!(
        attempts,
        vec![PumpState::Running, PumpState::Complete, PumpState::Failed],
        "a Complete write was attempted, then a Failed fallback"
    );
}

#[test]
fn composite_status_failures_preserve_primary_and_settlement_errors() {
    let mut world = observed(b"{\"rec\":1}\n");
    world
        .input
        .push(Input::Fails("simulated stdout read failure"));
    world.store = Some(Box::new(|state| match state {
        PumpState::Failed => {
            Reply::Fails("persist pump status: simulated Failed write failure".to_string())
        }
        _ => Reply::Lands,
    }));
    let err = world
        .drain(&SaturatedSink::new(), TranscriptPumpConfig::default())
        .expect_err("a mid-stream read failure fails the drain");

    assert!(
        err.message().contains("read coder stdout"),
        "the immutable primary fault is preserved: {err:?}"
    );
    assert!(
        err.settlement_error()
            .is_some_and(|s| s.contains("simulated Failed write failure")),
        "the terminal-settlement failure rides alongside the primary: {err:?}"
    );
    assert!(
        err.transport().is_some_and(|t| t.is_balanced()),
        "the balanced transport diagnostics are preserved"
    );
    assert_eq!(
        world.latch.message().as_deref(),
        Some("read coder stdout: simulated stdout read failure"),
        "the capture fault is published before the settlement failure"
    );
}

#[test]
fn composite_diagnostics_are_distinct_and_bounded() {
    let mut world = observed(b"{\"a\":1}\n");
    world.store = Some(Box::new(|state| match state {
        PumpState::Running => Reply::Lands,
        PumpState::Complete => Reply::Fails("C".repeat(5000)),
        PumpState::Failed => Reply::Fails("F".repeat(5000)),
    }));
    let err = world
        .drain(&SaturatedSink::new(), TranscriptPumpConfig::default())
        .expect_err("both terminal writes failing fails the drain");

    assert!(
        err.message().starts_with('C'),
        "the primary is the Complete write failure"
    );
    assert!(
        err.message().len() <= MAX_STATUS_ERROR_LEN,
        "the primary is bounded"
    );
    let fallback = err
        .fallback_error()
        .expect("the Failed fallback also failed");
    assert!(fallback.starts_with('F'), "the fallback error is distinct");
    assert!(
        fallback.len() <= MAX_STATUS_ERROR_LEN,
        "the fallback error is bounded"
    );
    assert_ne!(
        err.message(),
        fallback,
        "the Complete and Failed errors are preserved distinctly"
    );
}

#[test]
fn status_worker_panic_recovers_pump_promptly() {
    let mut world = observed(b"{\"rec\":1}\n");
    world.store = Some(Box::new(|state| match state {
        PumpState::Running => Reply::Lands,
        _ => Reply::Panics,
    }));
    let started = Instant::now();
    let outcome = world.drain(console_preview_sink(), TranscriptPumpConfig::default());
    let elapsed = started.elapsed();
    assert!(
        outcome.is_err(),
        "a status worker panic surfaces a typed pump failure"
    );
    assert!(
        elapsed < Duration::from_secs(5),
        "panic recovery must be prompt, not blocked; took {elapsed:?}"
    );
    assert!(
        world.latch.observed(),
        "the status worker panic latched the first fault"
    );
}

#[test]
fn successful_capture_returns_balanced_transport() {
    let mut world = observed(b"{\"a\":1}\n");
    let summary = world
        .drain(&SaturatedSink::new(), TranscriptPumpConfig::default())
        .unwrap();
    assert_eq!(summary.transport.submitted, 2, "initial Running + terminal");
    assert_eq!(summary.transport.written, 2, "both persisted");
    assert_eq!(summary.transport.coalesced, 0);
    assert_eq!(summary.transport.dropped, 0);
    assert_eq!(summary.transport.disconnected, 0);
    assert_eq!(summary.transport.write_failures, 0);
    assert!(summary.transport.is_balanced());
}

#[test]
fn oversized_record_does_not_block_later_records() {
    let big = "x".repeat(70_350);
    let mut input = Vec::new();
    input.extend_from_slice(format!("{{\"type\":\"big\",\"data\":\"{big}\"}}\n").as_bytes());
    input.extend_from_slice(b"{\"type\":\"after\"}\n");

    let mut world = world(&input);
    let summary = world
        .drain(&RecordingSink::new(), TranscriptPumpConfig::default())
        .unwrap();
    assert_eq!(
        world.transcript, input,
        "every emitted byte must persist exactly and in order"
    );
    assert_eq!(summary.bytes, input.len() as u64);
    assert_eq!(
        summary.records, 2,
        "draining must continue past the oversized record"
    );
}

#[test]
fn saturated_console_does_not_stop_transcript_capture() {
    let mut input = Vec::new();
    for i in 0..5 {
        input.extend_from_slice(format!("{{\"type\":\"rec\",\"n\":{i}}}\n").as_bytes());
    }
    let sink = SaturatedSink::new();
    let mut world = world(&input);
    let summary = world.drain(&sink, TranscriptPumpConfig::default()).unwrap();
    assert_eq!(
        world.transcript, input,
        "a saturated console must not cost the transcript any bytes"
    );
    assert_eq!(summary.records, 5);
    assert_eq!(
        summary.dropped_console, 5,
        "every undelivered preview must be counted"
    );
    assert_eq!(*sink.offered.lock().unwrap(), 5);
}

#[test]
fn pump_status_moves_atomically_through_terminal_states() {
    let sink = SaturatedSink::new();
    let mut world = observed(b"{\"type\":\"a\"}\n{\"type\":\"b\"}\n");
    world.drain(&sink, TranscriptPumpConfig::default()).unwrap();
    let persisted = world.last();
    assert_eq!(persisted.schema_version, PUMP_STATUS_SCHEMA_VERSION);
    assert_eq!(persisted.state, PumpState::Complete);
    assert_eq!(persisted.records, 2);
    assert_eq!(persisted.dropped_console, 2);
    assert!(persisted.bytes > 0);
    assert!(persisted.updated_at_ms >= persisted.started_at_ms);
    assert!(persisted.error.is_none());

    let mut bad = observed(b"");
    bad.create = Err("Is a directory".to_string());
    let err = bad
        .drain(&sink, TranscriptPumpConfig::default())
        .unwrap_err();
    assert!(err.message().contains("create transcript"));
    assert_eq!(
        err.message(),
        "create transcript at t.jsonl: Is a directory"
    );
    let failed = bad.last();
    assert_eq!(failed.state, PumpState::Failed);
    assert!(
        failed
            .error
            .as_deref()
            .unwrap_or_default()
            .contains("create transcript"),
        "the terminal failure must name the specific pump error"
    );
}

#[test]
fn oversized_console_preview_is_bounded() {
    let limit = 128;
    let big = "y".repeat(4096);
    let input = format!("{{\"big\":\"{big}\"}}\n").into_bytes();

    let sink = RecordingSink::new();
    let config = TranscriptPumpConfig {
        console_preview_limit: limit,
        ..TranscriptPumpConfig::default()
    };
    let mut world = world(&input);
    world.drain(&sink, config).unwrap();

    let previews = sink.previews.lock().unwrap();
    assert_eq!(previews.len(), 1);
    let preview = &previews[0];
    assert!(
        preview.ends_with(&TRUNCATION_MARKER),
        "an oversized preview must carry the truncation marker"
    );
    assert!(
        preview.len() <= limit,
        "the TOTAL rendered preview must stay within the limit, got {} bytes",
        preview.len()
    );
    assert_eq!(
        &preview[..limit - TRUNCATION_MARKER.len()],
        &input[..limit - TRUNCATION_MARKER.len()]
    );
    assert_eq!(world.transcript, input);
    assert!(
        world.transcript.len() > preview.len(),
        "the transcript record must exceed its bounded preview"
    );
}

#[test]
fn invalid_utf8_is_preserved_and_capture_continues() {
    let mut input = Vec::new();
    input.extend_from_slice(b"{\"type\":\"bad\",\"data\":\"");
    input.extend_from_slice(&[0xff, 0xfe, 0x80, 0x00]);
    input.extend_from_slice(b"\"}\n");
    input.extend_from_slice(b"{\"type\":\"after-invalid-utf8\"}\n");

    let mut world = world(&input);
    let summary = world
        .drain(&RecordingSink::new(), TranscriptPumpConfig::default())
        .unwrap();
    assert_eq!(
        world.transcript, input,
        "raw bytes must be preserved unchanged"
    );
    assert_eq!(summary.records, 2, "capture continues after invalid UTF-8");
}

#[test]
fn trailing_record_without_newline_is_captured_and_counted() {
    let mut input = Vec::new();
    input.extend_from_slice(b"{\"type\":\"first\"}\n");
    input.extend_from_slice(b"{\"type\":\"last-no-newline\"}");

    let sink = SaturatedSink::new();
    let mut world = observed(&input);
    let summary = world.drain(&sink, TranscriptPumpConfig::default()).unwrap();
    assert_eq!(
        world.transcript, input,
        "the trailing record's bytes must be preserved without a synthesized newline"
    );
    assert_eq!(
        summary.records, 2,
        "the newline-less trailing record is counted"
    );
    assert_eq!(
        summary.dropped_console, 2,
        "the trailing record's preview participates in drop accounting"
    );
    assert_eq!(*sink.offered.lock().unwrap(), 2);

    let persisted = world.last();
    assert_eq!(persisted.state, PumpState::Complete);
    assert_eq!(persisted.records, 2);
    assert_eq!(persisted.dropped_console, 2);
    assert_eq!(persisted.bytes, input.len() as u64);
}

#[test]
fn production_console_sink_declines_and_counts_every_preview() {
    let mut input = Vec::new();
    for i in 0..6 {
        input.extend_from_slice(format!("{{\"n\":{i}}}\n").as_bytes());
    }
    let sink = console_preview_sink();
    assert!(
        !sink.deliver(b"any preview"),
        "the production sink must decline previews so none is counted delivered"
    );
    let mut world = world(&input);
    let summary = world.drain(sink, TranscriptPumpConfig::default()).unwrap();
    assert_eq!(world.transcript, input);
    assert_eq!(summary.records, 6);
    assert_eq!(
        summary.dropped_console, summary.records,
        "every declined preview must be counted; dropped_console must equal records"
    );
}

#[test]
fn unwritable_status_path_is_a_typed_terminal_failure() {
    let mut world = observed(b"{\"a\":1}\n");
    world.store = Some(Box::new(|_| {
        Reply::Fails(persist_failure(
            "missing-dir/transcript-pump.json",
            "No such file or directory",
        ))
    }));
    let err = world
        .drain(&SaturatedSink::new(), TranscriptPumpConfig::default())
        .expect_err("an unwritable required status must fail the pump");
    assert!(
        err.message().contains("persist pump status"),
        "the failure must name the status persistence problem: {err:?}"
    );
    assert_eq!(
        err.message(),
        "persist pump status at missing-dir/transcript-pump.json: No such file or directory"
    );
}

#[test]
fn required_status_failure_is_typed_and_preserves_counts() {
    // A required status that cannot be persisted fails the drain.
    let mut unwritable = observed(b"{\"a\":1}\n");
    unwritable.store = Some(Box::new(|_| {
        Reply::Fails("persist pump status at x: missing".to_string())
    }));
    let err = unwritable
        .drain(&SaturatedSink::new(), TranscriptPumpConfig::default())
        .expect_err("an unwritable required status must fail the pump");
    assert!(err.message().contains("persist pump status"));
    assert!(
        unwritable.transcript.is_empty(),
        "nothing is read before the required status is acknowledged"
    );

    // A mid-stream read failure keeps the counts observed before it.
    let mut broken = observed(b"{\"rec\":1}\n");
    broken
        .input
        .push(Input::Fails("simulated stdout read failure"));
    let err2 = broken
        .drain(&SaturatedSink::new(), TranscriptPumpConfig::default())
        .expect_err("a mid-stream read failure fails the drain");
    assert!(
        err2.message().contains("read coder stdout"),
        "the failure must name the read error: {err2:?}"
    );
    let failed = broken.last();
    assert_eq!(failed.state, PumpState::Failed);
    assert_eq!(
        failed.records, 1,
        "the terminal status preserves the record observed before the failure"
    );
    assert_eq!(
        failed.bytes,
        b"{\"rec\":1}\n".len() as u64,
        "and the bytes persisted before the failure"
    );
    assert!(failed
        .error
        .as_deref()
        .unwrap_or_default()
        .contains("read coder stdout"));
}

#[test]
fn preview_is_bounded_even_when_limit_is_below_the_marker() {
    for &limit in &[0usize, 1, TRUNCATION_MARKER.len() - 1] {
        let big = "z".repeat(4096);
        let input = format!("{{\"b\":\"{big}\"}}\n").into_bytes();
        let sink = RecordingSink::new();
        let config = TranscriptPumpConfig {
            console_preview_limit: limit,
            ..TranscriptPumpConfig::default()
        };
        let mut world = world(&input);
        world.drain(&sink, config).unwrap();
        let previews = sink.previews.lock().unwrap();
        assert_eq!(previews.len(), 1);
        assert!(
            previews[0].len() <= limit,
            "limit {limit}: the rendered preview must stay within the limit, got {}",
            previews[0].len()
        );
        assert_eq!(previews[0], TRUNCATION_MARKER[..limit]);
        assert_eq!(
            world.transcript, input,
            "the canonical transcript still holds every byte"
        );
    }
}

/// A transcript writer that persists a bounded budget of bytes and then errors.
struct WriteThenFail {
    budget: usize,
}

impl WriteThenFail {
    fn write(&mut self, buf: &[u8]) -> ChunkWrite {
        if self.budget == 0 {
            return ChunkWrite::Failed("simulated disk full".to_string());
        }
        let n = self.budget.min(buf.len());
        self.budget -= n;
        ChunkWrite::Wrote(n)
    }
}

#[test]
fn partial_write_accounts_only_persisted_bytes_before_erroring() {
    let mut capture = Capture::new("t.jsonl", TranscriptPumpConfig::default(), 0, false);
    assert_eq!(
        capture.config.console_preview_limit,
        DEFAULT_CONSOLE_PREVIEW_LIMIT
    );
    let sink = SaturatedSink::new();
    let chunk = b"{\"rec\":1}\n{\"rec\":2}\n"; // 20 bytes, two records
    let mut writer = WriteThenFail { budget: 10 }; // persists exactly the first record
    capture.advance(CaptureEvent::Created(Ok(())), 0);
    let mut action = capture.advance(CaptureEvent::Read(Ok(chunk.to_vec())), 0);
    let err = loop {
        match action {
            CaptureAction::Write => {
                let write = writer.write(capture.unwritten());
                action = capture.persist_chunk(write);
            }
            CaptureAction::Offer(rendered) => {
                let delivered = sink.deliver(&rendered);
                action = capture.advance(CaptureEvent::Offered(delivered), 0);
            }
            CaptureAction::Finish(outcome) => {
                let err = outcome.expect_err("the writer fails once its budget is exhausted");
                break err;
            }
            other => panic!("the chunk is not fully persisted: {other:?}"),
        }
    };
    assert!(err.message().contains("write transcript"), "typed: {err:?}");
    assert_eq!(
        err.message(),
        "write transcript at t.jsonl: simulated disk full"
    );
    let snap = capture.counters.snapshot();
    assert_eq!(snap.bytes, 10, "only the persisted prefix is counted");
    assert_eq!(
        snap.records, 1,
        "only the record whose bytes were persisted is counted"
    );
}

#[test]
fn panicking_preview_sink_counts_the_dropped_record() {
    // The sink never comes back from its offer: the loss was accounted before.
    let mut world = observed(b"{\"rec\":1}\n");
    world.sink_panics = true;
    let outcome = world.drain(&RecordingSink::new(), TranscriptPumpConfig::default());
    assert!(
        outcome.is_err(),
        "a panicking preview sink surfaces a typed pump failure"
    );
    assert_eq!(outcome.unwrap_err().message(), "transcript pump panicked");
    let persisted = world.last();
    assert_eq!(persisted.state, PumpState::Failed);
    assert_eq!(persisted.error.as_deref(), Some("transcript pump panicked"));
    assert_eq!(
        persisted.records, 1,
        "the record whose bytes persisted is counted"
    );
    assert_eq!(
        persisted.dropped_console, 1,
        "its preview, lost to the panic, is accounted as dropped"
    );
    assert_eq!(persisted.bytes, 10);
}

#[test]
fn a_panic_inside_a_chunk_counts_all_its_persisted_bytes() {
    let mut world = observed(b"one\ntwo\nthree");
    world.sink_panics = true;
    world
        .drain(&RecordingSink::new(), TranscriptPumpConfig::default())
        .unwrap_err();
    assert_eq!(world.transcript, b"one\ntwo\nthree".to_vec());
    let persisted = world.last();
    assert_eq!(
        (persisted.bytes, persisted.records, persisted.dropped_console),
        (13, 1, 1)
    );
}

#[test]
fn a_preview_is_handed_out_once_with_its_loss_counted() {
    let mut capture = Capture::new("p", TranscriptPumpConfig::default(), 0, false);
    capture.advance(CaptureEvent::Created(Ok(())), 0);
    capture.advance(CaptureEvent::Read(Ok(b"a\nb\n".to_vec())), 0);
    match capture.advance(CaptureEvent::Wrote(ChunkWrite::Wrote(4)), 0) {
        CaptureAction::Offer(rendered) => assert_eq!(rendered, b"a".to_vec()),
        other => panic!("the first record is offered: {other:?}"),
    }
    assert_eq!(capture.phase, CapturePhase::Offering);
    let counts = |c: &Capture| {
        let s = c.counters.snapshot();
        (s.bytes, s.records, s.dropped_console)
    };
    assert_eq!(counts(&capture), (4, 1, 1));
    match capture.advance(CaptureEvent::Offered(true), 0) {
        CaptureAction::Offer(rendered) => assert_eq!(rendered, b"b".to_vec()),
        other => panic!("then the second: {other:?}"),
    }
    assert_eq!(counts(&capture), (4, 2, 1));
    assert!(matches!(
        capture.advance(CaptureEvent::Offered(false), 0),
        CaptureAction::Measure
    ));
    assert_eq!(counts(&capture), (4, 2, 1));
}

#[test]
fn captures_use_independent_configs() {
    let big = "q".repeat(4096);
    let input = format!("{{\"x\":\"{big}\"}}\n").into_bytes();
    let run_one = |limit: usize| -> usize {
        let sink = RecordingSink::new();
        let config = TranscriptPumpConfig {
            console_preview_limit: limit,
            ..TranscriptPumpConfig::default()
        };
        world(&input).drain(&sink, config).unwrap();
        let previews = sink.previews.lock().unwrap();
        previews[0].len()
    };
    let a = run_one(64);
    let b = run_one(256);
    assert!(a <= 64, "capture A must honor its own 64-byte limit, got {a}");
    assert!(
        b <= 256,
        "capture B must honor its own 256-byte limit, got {b}"
    );
    assert_ne!(a, b, "each capture used its own config");
}

#[test]
fn pump_panic_preserves_counters_and_recovers_promptly() {
    let mut world = observed(b"{\"rec\":1}\n");
    world.input.push(Input::Panics);
    let err = world
        .drain(console_preview_sink(), TranscriptPumpConfig::default())
        .expect_err("a panicking pump must report a typed failure");
    assert_eq!(err.message(), "transcript pump panicked");
    let persisted = world.last();
    assert_eq!(persisted.state, PumpState::Failed);
    assert_eq!(
        persisted.records, 1,
        "the terminal status must preserve counters accumulated before the panic"
    );
    assert!(persisted.error.is_some());
    assert_eq!(
        world.latch.message().as_deref(),
        Some("transcript pump panicked")
    );
}

#[test]
fn pump_status_advances_through_running_to_terminal() {
    let mut world = observed(b"");
    world.input.clear();
    for _ in 0..6 {
        world.input.push(Input::Bytes(b"{\"tick\":1}\n".to_vec()));
    }
    world.elapsed = 15_000_000;
    let config = TranscriptPumpConfig {
        status_flush_interval: FlushInterval::from_millis(15),
        ..TranscriptPumpConfig::default()
    };
    let summary = world.drain(&SaturatedSink::new(), config).unwrap();
    assert_eq!(summary.records, 6);
    assert!(world
        .documents
        .iter()
        .any(|s| s.state == PumpState::Running && s.records > 0 && s.records < 6));
    let terminal = world.last();
    assert_eq!(terminal.state, PumpState::Complete);
    assert_eq!(terminal.records, 6);
    assert_eq!(summary.transport.submitted, 8);
    assert!(summary.transport.is_balanced());
}

#[test]
fn no_snapshot_is_submitted_before_the_interval_has_passed() {
    let mut world = observed(b"a\n");
    world.elapsed = 999_999_999;
    let summary = world
        .drain(console_preview_sink(), TranscriptPumpConfig::default())
        .unwrap();
    assert_eq!(
        summary.transport.submitted, 2,
        "only the initial and the terminal status"
    );
}

#[test]
fn partial_and_interrupted_writes_keep_every_byte_in_order() {
    let input = b"first\nsecond\nthird";
    let mut world = world(input);
    world.writes = vec![
        ChunkWrite::Wrote(3),
        ChunkWrite::Interrupted,
        ChunkWrite::Wrote(1),
        ChunkWrite::Interrupted,
        ChunkWrite::Wrote(7),
    ];
    let sink = RecordingSink::new();
    let summary = world.drain(&sink, TranscriptPumpConfig::default()).unwrap();
    assert_eq!(world.transcript, input.to_vec());
    assert_eq!(
        (summary.bytes, summary.records, summary.dropped_console),
        (18, 3, 0)
    );
    assert_eq!(
        *sink.previews.lock().unwrap(),
        vec![b"first".to_vec(), b"second".to_vec(), b"third".to_vec()]
    );
}

#[test]
fn chunking_changes_nothing() {
    let input = b"one\n\nthree\nfour";
    for size in [0usize, 1, 2, 3, 5, 100] {
        let sink = RecordingSink::new();
        let mut world = world(input);
        let config = TranscriptPumpConfig {
            read_chunk_size: size,
            ..TranscriptPumpConfig::default()
        };
        let summary = world.drain(&sink, config).unwrap();
        assert_eq!(world.transcript, input.to_vec());
        assert_eq!((summary.bytes, summary.records), (15, 4));
        assert_eq!(
            *sink.previews.lock().unwrap(),
            vec![
                b"one".to_vec(),
                b"".to_vec(),
                b"three".to_vec(),
                b"four".to_vec()
            ]
        );
    }
}

#[test]
fn an_empty_stream_completes_with_no_record() {
    let mut world = observed(b"");
    world.input.clear();
    let summary = world
        .drain(console_preview_sink(), TranscriptPumpConfig::default())
        .unwrap();
    assert_eq!((summary.bytes, summary.records), (0, 0));
    assert_eq!(world.last().state, PumpState::Complete);
}

#[test]
fn a_write_of_zero_bytes_fails_the_capture() {
    let mut world = world(b"abc\n");
    world.writes = vec![ChunkWrite::Wrote(2), ChunkWrite::Wrote(0)];
    let err = world
        .drain(console_preview_sink(), TranscriptPumpConfig::default())
        .unwrap_err();
    assert_eq!(
        err.message(),
        "write transcript at t.jsonl: wrote zero bytes"
    );
    assert_eq!(world.transcript, b"ab".to_vec());
    assert!(err.transport().is_none(), "no coordinator was involved");
}

#[test]
fn a_failed_flush_fails_the_capture() {
    let mut world = world(b"abc\n");
    world.flush = Err("no space".to_string());
    let err = world
        .drain(console_preview_sink(), TranscriptPumpConfig::default())
        .unwrap_err();
    assert_eq!(err.message(), "flush transcript at t.jsonl: no space");
}

#[test]
fn a_capture_starts_by_creating_its_transcript() {
    let mut capture = Capture::new("p", TranscriptPumpConfig::default(), 9, true);
    assert!(matches!(capture.first_action(), CaptureAction::Create));
    assert_eq!(capture.phase, CapturePhase::Creating);
    match capture.advance(CaptureEvent::Created(Ok(())), 11) {
        CaptureAction::SubmitRequired(document) => {
            assert_eq!(document.state, PumpState::Running);
            assert_eq!((document.started_at_ms, document.updated_at_ms), (9, 11));
            assert_eq!(document.bytes, 0);
        }
        other => panic!("the initial status is required: {other:?}"),
    }
    match capture.advance(CaptureEvent::Acknowledged(Ok(())), 11) {
        CaptureAction::Read(size) => assert_eq!(size, 64 * 1024),
        other => panic!("then reading begins: {other:?}"),
    }
}
