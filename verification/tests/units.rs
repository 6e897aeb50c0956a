//! Text bounds, documents, errors, latches, thresholds, previews, paths and outcomes.

use transcript_pump::capture::locate;
use transcript_pump::config::{
    map_resolved_config, FlushInterval, ResolvedTranscriptPumpConfig, TranscriptPumpConfig,
    DEFAULT_CONSOLE_PREVIEW_LIMIT, DEFAULT_READ_CHUNK_SIZE,
};
use transcript_pump::drain::{
    is_pump_thread, pump_outcome, pump_spawn_failure, status_path_for, status_spawn_failure,
    try_terminal, wait_terminal, Drained, TerminalPoll,
};
use transcript_pump::error::{StatusSettlement, TranscriptPumpError};
use transcript_pump::fault::FirstFault;
use transcript_pump::preview::{
    confirm_preview, console_preview_sink, deliver_preview, take_record, PreviewLine, PreviewSink,
    SharedCounters, TRUNCATION_MARKER,
};
use transcript_pump::status::{
    build_status, now_ms, PumpState, PumpSummary, StatusTransportDiagnostics,
    PUMP_STATUS_SCHEMA_VERSION,
};
use transcript_pump::text::{bound_error, MAX_STATUS_ERROR_LEN, STATUS_TRUNCATION_MARKER};

#[test]
fn bound_error_is_utf8_safe_and_bounded() {
    let long = "€".repeat(5000); // 3 bytes each, boundary lands mid-character
    let bounded = bound_error(&long);
    assert!(
        bounded.len() <= MAX_STATUS_ERROR_LEN,
        "bounded to the total cap including the marker, got {}",
        bounded.len()
    );
    assert!(bounded.ends_with("…[truncated]"));
    assert_eq!(bound_error("short"), "short");
}

#[test]
fn bound_error_keeps_the_longest_prefix_that_fits() {
    let exact = "a".repeat(MAX_STATUS_ERROR_LEN);
    assert_eq!(bound_error(&exact), exact);
    let over = "a".repeat(MAX_STATUS_ERROR_LEN + 1);
    assert_eq!(
        bound_error(&over),
        format!("{}{}", "a".repeat(1986), STATUS_TRUNCATION_MARKER)
    );
    assert_eq!(bound_error(&over).len(), MAX_STATUS_ERROR_LEN);
    let wide = "€".repeat(5000);
    assert_eq!(
        bound_error(&wide),
        format!("{}{}", "€".repeat(662), STATUS_TRUNCATION_MARKER)
    );
    assert_eq!(bound_error(&bound_error(&wide)), bound_error(&wide));
}

#[test]
fn persisted_document_multibyte_errors_are_bounded() {
    let long = "€".repeat(5000);
    let status = build_status(
        PumpState::Failed,
        0,
        0,
        &PumpSummary::default(),
        Some(&long),
        Some(&long),
        StatusTransportDiagnostics::default(),
    );
    let persisted_error = status.error.expect("a Failed document carries its error");
    let persisted_periodic = status
        .periodic_error
        .expect("the periodic error is retained");
    assert!(
        persisted_error.len() <= MAX_STATUS_ERROR_LEN,
        "the persisted primary error is bounded, got {}",
        persisted_error.len()
    );
    assert!(
        persisted_periodic.len() <= MAX_STATUS_ERROR_LEN,
        "the persisted periodic error is bounded, got {}",
        persisted_periodic.len()
    );
}

#[test]
fn a_document_carries_its_observations() {
    let summary = PumpSummary {
        bytes: 1,
        records: 2,
        dropped_console: 3,
        transport: StatusTransportDiagnostics::default(),
    };
    let transport = StatusTransportDiagnostics {
        submitted: 4,
        ..StatusTransportDiagnostics::default()
    };
    let status = build_status(
        PumpState::Running,
        10,
        20,
        &summary,
        None,
        Some("late"),
        transport.clone(),
    );
    assert_eq!(status.schema_version, PUMP_STATUS_SCHEMA_VERSION);
    assert_eq!(status.schema_version, 3);
    assert_eq!((status.started_at_ms, status.updated_at_ms), (10, 20));
    assert_eq!(
        (status.bytes, status.records, status.dropped_console),
        (1, 2, 3)
    );
    assert_eq!(status.error, None);
    assert_eq!(status.periodic_error.as_deref(), Some("late"));
    assert_eq!(status.transport, transport);
}

#[test]
fn balance_counts_every_category() {
    let balanced = StatusTransportDiagnostics {
        submitted: 15,
        written: 1,
        coalesced: 2,
        dropped: 3,
        disconnected: 4,
        write_failures: 5,
        last_error: None,
    };
    assert!(balanced.is_balanced());
    assert!(!balanced.projected().is_balanced());
    assert!(StatusTransportDiagnostics::default().is_balanced());
}

#[test]
fn the_clock_reading_is_taken_in_milliseconds() {
    assert_eq!(now_ms(None), 0);
    assert_eq!(now_ms(Some((12, 345_999_999))), 12_345);
    assert_eq!(now_ms(Some((u64::MAX, 0))), u64::MAX - 999);
}

#[test]
fn a_failure_displays_its_primary_and_each_diagnostic() {
    let bare = TranscriptPumpError::new("primary");
    assert_eq!(bare.display(), "transcript pump failure: primary");
    assert_eq!(bare.settlement_error(), None);
    let settlement = StatusSettlement {
        settlement_error: Some("s".to_string()),
        fallback_error: Some("f".to_string()),
        periodic_error: Some("p".to_string()),
        worker_error: Some("w".to_string()),
        ..StatusSettlement::default()
    };
    let full = bare.with_settlement(&settlement);
    assert_eq!(full.message(), "primary");
    assert_eq!(
        full.display(),
        "transcript pump failure: primary; terminal-status settlement failed: s; \
         failed-status fallback failed: f; last periodic status error: p; \
         status worker error: w"
    );
    assert!(full.transport().is_some());
    assert_eq!(full.clone().display(), full.display());
    assert_eq!(TranscriptPumpError::default().message(), "");
}

#[test]
fn a_settlement_fails_by_its_settlement_or_worker_error() {
    assert!(StatusSettlement::default().terminal_failure().is_none());
    let periodic = StatusSettlement {
        periodic_error: Some("p".to_string()),
        ..StatusSettlement::default()
    };
    assert!(periodic.terminal_failure().is_none());
    let worker = StatusSettlement {
        worker_error: Some("w".to_string()),
        ..StatusSettlement::default()
    };
    assert_eq!(worker.terminal_failure().unwrap().message(), "w");
    let both = StatusSettlement {
        settlement_error: Some("s".to_string()),
        worker_error: Some("w".to_string()),
        ..StatusSettlement::default()
    };
    assert_eq!(both.terminal_failure().unwrap().message(), "s");
}

#[test]
fn the_first_fault_is_immutable() {
    let mut latch = FirstFault::default();
    assert!(!latch.observed());
    assert_eq!(latch.message(), None);
    latch.publish(&TranscriptPumpError::new("first"));
    latch.publish(&TranscriptPumpError::new("second"));
    assert!(latch.observed());
    assert_eq!(latch.message().as_deref(), Some("first"));
}

#[test]
fn thresholds_default_and_fail_closed() {
    let defaults = TranscriptPumpConfig::default();
    assert_eq!(defaults.read_chunk_size, DEFAULT_READ_CHUNK_SIZE);
    assert_eq!(
        defaults.console_preview_limit,
        DEFAULT_CONSOLE_PREVIEW_LIMIT
    );
    assert_eq!(
        defaults.status_flush_interval,
        FlushInterval::from_millis(1000)
    );
    assert_eq!(defaults.status_flush_interval.nanos, 1_000_000_000);
    assert_eq!(map_resolved_config(None), defaults);
    let resolved = map_resolved_config(Some(ResolvedTranscriptPumpConfig {
        console_preview_limit: 12,
        status_flush_interval_ms: 34,
    }));
    assert_eq!(resolved.read_chunk_size, DEFAULT_READ_CHUNK_SIZE);
    assert_eq!(resolved.console_preview_limit, 12);
    assert_eq!(
        resolved.status_flush_interval,
        FlushInterval::from_millis(34)
    );
}

#[test]
fn the_marker_reads_as_text() {
    assert_eq!(
        &TRUNCATION_MARKER[..],
        &b"...[preview truncated; full record in transcript]"[..]
    );
}

#[test]
fn a_line_renders_its_record_within_every_limit() {
    for limit in 0..120usize {
        for len in [0usize, 1, 48, 49, 50, 60, 118, 119, 120, 300] {
            let mut line = PreviewLine::new(limit);
            for _ in 0..len {
                line.push(b'z');
            }
            assert_eq!(line.has_bytes(), len > 0);
            let rendered = line.render_and_reset();
            if len <= limit {
                assert_eq!(rendered, vec![b'z'; len]);
            } else {
                assert_eq!(rendered.len(), limit);
            }
            assert!(!line.has_bytes());
            assert_eq!(line.render_and_reset(), Vec::<u8>::new());
        }
    }
}

#[test]
fn counters_wrap_like_atomics() {
    let mut counters = SharedCounters {
        bytes: u64::MAX,
        records: u64::MAX,
        dropped_console: 0,
    };
    counters.add_bytes(2);
    counters.add_record();
    counters.sub_dropped();
    let summary = counters.snapshot();
    assert_eq!(
        (summary.bytes, summary.records, summary.dropped_console),
        (1, 0, u64::MAX)
    );
    assert_eq!(summary.transport, StatusTransportDiagnostics::default());
}

#[test]
fn a_loss_stands_until_its_delivery_is_confirmed() {
    for delivered in [true, false] {
        let mut line = PreviewLine::new(100);
        let mut counters = SharedCounters::default();
        assert_eq!(take_record(b"rest", &mut line), 4);
        assert!(line.has_bytes());
        assert_eq!(deliver_preview(&mut line, &mut counters), b"rest".to_vec());
        assert!(!line.has_bytes());
        assert_eq!(counters.dropped_console, 1, "counted before any answer");
        confirm_preview(&mut counters, delivered);
        assert_eq!(counters.dropped_console, if delivered { 0 } else { 1 });
        assert_eq!((counters.bytes, counters.records), (0, 0));
    }
    assert!(!console_preview_sink().deliver(b"any"));
}

#[test]
fn a_record_is_taken_up_to_its_newline() {
    let mut line = PreviewLine::new(100);
    assert_eq!(take_record(b"ab\ncd", &mut line), 2);
    assert_eq!(line.render_and_reset(), b"ab".to_vec());
    assert_eq!(take_record(b"\ncd", &mut line), 0);
    assert!(!line.has_bytes());
    assert_eq!(take_record(b"", &mut line), 0);
}

#[test]
fn the_status_document_lies_beside_the_transcript() {
    assert_eq!(
        status_path_for("/tmp/run/transcript.jsonl"),
        "/tmp/run/transcript-pump.json"
    );
    assert_eq!(status_path_for("transcript.jsonl"), "transcript-pump.json");
    assert_eq!(
        status_path_for("/transcript.jsonl"),
        "/transcript-pump.json"
    );
    assert_eq!(
        status_path_for("a/./b/t.jsonl"),
        "a/./b/transcript-pump.json"
    );
    assert_eq!(status_path_for("./t.jsonl"), "./transcript-pump.json");
    assert_eq!(status_path_for("../t.jsonl"), "../transcript-pump.json");
    assert_eq!(status_path_for("a./t.jsonl"), "a./transcript-pump.json");
    for path in ["", "/", "..", "a:b/t", "a//b", "a/", "x:y"] {
        assert!(status_path_for(path).ends_with("transcript-pump.json"));
    }
}

#[test]
fn pump_threads_are_known_by_name() {
    assert!(is_pump_thread(Some("transcript-pump")));
    assert!(is_pump_thread(Some("transcript-pump-status")));
    assert!(!is_pump_thread(Some("transcript-pump-other")));
    assert!(!is_pump_thread(Some("main")));
    assert!(!is_pump_thread(None));
}

#[test]
fn spawn_failures_name_their_thread() {
    assert_eq!(
        status_spawn_failure("no threads").message(),
        "spawn transcript pump status writer: no threads"
    );
    assert_eq!(
        pump_spawn_failure("no threads").message(),
        "spawn transcript pump thread: no threads"
    );
    assert_eq!(locate("open ", "p", "e"), "open p: e");
}

#[test]
fn a_vanished_pump_is_a_typed_failure() {
    assert!(try_terminal(TerminalPoll::Pending).is_none());
    let reported = try_terminal(TerminalPoll::Reported(Ok(PumpSummary::default())));
    assert!(matches!(reported, Some(Ok(_))));
    let vanished = try_terminal(TerminalPoll::Disconnected).unwrap().unwrap_err();
    assert_eq!(vanished.message(), "transcript pump thread vanished");
    assert!(wait_terminal(Some(Ok(PumpSummary::default()))).is_ok());
    assert_eq!(
        wait_terminal(None).unwrap_err().message(),
        "transcript pump thread vanished"
    );
}

#[test]
fn a_residual_panic_is_published_and_reported() {
    let mut latch = FirstFault::default();
    assert!(pump_outcome(Some(Ok(PumpSummary::default())), &mut latch).is_ok());
    assert!(!latch.observed());
    let error = pump_outcome(None, &mut latch).unwrap_err();
    assert_eq!(error.message(), "transcript pump panicked");
    assert_eq!(latch.message().as_deref(), Some("transcript pump panicked"));
}

#[test]
fn the_outcome_never_masks_the_capture_fault() {
    let counters = SharedCounters {
        bytes: 5,
        records: 1,
        dropped_console: 1,
    };
    let mut latch = FirstFault::default();
    let drained = Drained::publish(
        Some(Err(TranscriptPumpError::new("capture"))),
        &counters,
        3,
        &mut latch,
    );
    assert_eq!(latch.message().as_deref(), Some("capture"));
    let terminal = drained.terminal();
    assert_eq!(terminal.state, PumpState::Failed);
    assert_eq!(terminal.error.as_deref(), Some("capture"));
    let error = drained
        .settled(StatusSettlement {
            settlement_error: Some("settle".to_string()),
            worker_error: Some("worker".to_string()),
            ..StatusSettlement::default()
        })
        .unwrap_err();
    assert_eq!(error.message(), "capture");
    assert_eq!(error.settlement_error(), Some("settle"));
    assert_eq!(error.worker_error(), Some("worker"));

    let clean = Drained::publish(Some(Ok(())), &counters, 3, &mut latch);
    assert_eq!(clean.terminal().state, PumpState::Complete);
    let diagnostics = StatusTransportDiagnostics {
        submitted: 2,
        written: 2,
        ..StatusTransportDiagnostics::default()
    };
    let summary = clean
        .settled(StatusSettlement {
            diagnostics: diagnostics.clone(),
            ..StatusSettlement::default()
        })
        .unwrap();
    assert_eq!(
        (summary.bytes, summary.records, summary.dropped_console),
        (5, 1, 1)
    );
    assert_eq!(summary.transport, diagnostics);
}

#[test]
fn every_text_of_a_failure_is_bounded() {
    let long = "x".repeat(5000);
    let settlement = StatusSettlement {
        settlement_error: Some(long.clone()),
        fallback_error: Some(long.clone()),
        periodic_error: Some(long.clone()),
        worker_error: Some(long.clone()),
        ..StatusSettlement::default()
    };
    let error = TranscriptPumpError::new(&long).with_settlement(&settlement);
    assert_eq!(error.message().len(), MAX_STATUS_ERROR_LEN);
    for text in [
        error.settlement_error(),
        error.fallback_error(),
        error.periodic_error(),
        error.worker_error(),
    ] {
        assert_eq!(text.unwrap().len(), MAX_STATUS_ERROR_LEN);
    }
    let mut latch = FirstFault::default();
    latch.publish(&error);
    assert_eq!(latch.message().unwrap().len(), MAX_STATUS_ERROR_LEN);
}
