//! What holds of a capture as a whole, whatever happens around it.

use vstd::prelude::*;

use crate::capture::{
    located, Capture, CaptureAction, CaptureActionView, CaptureEvent, CapturePhase, CaptureStep,
    CaptureView, ChunkWrite, ChunkWriteView, EventView,
};
use crate::config::TranscriptPumpConfig;
use crate::error::ErrorView;
use crate::preview::{
    accepted, first_end, law_chunking_is_irrelevant, law_console_sink_declines_every_preview,
    law_line_stands_for_its_record, law_records_make_up_the_stream, law_stream_offers_its_records,
    lemma_first_end_is_first, lemma_plus_compose, line_after, may_answer_all, open_record,
    preview_of, previews, records_in, rejoined, undone, wrapped, ConsoleSink, LineView,
    RECORD_END,
};
use crate::status::{PumpState, StatusView};
use crate::text::bounded;

verus! {

/// An event, and when it came.
pub struct Moment {
    pub event: EventView,
    pub now_ms: u64,
}

/// The capture after all moments of a history.
pub open spec fn capture_after(start: CaptureView, history: Seq<Moment>) -> CaptureView
    decreases history.len(),
{
    if history.len() == 0 {
        start
    } else {
        capture_after(start, history.drop_last()).step(
            history.last().event,
            history.last().now_ms,
        ).capture
    }
}

/// The last step of a history that is not empty.
pub open spec fn last_step(start: CaptureView, history: Seq<Moment>) -> CaptureStep {
    capture_after(start, history.drop_last()).step(history.last().event, history.last().now_ms)
}

/// Every event answers what the capture asked for.
pub open spec fn possible(start: CaptureView, history: Seq<Moment>) -> bool
    decreases history.len(),
{
    history.len() > 0 ==> {
        &&& possible(start, history.drop_last())
        &&& capture_after(start, history.drop_last()).accepts(history.last().event)
    }
}

/// Every byte that was read, in order.
pub open spec fn bytes_read(history: Seq<Moment>) -> Seq<u8>
    decreases history.len(),
{
    if history.len() == 0 {
        Seq::empty()
    } else {
        bytes_read(history.drop_last()) + match history.last().event {
            EventView::Read(Ok(bytes)) => bytes,
            _ => Seq::empty(),
        }
    }
}

/// Every byte that reached the transcript, in order.
pub open spec fn bytes_persisted(start: CaptureView, history: Seq<Moment>) -> Seq<u8>
    decreases history.len(),
{
    if history.len() == 0 {
        Seq::empty()
    } else {
        bytes_persisted(start, history.drop_last()) + capture_after(
            start,
            history.drop_last(),
        ).persisted_by(history.last().event)
    }
}

/// The persisted bytes that are parsed into records: all but those the capture holds back
/// behind a preview that the sink has not answered yet.
pub open spec fn bytes_parsed(start: CaptureView, history: Seq<Moment>) -> Seq<u8> {
    bytes_persisted(start, history).take(
        bytes_persisted(start, history).len() - capture_after(start, history).unparsed.len(),
    )
}

/// Every preview that was handed out to be offered, in order.
pub open spec fn previews_offered(start: CaptureView, history: Seq<Moment>) -> Seq<Seq<u8>>
    decreases history.len(),
{
    if history.len() == 0 {
        Seq::empty()
    } else {
        match last_step(start, history).action {
            CaptureActionView::Offer(rendered) => previews_offered(
                start,
                history.drop_last(),
            ).push(rendered),
            _ => previews_offered(start, history.drop_last()),
        }
    }
}

/// Every answer of the sink, in order.
pub open spec fn answers(history: Seq<Moment>) -> Seq<bool>
    decreases history.len(),
{
    if history.len() == 0 {
        Seq::empty()
    } else {
        match history.last().event {
            EventView::Offered(delivered) => answers(history.drop_last()).push(delivered),
            _ => answers(history.drop_last()),
        }
    }
}

/// The end of the stream was read.
pub open spec fn stream_ended(history: Seq<Moment>) -> bool
    decreases history.len(),
{
    history.len() > 0 && (stream_ended(history.drop_last()) || (
    history.last().event matches EventView::Read(Ok(bytes)) && bytes.len() == 0))
}

/// The records of a byte stream: those that end in it and, once the stream has ended, one
/// left without a final newline.
pub open spec fn stream_records(bytes: Seq<u8>, ended: bool) -> Seq<Seq<u8>> {
    let open = open_record(Seq::empty(), bytes);
    if ended && open.len() > 0 {
        records_in(Seq::empty(), bytes).push(open)
    } else {
        records_in(Seq::empty(), bytes)
    }
}

/// The records that the capture has seen.
pub open spec fn records_seen(start: CaptureView, history: Seq<Moment>) -> Seq<Seq<u8>> {
    stream_records(bytes_parsed(start, history), stream_ended(history))
}

/// What a history leaves behind, in one statement.
pub open spec fn exact(start: CaptureView, history: Seq<Moment>) -> bool {
    let capture = capture_after(start, history);
    let persisted = bytes_persisted(start, history);
    let records = records_seen(start, history);
    &&& persisted + capture.unwritten == bytes_read(history)
    &&& bytes_parsed(start, history) + capture.unparsed == persisted
    &&& !capture.is_offering() ==> bytes_parsed(start, history) == persisted
    &&& previews_offered(start, history) == records.map_values(
        |record: Seq<u8>| preview_of(start.line.limit, record),
    )
    &&& answers(history).len() == records.len() - if capture.is_offering() {
        1int
    } else {
        0int
    }
    &&& capture.counters == start.counters.plus(
        persisted.len() as int,
        records.len() as int,
        records.len() - accepted(answers(history)),
    )
}

/// The bytes that an event leads the capture to parse: to the end of the first record that
/// ends in what is there to parse, or all of it.
spec fn parsed_by(before: CaptureView, event: EventView) -> Seq<u8> {
    let bytes = before.parses(event);
    let end = first_end(bytes) as int;
    if end < bytes.len() {
        bytes.take(end + 1)
    } else {
        bytes
    }
}

/// Parsing to the end of the first record leads to exactly one offer, and to none where no
/// record ends.
proof fn lemma_parse(line: LineView, bytes: Seq<u8>)
    ensures
        first_end(bytes) <= bytes.len(),
        ({
            let end = first_end(bytes) as int;
            let held = line_after(line, bytes.take(end));
            if end < bytes.len() {
                &&& line_after(line, bytes.take(end + 1)) == held.reset()
                &&& previews(line, bytes.take(end + 1)) == seq![held.rendered()]
            } else {
                &&& line_after(line, bytes) == held
                &&& previews(line, bytes) == Seq::<Seq<u8>>::empty()
            }
        }),
{
    lemma_first_end_is_first(bytes);
    let end = first_end(bytes) as int;
    lemma_no_previews(line, bytes.take(end));
    if end < bytes.len() {
        assert(bytes.take(end + 1).drop_last() =~= bytes.take(end));
        assert(previews(line, bytes.take(end + 1)) =~= seq![
            line_after(line, bytes.take(end)).rendered(),
        ]);
    } else {
        assert(bytes.take(end) =~= bytes);
    }
}

proof fn lemma_no_previews(line: LineView, bytes: Seq<u8>)
    requires
        forall|k: int| 0 <= k < bytes.len() ==> bytes[k] != RECORD_END,
    ensures
        previews(line, bytes) == Seq::<Seq<u8>>::empty(),
    decreases bytes.len(),
{
    if bytes.len() > 0 {
        let shorter = bytes.drop_last();
        assert forall|k: int| 0 <= k < shorter.len() implies shorter[k] != RECORD_END by {
            assert(shorter[k] == bytes[k]);
        }
        lemma_no_previews(line, shorter);
    }
}

/// What one event does to the capture, apart from its phase.
proof fn lemma_step(before: CaptureView, moment: Moment)
    requires
        before.wf(),
        before.accepts(moment.event),
    ensures
        ({
            let step = before.step(moment.event, moment.now_ms);
            let after = step.capture;
            let persisted = before.persisted_by(moment.event);
            let parsed = parsed_by(before, moment.event);
            let trails = before.trails(moment.event);
            let offered: Seq<Seq<u8>> = if trails {
                seq![before.line.rendered()]
            } else {
                previews(before.line, parsed)
            };
            &&& after.wf()
            &&& match moment.event {
                EventView::Read(Ok(chunk)) => before.unwritten.len() == 0 && after.unwritten
                    == chunk,
                _ => before.unwritten == persisted + after.unwritten,
            }
            &&& before.unparsed + persisted == parsed + after.unparsed
            &&& after.line == if trails {
                before.line.reset()
            } else {
                line_after(before.line, parsed)
            }
            &&& offered == match step.action {
                CaptureActionView::Offer(rendered) => seq![rendered],
                _ => Seq::<Seq<u8>>::empty(),
            }
            &&& after.is_offering() <==> step.action is Offer
            &&& before.is_offering() <==> moment.event is Offered
            &&& after.counters == before.counters.plus(
                persisted.len() as int,
                offered.len() as int,
                offered.len() + match moment.event {
                    EventView::Offered(delivered) => undone(delivered),
                    _ => 0,
                },
            )
        }),
{
    let step = before.step(moment.event, moment.now_ms);
    let after = step.capture;
    let persisted = before.persisted_by(moment.event);
    let parsed = parsed_by(before, moment.event);
    let bytes = before.parses(moment.event);
    let none = Seq::<u8>::empty();
    lemma_parse(before.line, bytes);
    let end = first_end(bytes) as int;
    assert(bytes =~= parsed + bytes.skip(parsed.len() as int));
    lemma_plus_compose(before.counters, 0, 0, 0, 0, 0, 0);
    match moment.event {
        EventView::Wrote(ChunkWriteView::Wrote(n)) => {
            assert(before.unwritten =~= persisted + before.unwritten.skip(n as int));
            assert(before.unparsed + persisted =~= persisted);
            if n == 0 {
                assert(parsed =~= none);
                assert(before.unparsed + persisted =~= parsed + after.unparsed);
                assert(before.unwritten.skip(0) =~= before.unwritten);
            } else {
                lemma_plus_compose(before.counters, n as int, 0, 0, 0, 1, 1);
                assert(parsed + after.unparsed =~= bytes);
            }
        },
        EventView::Offered(delivered) => {
            let undo = undone(delivered);
            lemma_plus_compose(before.counters, 0, 0, undo, 0, 1, 1);
            assert(before.unwritten =~= none + after.unwritten);
            assert(before.unparsed + persisted =~= before.unparsed);
            assert(parsed + after.unparsed =~= before.unparsed);
        },
        EventView::Read(Ok(chunk)) => {
            assert(parsed =~= none);
            assert(before.unparsed + persisted =~= parsed + after.unparsed);
            assert(after.unwritten =~= chunk);
        },
        _ => {
            assert(parsed =~= none);
            assert(before.unparsed + persisted =~= parsed + after.unparsed);
            assert(before.unwritten =~= persisted + after.unwritten);
        },
    }
}

/// The capture stays valid, and after the end of the stream it only offers the last record
/// and flushes.
proof fn lemma_phases(start: CaptureView, history: Seq<Moment>)
    requires
        start.wf(),
        start.phase == CapturePhase::Creating,
        possible(start, history),
    ensures
        capture_after(start, history).wf(),
        stream_ended(history) ==> {
            let after = capture_after(start, history);
            &&& after.unwritten.len() == 0
            &&& after.phase == CapturePhase::OfferingLast || after.phase == CapturePhase::Flushing
                || after.phase == CapturePhase::Finished
        },
        !stream_ended(history) ==> capture_after(start, history).phase
            != CapturePhase::OfferingLast,
    decreases history.len(),
{
    if history.len() > 0 {
        lemma_phases(start, history.drop_last());
        lemma_step(capture_after(start, history.drop_last()), history.last());
    }
}

/// The bytes parsed along a history, one event after the other.
spec fn parsed_along(start: CaptureView, history: Seq<Moment>) -> Seq<u8>
    decreases history.len(),
{
    if history.len() == 0 {
        Seq::empty()
    } else {
        parsed_along(start, history.drop_last()) + parsed_by(
            capture_after(start, history.drop_last()),
            history.last().event,
        )
    }
}

/// The persisted and the unwritten bytes together are the bytes read, and the parsed and
/// the unparsed ones are the persisted bytes.
proof fn lemma_bytes(start: CaptureView, history: Seq<Moment>)
    requires
        start.wf(),
        start.phase == CapturePhase::Creating,
        possible(start, history),
    ensures
        bytes_persisted(start, history) + capture_after(start, history).unwritten == bytes_read(
            history,
        ),
        parsed_along(start, history) + capture_after(start, history).unparsed == bytes_persisted(
            start,
            history,
        ),
        bytes_parsed(start, history) == parsed_along(start, history),
    decreases history.len(),
{
    let after = capture_after(start, history);
    let persisted = bytes_persisted(start, history);
    let parsed = parsed_along(start, history);
    if history.len() == 0 {
        assert(persisted + after.unwritten =~= bytes_read(history));
        assert(parsed + after.unparsed =~= persisted);
    } else {
        let earlier = history.drop_last();
        let before = capture_after(start, earlier);
        let event = history.last().event;
        lemma_bytes(start, earlier);
        lemma_phases(start, earlier);
        lemma_step(before, history.last());
        assert(persisted + after.unwritten =~= bytes_read(history));
        let old_parsed = parsed_along(start, earlier);
        assert(parsed + after.unparsed =~= old_parsed + (parsed_by(before, event)
            + after.unparsed));
        assert(old_parsed + (before.unparsed + before.persisted_by(event)) =~= (old_parsed
            + before.unparsed) + before.persisted_by(event));
    }
    assert(bytes_parsed(start, history) =~= parsed);
}

/// The line holds the record still open, until the stream has ended.
proof fn lemma_line(start: CaptureView, history: Seq<Moment>)
    requires
        start.wf(),
        start.phase == CapturePhase::Creating,
        start.line == LineView::holding(start.line.limit, Seq::empty()),
        possible(start, history),
    ensures
        capture_after(start, history).line == if stream_ended(history) {
            start.line
        } else {
            LineView::holding(
                start.line.limit,
                open_record(Seq::empty(), parsed_along(start, history)),
            )
        },
    decreases history.len(),
{
    if history.len() > 0 {
        let earlier = history.drop_last();
        let before = capture_after(start, earlier);
        let event = history.last().event;
        let limit = start.line.limit;
        let old_bytes = parsed_along(start, earlier);
        let new_bytes = parsed_by(before, event);
        lemma_line(start, earlier);
        lemma_phases(start, earlier);
        lemma_step(before, history.last());
        law_stream_offers_its_records(limit, Seq::empty(), old_bytes);
        law_stream_offers_its_records(limit, Seq::empty(), old_bytes + new_bytes);
        law_chunking_is_irrelevant(start.line, old_bytes, new_bytes);
        let open = open_record(Seq::empty(), old_bytes);
        if open.len() == 0 {
            assert(open =~= Seq::empty());
        }
        if stream_ended(earlier) {
            assert(new_bytes =~= Seq::empty());
        }
    }
}

/// The records of the parsed bytes are what was offered, and each offer but one still open
/// was answered.
proof fn lemma_offers(start: CaptureView, history: Seq<Moment>)
    requires
        start.wf(),
        start.phase == CapturePhase::Creating,
        start.line == LineView::holding(start.line.limit, Seq::empty()),
        possible(start, history),
    ensures
        previews_offered(start, history) == stream_records(
            parsed_along(start, history),
            stream_ended(history),
        ).map_values(|record: Seq<u8>| preview_of(start.line.limit, record)),
        answers(history).len() + (if capture_after(start, history).is_offering() {
            1int
        } else {
            0int
        }) == previews_offered(start, history).len(),
    decreases history.len(),
{
    let limit = start.line.limit;
    let show = |record: Seq<u8>| preview_of(limit, record);
    let bytes = parsed_along(start, history);
    let records = stream_records(bytes, stream_ended(history));
    if history.len() == 0 {
        assert(previews_offered(start, history) =~= records.map_values(show));
    } else {
        let earlier = history.drop_last();
        let event = history.last().event;
        let before = capture_after(start, earlier);
        let old_bytes = parsed_along(start, earlier);
        let new_bytes = parsed_by(before, event);
        lemma_offers(start, earlier);
        lemma_phases(start, earlier);
        lemma_step(before, history.last());
        lemma_line(start, earlier);
        law_stream_offers_its_records(limit, Seq::empty(), old_bytes);
        law_stream_offers_its_records(limit, Seq::empty(), bytes);
        let open = open_record(Seq::empty(), old_bytes);
        law_line_stands_for_its_record(limit, open, 0);
        let shown = previews_offered(start, earlier);
        if stream_ended(earlier) {
            assert(new_bytes =~= Seq::empty());
            assert(bytes =~= old_bytes);
        } else if stream_ended(history) {
            assert(new_bytes =~= Seq::empty());
            assert(bytes =~= old_bytes);
            assert(previews_offered(start, history) =~= records.map_values(show));
        } else {
            law_chunking_is_irrelevant(start.line, old_bytes, new_bytes);
            assert(previews_offered(start, history) =~= shown + previews(before.line, new_bytes));
        }
    }
}

/// The counters count the persisted bytes, the offered records and the offers that were not
/// accepted.
proof fn lemma_counters(start: CaptureView, history: Seq<Moment>)
    requires
        start.wf(),
        start.phase == CapturePhase::Creating,
        possible(start, history),
    ensures
        capture_after(start, history).counters == start.counters.plus(
            bytes_persisted(start, history).len() as int,
            previews_offered(start, history).len() as int,
            previews_offered(start, history).len() - accepted(answers(history)),
        ),
    decreases history.len(),
{
    if history.len() == 0 {
        lemma_plus_compose(start.counters, 0, 0, 0, 0, 0, 0);
    } else {
        let earlier = history.drop_last();
        let moment = history.last();
        let before = capture_after(start, earlier);
        let undo: int = match moment.event {
            EventView::Offered(delivered) => undone(delivered),
            _ => 0,
        };
        let more = previews_offered(start, history).len() - previews_offered(start, earlier).len();
        lemma_counters(start, earlier);
        lemma_phases(start, earlier);
        lemma_step(before, moment);
        assert(answers(earlier).push(true).drop_last() =~= answers(earlier));
        assert(answers(earlier).push(false).drop_last() =~= answers(earlier));
        assert(accepted(answers(history)) == accepted(answers(earlier)) - undo);
        lemma_plus_compose(
            start.counters,
            bytes_persisted(start, earlier).len() as int,
            previews_offered(start, earlier).len() as int,
            previews_offered(start, earlier).len() - accepted(answers(earlier)),
            before.persisted_by(moment.event).len() as int,
            more,
            more + undo,
        );
    }
}

proof fn lemma_capture_is_exact(start: CaptureView, history: Seq<Moment>)
    requires
        start.wf(),
        start.phase == CapturePhase::Creating,
        start.line == LineView::holding(start.line.limit, Seq::empty()),
        possible(start, history),
    ensures
        exact(start, history),
{
    lemma_bytes(start, history);
    lemma_phases(start, history);
    lemma_offers(start, history);
    lemma_counters(start, history);
    let capture = capture_after(start, history);
    if !capture.is_offering() {
        assert(bytes_parsed(start, history) + capture.unparsed =~= bytes_parsed(start, history));
    }
}

/// The capture is exact at every moment of every history, also where the reader, the
/// transcript or the sink never comes back: the persisted bytes followed by the bytes not
/// yet written are the bytes read, in order; every record of the parsed bytes was offered
/// once, in order, with its own bounded preview; and the counters count exactly the
/// persisted bytes, those records, and those of their previews that no sink accepted.
pub proof fn law_capture_is_exact(
    path: Seq<char>,
    config: TranscriptPumpConfig,
    started_at_ms: u64,
    observed: bool,
    history: Seq<Moment>,
)
    requires
        possible(CaptureView::initial(path, config, started_at_ms, observed), history),
    ensures
        exact(CaptureView::initial(path, config, started_at_ms, observed), history),
{
    lemma_capture_is_exact(CaptureView::initial(path, config, started_at_ms, observed), history);
}

/// A sink that panics leaves truthful counters: while it has a preview in hand, all bytes
/// persisted so far are counted, its record is counted, and the preview is counted as lost
/// beside the ones that were declined before.
pub proof fn law_preview_in_hand_is_counted_lost(
    path: Seq<char>,
    config: TranscriptPumpConfig,
    started_at_ms: u64,
    observed: bool,
    history: Seq<Moment>,
)
    requires
        ({
            let start = CaptureView::initial(path, config, started_at_ms, observed);
            &&& possible(start, history)
            &&& capture_after(start, history).is_offering()
        }),
    ensures
        ({
            let start = CaptureView::initial(path, config, started_at_ms, observed);
            let counters = capture_after(start, history).counters;
            let declined = answers(history).len() - accepted(answers(history));
            &&& counters.bytes == wrapped(bytes_persisted(start, history).len() as int)
            &&& counters.records == wrapped(answers(history).len() as int + 1)
            &&& counters.dropped_console == wrapped(declined + 1)
            &&& previews_offered(start, history).len() == answers(history).len() + 1
        }),
{
    lemma_capture_is_exact(CaptureView::initial(path, config, started_at_ms, observed), history);
}

/// A capture succeeds only once the end of the stream was read and every byte of the
/// stream reached the transcript.
pub proof fn law_success_means_everything_persisted(
    path: Seq<char>,
    config: TranscriptPumpConfig,
    started_at_ms: u64,
    observed: bool,
    history: Seq<Moment>,
)
    requires
        ({
            let start = CaptureView::initial(path, config, started_at_ms, observed);
            &&& possible(start, history)
            &&& history.len() > 0
            &&& last_step(start, history).action matches CaptureActionView::Finish(Ok(()))
        }),
    ensures
        ({
            let start = CaptureView::initial(path, config, started_at_ms, observed);
            let stream = bytes_read(history);
            let end = capture_after(start, history);
            let records = stream_records(stream, true);
            &&& stream_ended(history)
            &&& bytes_persisted(start, history) == stream
            &&& end.counters.bytes == wrapped(stream.len() as int)
            &&& end.counters.records == wrapped(records.len() as int)
            &&& answers(history).len() == records.len()
            &&& end.counters.dropped_console == wrapped(
                records.len() - accepted(answers(history)),
            )
        }),
{
    let start = CaptureView::initial(path, config, started_at_ms, observed);
    lemma_capture_is_exact(start, history);
    lemma_phases(start, history);
    lemma_flushing_is_ended(start, history.drop_last());
    let end = capture_after(start, history);
    assert(bytes_persisted(start, history) + end.unwritten =~= bytes_persisted(start, history));
}

/// The capture flushes only once the stream has ended.
proof fn lemma_flushing_is_ended(start: CaptureView, history: Seq<Moment>)
    requires
        start.wf(),
        start.phase == CapturePhase::Creating,
        possible(start, history),
    ensures
        capture_after(start, history).phase == CapturePhase::Flushing ==> stream_ended(history),
    decreases history.len(),
{
    if history.len() > 0 {
        lemma_flushing_is_ended(start, history.drop_last());
        lemma_phases(start, history.drop_last());
    }
}

/// However a capture ends, what reached the transcript is a prefix of the stream, and the
/// byte counter counts exactly that prefix.
pub proof fn law_transcript_is_a_prefix(
    path: Seq<char>,
    config: TranscriptPumpConfig,
    started_at_ms: u64,
    observed: bool,
    history: Seq<Moment>,
)
    requires
        possible(CaptureView::initial(path, config, started_at_ms, observed), history),
    ensures
        ({
            let start = CaptureView::initial(path, config, started_at_ms, observed);
            let persisted = bytes_persisted(start, history);
            &&& persisted.is_prefix_of(bytes_read(history))
            &&& capture_after(start, history).counters.bytes == wrapped(persisted.len() as int)
        }),
{
    let start = CaptureView::initial(path, config, started_at_ms, observed);
    lemma_capture_is_exact(start, history);
    let persisted = bytes_persisted(start, history);
    assert(persisted =~= bytes_read(history).take(persisted.len() as int));
}

/// With the console sink, at every moment the dropped previews are the records.
pub proof fn law_console_drops_are_the_records(
    path: Seq<char>,
    config: TranscriptPumpConfig,
    started_at_ms: u64,
    observed: bool,
    history: Seq<Moment>,
    sink: &ConsoleSink,
)
    requires
        ({
            let start = CaptureView::initial(path, config, started_at_ms, observed);
            &&& possible(start, history)
            &&& may_answer_all(sink, previews_offered(start, history), answers(history))
        }),
    ensures
        ({
            let start = CaptureView::initial(path, config, started_at_ms, observed);
            let counters = capture_after(start, history).counters;
            counters.dropped_console == counters.records
        }),
{
    let start = CaptureView::initial(path, config, started_at_ms, observed);
    lemma_capture_is_exact(start, history);
    law_console_sink_declines_every_preview(
        sink,
        previews_offered(start, history),
        answers(history),
    );
}

/// A capture keeps the thresholds, the path and the start it was launched with.
pub proof fn law_launch_is_immutable(start: CaptureView, history: Seq<Moment>)
    ensures
        capture_after(start, history).config == start.config,
        capture_after(start, history).path == start.path,
        capture_after(start, history).started_at_ms == start.started_at_ms,
        capture_after(start, history).observed == start.observed,
    decreases history.len(),
{
    if history.len() > 0 {
        law_launch_is_immutable(start, history.drop_last());
    }
}

/// No preview that a capture offers takes more than the configured limit.
pub proof fn law_offers_are_bounded(
    path: Seq<char>,
    config: TranscriptPumpConfig,
    started_at_ms: u64,
    observed: bool,
    history: Seq<Moment>,
    i: int,
)
    requires
        ({
            let start = CaptureView::initial(path, config, started_at_ms, observed);
            &&& possible(start, history)
            &&& 0 <= i < previews_offered(start, history).len()
        }),
    ensures
        previews_offered(
            CaptureView::initial(path, config, started_at_ms, observed),
            history,
        )[i].len() <= config.console_preview_limit,
{
    let start = CaptureView::initial(path, config, started_at_ms, observed);
    lemma_capture_is_exact(start, history);
}

/// A step that ends the capture with `message` as its only fault, and leaves everything it
/// counted and holds as it is.
pub open spec fn ends_in_failure(before: CaptureView, step: CaptureStep, message: Seq<char>) -> bool {
    &&& step.action matches CaptureActionView::Finish(Err(error)) && {
        &&& error.message == bounded(message)
        &&& error.periodic_error is None
        &&& error.settlement_error is None
        &&& error.fallback_error is None
        &&& error.worker_error is None
        &&& error.transport is None
    }
    &&& step.capture == (CaptureView { phase: CapturePhase::Finished, ..before })
}

/// Every failure of the stream or the transcript ends the capture in that very step, observed
/// or not, with a failure that names what failed, where, and why. An initial status that was
/// not acknowledged ends it with the failure that its submission reported.
pub proof fn law_failure_ends_the_capture(
    capture: CaptureView,
    error: Seq<char>,
    refused: ErrorView,
    now_ms: u64,
)
    ensures
        ends_in_failure(
            capture,
            capture.step(EventView::Created(Err(error)), now_ms),
            "create transcript at "@ + capture.path + ": "@ + error,
        ),
        ends_in_failure(
            capture,
            capture.step(EventView::Read(Err(error)), now_ms),
            "read coder stdout: "@ + error,
        ),
        ends_in_failure(
            capture,
            capture.step(EventView::Wrote(ChunkWriteView::Failed(error)), now_ms),
            "write transcript at "@ + capture.path + ": "@ + error,
        ),
        ends_in_failure(
            capture,
            capture.step(EventView::Wrote(ChunkWriteView::Wrote(0)), now_ms),
            "write transcript at "@ + capture.path + ": "@ + "wrote zero bytes"@,
        ),
        ends_in_failure(
            capture,
            capture.step(EventView::Flushed(Err(error)), now_ms),
            "flush transcript at "@ + capture.path + ": "@ + error,
        ),
        capture.step(EventView::Acknowledged(Err(refused)), now_ms).action
            == CaptureActionView::Finish(Err(refused)),
        capture.step(EventView::Acknowledged(Err(refused)), now_ms).capture == (CaptureView {
            phase: CapturePhase::Finished,
            ..capture
        }),
{
}

/// Nothing but a failure fails the capture, and nothing but the flush of its transcript
/// completes it.
pub proof fn law_capture_ends_for_a_reason(capture: CaptureView, event: EventView, now_ms: u64)
    requires
        capture.wf(),
        capture.accepts(event),
    ensures
        capture.step(event, now_ms).action matches CaptureActionView::Finish(outcome) ==> {
            &&& outcome is Ok ==> (event matches EventView::Flushed(Ok(())))
            &&& outcome is Err ==> match event {
                EventView::Created(result) => result is Err,
                EventView::Acknowledged(result) => result is Err,
                EventView::Read(result) => result is Err,
                EventView::Wrote(ChunkWriteView::Wrote(n)) => n == 0,
                EventView::Wrote(ChunkWriteView::Interrupted) => false,
                EventView::Wrote(ChunkWriteView::Failed(_)) => true,
                EventView::Flushed(result) => result is Err,
                _ => false,
            }
        },
        capture.step(event, now_ms).capture.phase == CapturePhase::Finished <==> capture.step(
            event,
            now_ms,
        ).action is Finish,
        (event matches EventView::Flushed(Ok(()))) ==> (capture.step(
            event,
            now_ms,
        ).action matches CaptureActionView::Finish(Ok(()))),
{
}

/// Only an interrupted write is tried again, and it changes nothing: the same bytes are
/// left to write, and nothing was counted.
pub proof fn law_only_an_interrupted_write_is_retried(
    capture: CaptureView,
    event: EventView,
    now_ms: u64,
)
    requires
        capture.wf(),
        capture.phase == CapturePhase::Writing,
        capture.accepts(event),
    ensures
        (event matches EventView::Wrote(ChunkWriteView::Interrupted)) ==> capture.step(
            event,
            now_ms,
        ).capture == capture && capture.step(event, now_ms).action is Write,
        capture.step(event, now_ms).action is Write && capture.step(event, now_ms).capture.unwritten
            == capture.unwritten ==> (event matches EventView::Wrote(ChunkWriteView::Interrupted)),
{
    if let EventView::Wrote(ChunkWriteView::Wrote(n)) = event {
        if n > 0 {
            assert(capture.step(event, now_ms).capture.unwritten.len() == capture.unwritten.len()
                - n);
        }
    }
}

/// What a capture asks for after each event that is no failure. It announces itself only
/// where a coordinator observes it, and reads only behind the acknowledgement; a chunk that
/// was read is written; persisted bytes are offered record by record, then the rest of the
/// chunk is written, and behind a whole chunk the flush interval is measured; the end of the
/// stream is followed by the last record, if one is open, and by the flush.
pub proof fn law_capture_goes_on_as_it_must(
    capture: CaptureView,
    chunk: Seq<u8>,
    n: nat,
    delivered: bool,
    now_ms: u64,
)
    requires
        0 < chunk.len(),
        0 < n <= capture.unwritten.len(),
    ensures
        ({
            let size: nat = if capture.config.read_chunk_size == 0 {
                1
            } else {
                capture.config.read_chunk_size as nat
            };
            let created = capture.step(EventView::Created(Ok(())), now_ms);
            let acknowledged = capture.step(EventView::Acknowledged(Ok(())), now_ms);
            let snapshotted = capture.step(EventView::Snapshotted, now_ms);
            let read = capture.step(EventView::Read(Ok(chunk)), now_ms);
            let ended = capture.step(EventView::Read(Ok(Seq::empty())), now_ms);
            let wrote = capture.step(EventView::Wrote(ChunkWriteView::Wrote(n)), now_ms);
            let answered = capture.step(EventView::Offered(delivered), now_ms);
            &&& capture.observed ==> created.action is SubmitRequired && created.capture.phase
                == CapturePhase::Announcing
            &&& !capture.observed ==> created.action == CaptureActionView::Read(size)
                && created.capture.phase == CapturePhase::Reading
            &&& acknowledged.action == CaptureActionView::Read(size)
            &&& acknowledged.capture == capture.at(CapturePhase::Reading)
            &&& snapshotted.action == CaptureActionView::Read(size)
            &&& snapshotted.capture == capture.at(CapturePhase::Reading)
            &&& created.capture == capture.at(created.capture.phase)
            &&& read.action is Write
            &&& read.capture.unwritten == chunk
            &&& read.capture.counters == capture.counters
            &&& read.capture.line == capture.line
            &&& capture.line.any ==> ended.action is Offer && ended.capture.phase
                == CapturePhase::OfferingLast
            &&& !capture.line.any ==> ended.action is Flush && ended.capture == capture.at(
                CapturePhase::Flushing,
            )
            &&& wrote.action is Offer <==> capture.unwritten.take(n as int).contains(10u8)
            &&& !(wrote.action is Offer) && n < capture.unwritten.len() ==> wrote.action is Write
            &&& !(wrote.action is Offer) && n == capture.unwritten.len() ==> wrote.action is Measure
            &&& wrote.capture.unwritten == capture.unwritten.skip(n as int)
            &&& capture.phase == CapturePhase::OfferingLast ==> answered.action is Flush
            &&& capture.phase == CapturePhase::Offering ==> {
                &&& answered.action is Offer <==> capture.unparsed.contains(10u8)
                &&& !(answered.action is Offer) ==> answered.action is Write
            }
        }),
{
    let fresh = capture.unwritten.take(n as int);
    lemma_first_end_is_first(fresh);
    lemma_first_end_is_first(capture.unparsed);
    if first_end(fresh) < fresh.len() {
        assert(fresh[first_end(fresh) as int] == 10u8);
    }
    if first_end(capture.unparsed) < capture.unparsed.len() {
        assert(capture.unparsed[first_end(capture.unparsed) as int] == 10u8);
    }
    assert(capture.unwritten.skip(n as int).len() == capture.unwritten.len() - n);
}

/// A periodic status is due exactly when at least the configured interval has passed: an
/// observed capture then submits one, and begins the interval anew; before that it reads on.
pub proof fn law_snapshot_is_due_once_the_interval_has_passed(
    capture: CaptureView,
    nanos: nat,
    now_ms: u64,
)
    ensures
        ({
            let step = capture.step(EventView::Elapsed(nanos), now_ms);
            let due = nanos >= capture.config.status_flush_interval.nanos;
            &&& due && capture.observed ==> (step.action matches CaptureActionView::Snapshot(
                submitted,
            ) && submitted is Some)
            &&& due && !capture.observed ==> (step.action matches CaptureActionView::Snapshot(
                submitted,
            ) && submitted is None)
            &&& !due ==> step.action is Read
            &&& step.capture == capture.at(
                if due {
                    CapturePhase::Snapshotting
                } else {
                    CapturePhase::Reading
                },
            )
        }),
{
}

/// A due snapshot stays due: more time never takes it back.
pub proof fn law_more_time_keeps_a_snapshot_due(
    capture: CaptureView,
    nanos: nat,
    more: nat,
    now_ms: u64,
)
    requires
        nanos <= more,
        capture.step(EventView::Elapsed(nanos), now_ms).action is Snapshot,
    ensures
        capture.step(EventView::Elapsed(more), now_ms) == capture.step(
            EventView::Elapsed(nanos),
            now_ms,
        ),
{
}

/// A Running document that tells exactly what this history of a capture came to.
pub open spec fn tells_the_truth(
    start: CaptureView,
    history: Seq<Moment>,
    document: StatusView,
) -> bool {
    let records = records_seen(start, history);
    &&& document.schema_version == 3
    &&& document.state == PumpState::Running
    &&& document.started_at_ms == start.started_at_ms
    &&& document.updated_at_ms == history.last().now_ms
    &&& document.bytes == wrapped(bytes_persisted(start, history).len() as int)
    &&& document.records == wrapped(records.len() as int)
    &&& document.dropped_console == wrapped(records.len() - accepted(answers(history)))
    &&& document.error is None
    &&& document.periodic_error is None
}

/// At every moment of every history, a Running document that the capture submits, required
/// or periodic, counts exactly the bytes persisted so far, the records seen in them, and
/// the previews that no sink accepted, and carries the capture's start. A periodic one
/// counts every record of every byte that reached the transcript.
pub proof fn law_running_status_is_truthful(
    path: Seq<char>,
    config: TranscriptPumpConfig,
    started_at_ms: u64,
    observed: bool,
    history: Seq<Moment>,
)
    requires
        possible(CaptureView::initial(path, config, started_at_ms, observed), history),
        history.len() > 0,
    ensures
        ({
            let start = CaptureView::initial(path, config, started_at_ms, observed);
            match last_step(start, history).action {
                CaptureActionView::SubmitRequired(document) => {
                    &&& tells_the_truth(start, history, document)
                    &&& document.started_at_ms == started_at_ms
                    &&& document.bytes == 0
                    &&& document.records == 0
                },
                CaptureActionView::Snapshot(Some(document)) => {
                    &&& tells_the_truth(start, history, document)
                    &&& document.started_at_ms == started_at_ms
                    &&& bytes_persisted(start, history) == bytes_read(history)
                    &&& records_seen(start, history) == records_in(
                        Seq::empty(),
                        bytes_read(history),
                    )
                },
                _ => true,
            }
        }),
{
    let start = CaptureView::initial(path, config, started_at_ms, observed);
    let before = capture_after(start, history.drop_last());
    lemma_capture_is_exact(start, history);
    lemma_phases(start, history.drop_last());
    law_launch_is_immutable(start, history.drop_last());
    lemma_running_document(before, history.last());
    match last_step(start, history).action {
        CaptureActionView::SubmitRequired(_) => {
            lemma_creating_is_first(start, history.drop_last());
            lemma_nothing_yet(start, history);
        },
        CaptureActionView::Snapshot(Some(_)) => {
            lemma_all_is_read(start, history);
        },
        _ => {},
    }
}

/// What a Running document is built from: the counters as they stand, before and after.
proof fn lemma_running_document(before: CaptureView, moment: Moment)
    requires
        before.wf(),
        before.accepts(moment.event),
    ensures
        ({
            let step = before.step(moment.event, moment.now_ms);
            let submitted = match step.action {
                CaptureActionView::SubmitRequired(document) => Some(document),
                CaptureActionView::Snapshot(document) => document,
                _ => None,
            };
            submitted matches Some(document) ==> {
                &&& document.schema_version == 3
                &&& document.state == PumpState::Running
                &&& document.started_at_ms == before.started_at_ms
                &&& document.updated_at_ms == moment.now_ms
                &&& document.bytes == step.capture.counters.bytes
                &&& document.records == step.capture.counters.records
                &&& document.dropped_console == step.capture.counters.dropped_console
                &&& document.error is None
                &&& document.periodic_error is None
                &&& step.capture.unwritten.len() == 0
                &&& step.capture.unparsed.len() == 0
                &&& !step.capture.is_offering()
                &&& step.action is SubmitRequired ==> before.phase == CapturePhase::Creating
                    && moment.event is Created
                &&& step.action is Snapshot ==> before.phase == CapturePhase::Measuring
                    && moment.event is Elapsed
            }
        }),
{
}

/// Before anything was read, nothing is counted.
proof fn lemma_nothing_yet(start: CaptureView, history: Seq<Moment>)
    requires
        history.len() == 1,
        history.last().event is Created,
        capture_after(start, history).unparsed.len() == 0,
    ensures
        bytes_persisted(start, history).len() == 0,
        records_seen(start, history).len() == 0,
        accepted(answers(history)) == 0,
{
    let earlier = history.drop_last();
    assert(bytes_persisted(start, earlier).len() == 0);
    assert(bytes_parsed(start, history) =~= Seq::empty());
    assert(answers(history) == answers(earlier));
    assert(open_record(Seq::empty(), Seq::<u8>::empty()).len() == 0);
    assert(records_in(Seq::empty(), Seq::<u8>::empty()).len() == 0);
}

/// Where nothing is left to write or to parse and the stream goes on, the records seen are
/// those of all the bytes read.
proof fn lemma_all_is_read(start: CaptureView, history: Seq<Moment>)
    requires
        start.wf(),
        start.phase == CapturePhase::Creating,
        exact(start, history),
        possible(start, history),
        capture_after(start, history).unwritten.len() == 0,
        capture_after(start, history).phase == CapturePhase::Snapshotting,
    ensures
        bytes_persisted(start, history) == bytes_read(history),
        records_seen(start, history) == records_in(Seq::empty(), bytes_read(history)),
{
    lemma_phases(start, history);
    let end = capture_after(start, history);
    assert(bytes_persisted(start, history) + end.unwritten =~= bytes_persisted(start, history));
}

/// The transcript is created once, before anything else.
proof fn lemma_creating_is_first(start: CaptureView, history: Seq<Moment>)
    requires
        start.wf(),
        start.phase == CapturePhase::Creating,
        possible(start, history),
    ensures
        capture_after(start, history).phase == CapturePhase::Creating ==> history.len() == 0,
    decreases history.len(),
{
    if history.len() > 0 {
        let before = capture_after(start, history.drop_last());
        assert(before.step(history.last().event, history.last().now_ms).capture.phase
            != CapturePhase::Creating);
    }
}

/// The records that a capture has seen are those of the stream: put together again, each
/// with its newline, and followed by what is still open, they are the bytes it has parsed.
pub proof fn law_seen_records_make_up_the_transcript(
    path: Seq<char>,
    config: TranscriptPumpConfig,
    started_at_ms: u64,
    observed: bool,
    history: Seq<Moment>,
)
    requires
        possible(CaptureView::initial(path, config, started_at_ms, observed), history),
    ensures
        ({
            let start = CaptureView::initial(path, config, started_at_ms, observed);
            let parsed = bytes_parsed(start, history);
            let open = open_record(Seq::empty(), parsed);
            let records = records_seen(start, history);
            let whole = if stream_ended(history) && open.len() > 0 {
                records.drop_last()
            } else {
                records
            };
            &&& parsed == rejoined(whole) + open
            &&& stream_ended(history) && open.len() > 0 ==> records.len() > 0 && records.last()
                == open
            &&& parsed.is_prefix_of(bytes_read(history))
        }),
{
    let start = CaptureView::initial(path, config, started_at_ms, observed);
    let none = Seq::<u8>::empty();
    let parsed = bytes_parsed(start, history);
    lemma_capture_is_exact(start, history);
    law_records_make_up_the_stream(none, parsed);
    assert(none + parsed =~= parsed);
    let records = records_seen(start, history);
    if stream_ended(history) && open_record(none, parsed).len() > 0 {
        assert(records.drop_last() =~= records_in(none, parsed));
    }
    assert(parsed =~= bytes_read(history).take(parsed.len() as int));
}

/// A capture is read off its fields as they stand: what is left to write is the chunk behind
/// what is written.
pub proof fn law_capture_is_read_as_it_stands(capture: Capture)
    requires
        capture.wf(),
    ensures
        capture@.path == capture.path@,
        capture@.config == capture.config,
        capture@.started_at_ms == capture.started_at_ms,
        capture@.observed == capture.observed,
        capture@.counters == capture.counters,
        capture@.phase == capture.phase,
        capture@.line.limit == capture.line.limit,
        capture@.line.buf == capture.line.buf@,
        capture@.line.truncated == capture.line.truncated,
        capture@.line.any == capture.line.any,
        capture@.unparsed + capture@.unwritten == capture.chunk@.skip(capture.parsed as int),
        capture@.unwritten.len() == capture.chunk@.len() - capture.written,
{
    assert(capture@.unparsed + capture@.unwritten =~= capture.chunk@.skip(capture.parsed as int));
}

/// An event is read as it came, and an action as it is asked for.
pub proof fn law_events_and_actions_are_read_as_they_stand(
    event: CaptureEvent,
    action: CaptureAction,
)
    ensures
        event matches CaptureEvent::Read(Ok(bytes)) ==> event@ == EventView::Read(Ok(bytes@)),
        event matches CaptureEvent::Read(Err(error)) ==> event@ == EventView::Read(Err(error@)),
        event matches CaptureEvent::Wrote(ChunkWrite::Wrote(n)) ==> event@ == EventView::Wrote(
            ChunkWriteView::Wrote(n as nat),
        ),
        event matches CaptureEvent::Wrote(ChunkWrite::Failed(error)) ==> event@
            == EventView::Wrote(ChunkWriteView::Failed(error@)),
        event matches CaptureEvent::Wrote(ChunkWrite::Interrupted) ==> event@ == EventView::Wrote(
            ChunkWriteView::Interrupted,
        ),
        event matches CaptureEvent::Elapsed(nanos) ==> event@ == EventView::Elapsed(nanos as nat),
        event matches CaptureEvent::Offered(delivered) ==> event@ == EventView::Offered(delivered),
        event matches CaptureEvent::Created(Err(error)) ==> event@ == EventView::Created(
            Err(error@),
        ),
        event matches CaptureEvent::Flushed(Err(error)) ==> event@ == EventView::Flushed(
            Err(error@),
        ),
        event matches CaptureEvent::Acknowledged(Err(error)) ==> event@ == EventView::Acknowledged(
            Err(error@),
        ),
        action matches CaptureAction::Offer(bytes) ==> action@ == CaptureActionView::Offer(bytes@),
        action matches CaptureAction::Read(size) ==> action@ == CaptureActionView::Read(
            size as nat,
        ),
        action matches CaptureAction::SubmitRequired(status) ==> action@
            == CaptureActionView::SubmitRequired(status@),
        action matches CaptureAction::Snapshot(Some(status)) ==> action@
            == CaptureActionView::Snapshot(Some(status@)),
        action matches CaptureAction::Snapshot(None) ==> action@ == CaptureActionView::Snapshot(
            None,
        ),
        action is Write <==> action@ is Write,
        action is Measure <==> action@ is Measure,
        action is Flush <==> action@ is Flush,
        action is Finish <==> action@ is Finish,
        action matches CaptureAction::Finish(Err(error)) ==> action@ == CaptureActionView::Finish(
            Err(error@),
        ),
        action matches CaptureAction::Finish(Ok(())) ==> (
        action@ matches CaptureActionView::Finish(Ok(()))),
{
}
/// A capture starts from nothing, with exactly what it was launched with.
pub proof fn law_capture_starts_from_nothing(
    path: Seq<char>,
    config: TranscriptPumpConfig,
    started_at_ms: u64,
    observed: bool,
)
    ensures
        ({
            let start = CaptureView::initial(path, config, started_at_ms, observed);
            &&& start.path == path
            &&& start.config == config
            &&& start.started_at_ms == started_at_ms
            &&& start.observed == observed
            &&& start.counters.bytes == 0
            &&& start.counters.records == 0
            &&& start.counters.dropped_console == 0
            &&& start.line.limit == config.console_preview_limit
            &&& !start.line.any
            &&& start.unwritten.len() == 0
            &&& start.unparsed.len() == 0
        }),
{
}
/// A message about a file names what was attempted, the file, and the detail.
pub proof fn law_message_names_the_file(action: Seq<char>, path: Seq<char>, detail: Seq<char>)
    ensures
        located(action, path, detail) == action + path + ": "@ + detail,
{
}
} // verus!
