//! Bounded console previews and the pump's counters.
//!
//! Record boundaries are detected only to drive a bounded, best-effort console preview
//! and to count records. A preview never takes more than the configured limit, and a
//! record whose preview was not delivered is counted.

use vstd::prelude::*;
use vstd::slice::*;

use crate::status::{PumpSummary, StatusTransportDiagnostics, SummaryView, TransportView};

verus! {

/// Appended to a preview whose record exceeded the console preview limit:
/// `...[preview truncated; full record in transcript]`. It points a reader at the
/// canonical transcript, which alone holds every byte, and is counted against the
/// preview limit.
pub const TRUNCATION_MARKER: [u8; 49] = [
    46, 46, 46, 91, 112, 114, 101, 118, 105, 101, 119, 32, 116, 114, 117, 110, 99, 97, 116, 101,
    100, 59, 32, 102, 117, 108, 108, 32, 114, 101, 99, 111, 114, 100, 32, 105, 110, 32, 116, 114,
    97, 110, 115, 99, 114, 105, 112, 116, 93,
];

/// The byte that ends a record.
pub const RECORD_END: u8 = 10;

/// A destination for bounded console previews. A sink answers whether it accepted the
/// preview; one that is saturated or disconnected declines it.
pub trait PreviewSink: Send + Sync {
    /// Offer a preview. Returns whether it was accepted.
    fn deliver(&self, preview: &[u8]) -> bool;
}

/// The production preview sink. It declines every preview so no preview transport can
/// ever backpressure capture or stall control-plane output.
#[derive(Debug, Clone, Copy)]
pub struct ConsoleSink;

impl PreviewSink for ConsoleSink {
    fn deliver(&self, _preview: &[u8]) -> (delivered: bool)
        ensures
            !delivered,
    {
        false
    }
}

/// The process-wide console preview sink. It synchronously declines every preview: it
/// spawns no renderer and writes preview bytes to no descriptor. Even a nonblocking write
/// to the terminal consumes queue capacity that the next blocking control-plane write may
/// need, so the safe contract is to decline; the canonical transcript already holds every
/// byte.
pub fn console_preview_sink() -> (sink: &'static ConsoleSink)
    ensures
        *sink == ConsoleSink,
        forall|rendered: Seq<u8>, delivered: bool| #[trigger]
            may_answer(sink, rendered, delivered) ==> !delivered,
{
    &ConsoleSink
}

/// `sink` may answer `delivered` to the offer of `rendered`.
pub open spec fn may_answer<P: PreviewSink + ?Sized>(
    sink: &P,
    rendered: Seq<u8>,
    delivered: bool,
) -> bool {
    exists|bytes: &[u8]|
        bytes@ == rendered && #[trigger] call_ensures(P::deliver, (sink, bytes), delivered)
}

/// `sink` may answer these outcomes to the first of these offers, one each, in order.
pub open spec fn may_answer_all<P: PreviewSink + ?Sized>(
    sink: &P,
    offered: Seq<Seq<u8>>,
    outcomes: Seq<bool>,
) -> bool {
    &&& outcomes.len() <= offered.len()
    &&& forall|i: int|
        0 <= i < outcomes.len() ==> may_answer(sink, #[trigger] offered[i], outcomes[i])
}

/// Accumulates one record's bytes up to a bound so an oversized record yields a bounded,
/// lossy preview with a truncation marker instead of an unbounded console write.
#[derive(Debug)]
pub struct PreviewLine {
    pub limit: usize,
    pub buf: Vec<u8>,
    pub truncated: bool,
    pub any: bool,
}

#[verifier::ext_equal]
pub struct LineView {
    pub limit: nat,
    pub buf: Seq<u8>,
    pub truncated: bool,
    pub any: bool,
}

impl View for PreviewLine {
    type V = LineView;

    open spec fn view(&self) -> LineView {
        LineView {
            limit: self.limit as nat,
            buf: self.buf@,
            truncated: self.truncated,
            any: self.any,
        }
    }
}

/// The preview of a whole record: the record itself when it fits the limit; else its
/// beginning with the marker at the end, together as long as the limit; else, where the
/// limit is below the marker's own length, the beginning of the marker.
pub open spec fn preview_of(limit: nat, record: Seq<u8>) -> Seq<u8> {
    let marker = TRUNCATION_MARKER@;
    if record.len() <= limit {
        record
    } else if limit < marker.len() {
        marker.take(limit as int)
    } else {
        record.take(limit - marker.len()) + marker
    }
}

impl LineView {
    /// A line that has taken in exactly the bytes of `record`.
    pub open spec fn holding(limit: nat, record: Seq<u8>) -> Self {
        LineView {
            limit,
            buf: if record.len() <= limit {
                record
            } else {
                record.take(limit as int)
            },
            truncated: record.len() > limit,
            any: record.len() > 0,
        }
    }

    /// An empty line with the same limit.
    pub open spec fn reset(self) -> Self {
        LineView::holding(self.limit, Seq::empty())
    }

    pub open spec fn push(self, byte: u8) -> Self {
        if self.buf.len() < self.limit {
            LineView { buf: self.buf.push(byte), any: true, ..self }
        } else {
            LineView { truncated: true, any: true, ..self }
        }
    }

    pub open spec fn rendered(self) -> Seq<u8> {
        let marker = TRUNCATION_MARKER@;
        if !self.truncated {
            self.buf
        } else if self.limit < marker.len() {
            marker.take(self.limit as int)
        } else if self.buf.len() <= self.limit - marker.len() {
            self.buf + marker
        } else {
            self.buf.take(self.limit - marker.len()) + marker
        }
    }
}

impl PreviewLine {
    pub fn new(limit: usize) -> (line: Self)
        ensures
            line@ == LineView::holding(limit as nat, Seq::empty()),
    {
        PreviewLine { limit, buf: Vec::new(), truncated: false, any: false }
    }

    pub fn push(&mut self, byte: u8)
        ensures
            final(self)@ == old(self)@.push(byte),
    {
        self.any = true;
        if self.buf.len() < self.limit {
            self.buf.push(byte);
        } else {
            self.truncated = true;
        }
    }

    pub fn has_bytes(&self) -> (any: bool)
        ensures
            any == self@.any,
    {
        self.any
    }

    /// Render the accumulated record as a bounded preview and reset for the next record.
    ///
    /// The limit bounds the total rendered preview for every value. A truncated preview
    /// reserves room for the marker; when the limit is even smaller than the marker
    /// itself, only a prefix of the marker is emitted.
    pub fn render_and_reset(&mut self) -> (rendered: Vec<u8>)
        ensures
            rendered@ == old(self)@.rendered(),
            final(self)@ == old(self)@.reset(),
    {
        let marker_len: usize = TRUNCATION_MARKER.len();
        let rendered = if self.truncated {
            if self.limit < marker_len {
                let prefix = slice_subrange(TRUNCATION_MARKER.as_slice(), 0, self.limit);
                assert(prefix@ =~= TRUNCATION_MARKER@.take(self.limit as int));
                slice_to_vec(prefix)
            } else {
                let payload_cap: usize = self.limit - marker_len;
                let keep: usize = if payload_cap < self.buf.len() {
                    payload_cap
                } else {
                    self.buf.len()
                };
                let mut bounded = slice_to_vec(slice_subrange(self.buf.as_slice(), 0, keep));
                bounded.extend_from_slice(TRUNCATION_MARKER.as_slice());
                assert(bounded@ =~= self@.rendered());
                bounded
            }
        } else {
            self.buf.clone()
        };
        assert(rendered@ =~= self@.rendered());
        self.buf.clear();
        self.truncated = false;
        self.any = false;
        assert(self@ =~= old(self)@.reset());
        rendered
    }
}

/// A counter holds a number up to the width of 64 bits; beyond it, it wraps.
pub open spec fn wrapped(count: int) -> u64 {
    (count % 0x1_0000_0000_0000_0000) as u64
}

/// The pump's counters. They outlive a panic of the capture, so its terminal status
/// reports what was accumulated before.
#[derive(Debug, Clone, Copy)]
pub struct SharedCounters {
    pub bytes: u64,
    pub records: u64,
    pub dropped_console: u64,
}

impl Default for SharedCounters {
    fn default() -> (counters: Self)
        ensures
            counters == (SharedCounters { bytes: 0, records: 0, dropped_console: 0 }),
    {
        SharedCounters { bytes: 0, records: 0, dropped_console: 0 }
    }
}

impl SharedCounters {
    /// The counters after so many more bytes, records, and undelivered previews.
    pub open spec fn plus(self, bytes: int, records: int, dropped: int) -> Self {
        SharedCounters {
            bytes: wrapped(self.bytes + bytes),
            records: wrapped(self.records + records),
            dropped_console: wrapped(self.dropped_console + dropped),
        }
    }

    /// The counters as a drain's observations.
    pub open spec fn summary(self) -> SummaryView {
        SummaryView {
            bytes: self.bytes,
            records: self.records,
            dropped_console: self.dropped_console,
            transport: TransportView::empty(),
        }
    }

    pub fn add_bytes(&mut self, n: u64)
        ensures
            *final(self) == old(self).plus(n as int, 0, 0),
    {
        self.bytes = self.bytes.wrapping_add(n);
    }

    pub fn add_record(&mut self)
        ensures
            *final(self) == old(self).plus(0, 1, 0),
    {
        self.records = self.records.wrapping_add(1);
    }

    pub fn add_dropped(&mut self)
        ensures
            *final(self) == old(self).plus(0, 0, 1),
    {
        self.dropped_console = self.dropped_console.wrapping_add(1);
    }

    pub fn sub_dropped(&mut self)
        ensures
            *final(self) == old(self).plus(0, 0, -1),
    {
        self.dropped_console = self.dropped_console.wrapping_sub(1);
    }

    pub fn snapshot(&self) -> (summary: PumpSummary)
        ensures
            summary@ == self.summary(),
    {
        PumpSummary {
            transport: StatusTransportDiagnostics::default(),
            bytes: self.bytes,
            records: self.records,
            dropped_console: self.dropped_console,
        }
    }
}

/// Hand out a record's bounded preview for delivery, its loss accounted beforehand.
///
/// Pre-accounting is what makes a sink that panics safe: the loss is already committed when
/// the preview leaves, and only `confirm_preview` undoes it, so a record whose preview
/// vanished in an unwind is still counted.
pub fn deliver_preview(line: &mut PreviewLine, counters: &mut SharedCounters) -> (rendered: Vec<u8>)
    ensures
        rendered@ == old(line)@.rendered(),
        final(line)@ == old(line)@.reset(),
        *final(counters) == old(counters).plus(0, 0, 1),
{
    let rendered = line.render_and_reset();
    counters.add_dropped();
    rendered
}

/// The loss that a sink's answer undoes.
pub open spec fn undone(delivered: bool) -> int {
    if delivered {
        -1
    } else {
        0
    }
}

/// Take in a sink's answer: undo the pre-accounted loss once delivery is confirmed.
pub fn confirm_preview(counters: &mut SharedCounters, delivered: bool)
    ensures
        *final(counters) == old(counters).plus(0, 0, undone(delivered)),
{
    proof {
        lemma_plus_compose(*counters, 0, 0, 0, 0, 0, 0);
    }
    if delivered {
        counters.sub_dropped();
    }
}

/// How many previews were accepted.
pub open spec fn accepted(outcomes: Seq<bool>) -> nat
    decreases outcomes.len(),
{
    if outcomes.len() == 0 {
        0
    } else {
        accepted(outcomes.drop_last()) + if outcomes.last() {
            1nat
        } else {
            0nat
        }
    }
}

// ---------------------------------------------------------------------------------
// A stream of bytes
// ---------------------------------------------------------------------------------

/// How many records end in these bytes.
pub open spec fn record_ends(bytes: Seq<u8>) -> nat
    decreases bytes.len(),
{
    if bytes.len() == 0 {
        0
    } else {
        record_ends(bytes.drop_last()) + if bytes.last() == RECORD_END {
            1nat
        } else {
            0nat
        }
    }
}

/// The line after it has taken in these bytes.
pub open spec fn line_after(line: LineView, bytes: Seq<u8>) -> LineView
    decreases bytes.len(),
{
    if bytes.len() == 0 {
        line
    } else if bytes.last() == RECORD_END {
        line_after(line, bytes.drop_last()).reset()
    } else {
        line_after(line, bytes.drop_last()).push(bytes.last())
    }
}

/// The previews that the records ending in these bytes are offered with, in order.
pub open spec fn previews(line: LineView, bytes: Seq<u8>) -> Seq<Seq<u8>>
    decreases bytes.len(),
{
    if bytes.len() == 0 {
        Seq::empty()
    } else if bytes.last() == RECORD_END {
        previews(line, bytes.drop_last()).push(line_after(line, bytes.drop_last()).rendered())
    } else {
        previews(line, bytes.drop_last())
    }
}

/// The bytes since the last record end, counting those of `record` before them.
pub open spec fn open_record(record: Seq<u8>, bytes: Seq<u8>) -> Seq<u8>
    decreases bytes.len(),
{
    if bytes.len() == 0 {
        record
    } else if bytes.last() == RECORD_END {
        Seq::empty()
    } else {
        open_record(record, bytes.drop_last()).push(bytes.last())
    }
}

/// The records that end in these bytes, the first one beginning with `record`.
pub open spec fn records_in(record: Seq<u8>, bytes: Seq<u8>) -> Seq<Seq<u8>>
    decreases bytes.len(),
{
    if bytes.len() == 0 {
        Seq::empty()
    } else if bytes.last() == RECORD_END {
        records_in(record, bytes.drop_last()).push(open_record(record, bytes.drop_last()))
    } else {
        records_in(record, bytes.drop_last())
    }
}

/// Where the first record ends in these bytes: the position of its final newline, or the
/// end of the bytes.
pub open spec fn first_end(bytes: Seq<u8>) -> nat
    decreases bytes.len(),
{
    if bytes.len() == 0 || bytes[0] == RECORD_END {
        0
    } else {
        1 + first_end(bytes.drop_first())
    }
}

pub proof fn lemma_first_end(bytes: Seq<u8>, at: int)
    requires
        0 <= at <= bytes.len(),
        forall|k: int| 0 <= k < at ==> bytes[k] != RECORD_END,
        at < bytes.len() ==> bytes[at] == RECORD_END,
    ensures
        first_end(bytes) == at,
    decreases bytes.len(),
{
    if at > 0 {
        assert(bytes[0] != RECORD_END);
        assert forall|k: int| 0 <= k < at - 1 implies bytes.drop_first()[k] != RECORD_END by {
            assert(bytes.drop_first()[k] == bytes[k + 1]);
        }
        lemma_first_end(bytes.drop_first(), at - 1);
    }
}

pub proof fn lemma_first_end_is_first(bytes: Seq<u8>)
    ensures
        first_end(bytes) <= bytes.len(),
        forall|k: int| 0 <= k < first_end(bytes) ==> bytes[k] != RECORD_END,
        first_end(bytes) < bytes.len() ==> bytes[first_end(bytes) as int] == RECORD_END,
    decreases bytes.len(),
{
    if bytes.len() > 0 && bytes[0] != RECORD_END {
        let rest = bytes.drop_first();
        lemma_first_end_is_first(rest);
        assert forall|k: int| 0 <= k < first_end(bytes) implies bytes[k] != RECORD_END by {
            if k > 0 {
                assert(rest[k - 1] == bytes[k]);
            }
        }
    }
}

/// Take the bytes of a record into the line, up to its final newline or the end of the
/// bytes, and return how far that is.
pub fn take_record(bytes: &[u8], line: &mut PreviewLine) -> (end: usize)
    ensures
        end == first_end(bytes@),
        end <= bytes@.len(),
        final(line)@ == line_after(old(line)@, bytes@.take(end as int)),
{
    let ghost start = line@;
    let mut end: usize = 0;
    assert(bytes@.take(0) =~= Seq::empty());
    while end < bytes.len() && bytes[end] != RECORD_END
        invariant
            0 <= end <= bytes@.len(),
            forall|k: int| 0 <= k < end ==> bytes@[k] != RECORD_END,
            line@ == line_after(start, bytes@.take(end as int)),
        decreases bytes@.len() - end,
    {
        line.push(bytes[end]);
        assert(bytes@.take(end + 1).drop_last() =~= bytes@.take(end as int));
        end = end + 1;
    }
    proof {
        lemma_first_end(bytes@, end as int);
    }
    end
}

/// Counting in two steps is counting once.
pub proof fn lemma_plus_compose(
    counters: SharedCounters,
    bytes: int,
    records: int,
    dropped: int,
    more_bytes: int,
    more_records: int,
    more_dropped: int,
)
    ensures
        counters.plus(bytes, records, dropped).plus(more_bytes, more_records, more_dropped)
            == counters.plus(bytes + more_bytes, records + more_records, dropped + more_dropped),
        counters.plus(0, 0, 0) == counters,
{
}

// ---------------------------------------------------------------------------------
// Laws
// ---------------------------------------------------------------------------------

/// Whatever its limit, a line stands for the record it has taken in: it renders the
/// record's preview.
pub proof fn law_line_stands_for_its_record(limit: nat, record: Seq<u8>, byte: u8)
    ensures
        LineView::holding(limit, record).push(byte) == LineView::holding(limit, record.push(byte)),
        LineView::holding(limit, record).rendered() == preview_of(limit, record),
        LineView::holding(limit, record).any <==> record.len() > 0,
{
    let line = LineView::holding(limit, record);
    let grown = record.push(byte);
    if record.len() >= limit {
        assert(grown.take(limit as int) =~= line.buf);
    }
    assert(line.push(byte) =~= LineView::holding(limit, grown));
    if record.len() > limit && limit >= TRUNCATION_MARKER@.len() {
        assert(record.take(limit as int).take(limit - TRUNCATION_MARKER@.len())
            =~= record.take(limit - TRUNCATION_MARKER@.len()));
    }
}

/// A rendered preview never takes more than the limit, for any limit and any record; a
/// record that fits is shown whole, one that does not fills the limit exactly.
pub proof fn law_preview_is_bounded(limit: nat, record: Seq<u8>)
    ensures
        preview_of(limit, record).len() <= limit,
        record.len() <= limit ==> preview_of(limit, record) == record,
        record.len() > limit ==> preview_of(limit, record).len() == limit,
{
}

/// The records of a stream are what it offers previews of: each complete record is offered
/// once, in order, with its own preview, and the line holds the bytes of the record still
/// open.
pub proof fn law_stream_offers_its_records(limit: nat, record: Seq<u8>, bytes: Seq<u8>)
    ensures
        line_after(LineView::holding(limit, record), bytes) == LineView::holding(
            limit,
            open_record(record, bytes),
        ),
        previews(LineView::holding(limit, record), bytes) == records_in(record, bytes).map_values(
            |whole: Seq<u8>| preview_of(limit, whole),
        ),
        records_in(record, bytes).len() == record_ends(bytes),
    decreases bytes.len(),
{
    let line = LineView::holding(limit, record);
    let show = |whole: Seq<u8>| preview_of(limit, whole);
    if bytes.len() == 0 {
        assert(previews(line, bytes) =~= records_in(record, bytes).map_values(show));
    } else {
        let shorter = bytes.drop_last();
        law_stream_offers_its_records(limit, record, shorter);
        let held = open_record(record, shorter);
        law_line_stands_for_its_record(limit, held, bytes.last());
        assert(previews(line, bytes) =~= records_in(record, bytes).map_values(show));
    }
}

/// How a stream is cut into chunks changes neither its records nor their previews.
pub proof fn law_chunking_is_irrelevant(line: LineView, first: Seq<u8>, second: Seq<u8>)
    ensures
        line_after(line_after(line, first), second) == line_after(line, first + second),
        previews(line, first) + previews(line_after(line, first), second) == previews(
            line,
            first + second,
        ),
        record_ends(first) + record_ends(second) == record_ends(first + second),
    decreases second.len(),
{
    if second.len() == 0 {
        assert(first + second =~= first);
        assert(previews(line, first) + Seq::<Seq<u8>>::empty() =~= previews(line, first));
    } else {
        let shorter = second.drop_last();
        law_chunking_is_irrelevant(line, first, shorter);
        assert((first + second).drop_last() =~= first + shorter);
        assert((first + second).last() == second.last());
        if second.last() == RECORD_END {
            let after = line_after(line, first);
            let shown = line_after(after, shorter).rendered();
            assert(previews(line, first) + previews(after, shorter).push(shown) =~= (previews(
                line,
                first,
            ) + previews(after, shorter)).push(shown));
        }
    }
}

/// The console sink declines everything.
pub proof fn law_console_sink_declines_every_preview(
    sink: &ConsoleSink,
    offered: Seq<Seq<u8>>,
    outcomes: Seq<bool>,
)
    requires
        may_answer_all(sink, offered, outcomes),
    ensures
        accepted(outcomes) == 0,
    decreases outcomes.len(),
{
    if outcomes.len() > 0 {
        let k = outcomes.len() - 1;
        assert(may_answer(sink, offered[k], outcomes[k]));
        assert forall|i: int| 0 <= i < k implies may_answer(
            sink,
            #[trigger] offered[i],
            outcomes.drop_last()[i],
        ) by {
            assert(may_answer(sink, offered[i], outcomes[i]));
        }
        law_console_sink_declines_every_preview(sink, offered, outcomes.drop_last());
    }
}

/// The loss of a preview is counted from the moment it is handed out: it stands while the
/// sink has not answered, however it ends, stays when the sink declines, and is undone
/// exactly when the sink confirms delivery. Bytes and records are not touched by it.
pub proof fn law_loss_stands_until_confirmed(counters: SharedCounters, delivered: bool)
    ensures
        counters.plus(0, 0, 1).dropped_console == wrapped(counters.dropped_console + 1),
        counters.plus(0, 0, 1).bytes == counters.bytes,
        counters.plus(0, 0, 1).records == counters.records,
        counters.plus(0, 0, 1).plus(0, 0, undone(delivered)) == if delivered {
            counters
        } else {
            counters.plus(0, 0, 1)
        },
{
    lemma_plus_compose(counters, 0, 0, 1, 0, 0, undone(delivered));
}

/// A preview, byte by byte. A record that fits the limit is shown as it is. One that does
/// not is shown from its beginning, as far as 49 bytes are left, and the marker fills those;
/// where the limit is below that, the beginning of the marker is all that is shown.
pub proof fn law_preview_shows_the_beginning(limit: nat, record: Seq<u8>, i: int)
    requires
        0 <= i,
    ensures
        TRUNCATION_MARKER@.len() == 49,
        record.len() <= limit && i < record.len() ==> preview_of(limit, record)[i] == record[i],
        record.len() <= limit ==> preview_of(limit, record).len() == record.len(),
        record.len() > limit ==> preview_of(limit, record).len() == limit,
        record.len() > limit && limit >= 49 && i < limit - 49 ==> preview_of(limit, record)[i]
            == record[i],
        record.len() > limit && limit >= 49 && limit - 49 <= i < limit ==> preview_of(
            limit,
            record,
        )[i] == TRUNCATION_MARKER@[i - (limit - 49)],
        record.len() > limit && limit < 49 && i < limit ==> preview_of(limit, record)[i]
            == TRUNCATION_MARKER@[i],
{
}

/// What a line renders, byte by byte, of the record that was pushed into it.
pub proof fn law_line_renders_the_beginning(limit: nat, record: Seq<u8>, i: int)
    requires
        0 <= i,
    ensures
        ({
            let rendered = pushed_all(LineView::holding(limit, Seq::empty()), record).rendered();
            &&& record.len() <= limit ==> rendered == record
            &&& record.len() > limit ==> rendered.len() == limit
            &&& record.len() > limit && limit >= 49 && i < limit - 49 ==> rendered[i] == record[i]
            &&& record.len() > limit && limit >= 49 && limit - 49 <= i < limit ==> rendered[i]
                == TRUNCATION_MARKER@[i - (limit - 49)]
            &&& record.len() > limit && limit < 49 && i < limit ==> rendered[i]
                == TRUNCATION_MARKER@[i]
        }),
        pushed_all(LineView::holding(limit, Seq::empty()), record).any <==> record.len() > 0,
        pushed_all(LineView::holding(limit, Seq::empty()), record).reset().rendered().len() == 0,
        !pushed_all(LineView::holding(limit, Seq::empty()), record).reset().any,
{
    lemma_pushed_all(limit, record);
    law_line_stands_for_its_record(limit, record, 0);
    law_preview_shows_the_beginning(limit, record, i);
}

/// A line after each of these bytes was pushed into it, in order.
pub open spec fn pushed_all(line: LineView, bytes: Seq<u8>) -> LineView
    decreases bytes.len(),
{
    if bytes.len() == 0 {
        line
    } else {
        pushed_all(line, bytes.drop_last()).push(bytes.last())
    }
}

proof fn lemma_pushed_all(limit: nat, record: Seq<u8>)
    ensures
        pushed_all(LineView::holding(limit, Seq::empty()), record) == LineView::holding(
            limit,
            record,
        ),
    decreases record.len(),
{
    if record.len() > 0 {
        lemma_pushed_all(limit, record.drop_last());
        law_line_stands_for_its_record(limit, record.drop_last(), record.last());
        assert(record.drop_last().push(record.last()) =~= record);
    } else {
        assert(record =~= Seq::empty());
    }
}

/// These records, each with its final newline, one behind the other.
pub open spec fn rejoined(records: Seq<Seq<u8>>) -> Seq<u8>
    decreases records.len(),
{
    if records.len() == 0 {
        Seq::empty()
    } else {
        rejoined(records.drop_last()) + records.last().push(10u8)
    }
}

/// The records of a stream are the stream: put together again, each with its newline, and
/// followed by the record still open, they are its bytes; and no record holds a newline.
pub proof fn law_records_make_up_the_stream(record: Seq<u8>, bytes: Seq<u8>)
    requires
        !record.contains(10u8),
    ensures
        record + bytes == rejoined(records_in(record, bytes)) + open_record(record, bytes),
        !open_record(record, bytes).contains(10u8),
        forall|i: int|
            0 <= i < records_in(record, bytes).len() ==> !(#[trigger] records_in(
                record,
                bytes,
            )[i]).contains(10u8),
    decreases bytes.len(),
{
    let records = records_in(record, bytes);
    if bytes.len() == 0 {
        assert(record + bytes =~= rejoined(records) + open_record(record, bytes));
    } else {
        let shorter = bytes.drop_last();
        law_records_make_up_the_stream(record, shorter);
        let before = records_in(record, shorter);
        let open = open_record(record, shorter);
        assert(record + bytes =~= (record + shorter).push(bytes.last()));
        if bytes.last() == RECORD_END {
            assert(records.drop_last() =~= before);
            assert(rejoined(records) == rejoined(before) + open.push(10u8));
            assert(record + bytes =~= rejoined(records) + open_record(record, bytes));
            assert forall|i: int| 0 <= i < records.len() implies !(
            #[trigger] records[i]).contains(10u8) by {
                if i < before.len() {
                    assert(records[i] == before[i]);
                }
            }
        } else {
            let grown = open.push(bytes.last());
            assert(record + bytes =~= rejoined(records) + grown);
            assert forall|k: int| 0 <= k < grown.len() implies grown[k] != 10u8 by {
                if k < open.len() {
                    assert(open.contains(open[k]));
                }
            }
        }
    }
}

/// The counters add up: as long as a sum fits its counter, it is the sum.
pub proof fn law_counters_add_up(counters: SharedCounters, bytes: int, records: int, dropped: int)
    ensures
        0 <= counters.bytes + bytes <= u64::MAX ==> counters.plus(bytes, records, dropped).bytes
            == counters.bytes + bytes,
        0 <= counters.records + records <= u64::MAX ==> counters.plus(
            bytes,
            records,
            dropped,
        ).records == counters.records + records,
        0 <= counters.dropped_console + dropped <= u64::MAX ==> counters.plus(
            bytes,
            records,
            dropped,
        ).dropped_console == counters.dropped_console + dropped,
        counters.summary().bytes == counters.bytes,
        counters.summary().records == counters.records,
        counters.summary().dropped_console == counters.dropped_console,
        counters.summary().transport == TransportView::empty(),
{
}
} // verus!
