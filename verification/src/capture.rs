//! Exact capture of a byte stream.
//!
//! The capture reads raw chunks and persists them, unmodified and in order. It never
//! decodes the stream and never splits a record before persisting it. It is a machine
//! that decides: each step names the next piece of work (create, read, write, offer a
//! preview, ...), and whoever runs it performs that work and comes back with what happened.
//! Everything outside that can fail, block or panic happens between two steps, so the
//! counters are truthful whenever it does.

use vstd::prelude::*;
use vstd::slice::*;

use crate::config::TranscriptPumpConfig;
use crate::error::{outcome_of, ErrorView, TranscriptPumpError};
use crate::preview::{
    confirm_preview, deliver_preview, first_end, lemma_first_end_is_first, lemma_plus_compose,
    line_after, take_record, undone, LineView, PreviewLine, SharedCounters,
};
use crate::status::{
    running_status, status_document, PumpState, PumpStatus, StatusView, TransportView,
};
use crate::text::{join_text, result_of};

verus! {

/// What one write of transcript bytes reported.
#[derive(Debug)]
pub enum ChunkWrite {
    /// So many bytes were persisted.
    Wrote(usize),
    /// Nothing was persisted; the write is to be tried again.
    Interrupted,
    /// The write failed.
    Failed(String),
}

/// What happened outside.
#[derive(Debug)]
pub enum CaptureEvent {
    /// The transcript file was created.
    Created(Result<(), String>),
    /// The initial required status was acknowledged.
    Acknowledged(Result<(), TranscriptPumpError>),
    /// A chunk was read; an empty one is the end of the stream.
    Read(Result<Vec<u8>, String>),
    /// A write of the unwritten bytes returned.
    Wrote(ChunkWrite),
    /// The sink answered whether it accepted the preview.
    Offered(bool),
    /// So many nanoseconds passed since the flush interval began.
    Elapsed(u128),
    /// The snapshot was submitted and the flush interval begun anew.
    Snapshotted,
    /// The transcript file was flushed.
    Flushed(Result<(), String>),
}

/// What the capture asks for next.
#[derive(Debug)]
pub enum CaptureAction {
    /// Create the transcript file.
    Create,
    /// Submit this required status and wait for its acknowledgement.
    SubmitRequired(PumpStatus),
    /// Read at most this many bytes.
    Read(usize),
    /// Write the unwritten bytes.
    Write,
    /// Offer this preview to the sink, once. Its loss is already counted.
    Offer(Vec<u8>),
    /// Measure the time since the flush interval began.
    Measure,
    /// Submit this snapshot, if there is one, and begin the flush interval anew.
    Snapshot(Option<PumpStatus>),
    /// Flush the transcript file.
    Flush,
    /// The capture is over.
    Finish(Result<(), TranscriptPumpError>),
}

/// What the capture is waiting for.
#[derive(Debug, Clone, Copy, PartialEq, Eq, Structural)]
pub enum CapturePhase {
    Creating,
    Announcing,
    Reading,
    Writing,
    /// A record that ended in the persisted bytes is offered.
    Offering,
    Measuring,
    Snapshotting,
    /// The record left without a final newline at the end of the stream is offered.
    OfferingLast,
    Flushing,
    Finished,
}

/// The capture of one stream.
#[derive(Debug)]
pub struct Capture {
    /// The transcript's path, as messages name it.
    pub path: String,
    pub config: TranscriptPumpConfig,
    pub started_at_ms: u64,
    /// Whether a status coordinator observes the capture.
    pub observed: bool,
    pub line: PreviewLine,
    pub counters: SharedCounters,
    /// The chunk that was read last.
    pub chunk: Vec<u8>,
    /// How many bytes of the chunk are persisted.
    pub written: usize,
    /// How many bytes of the chunk are parsed into records.
    pub parsed: usize,
    pub phase: CapturePhase,
}

pub enum ChunkWriteView {
    Wrote(nat),
    Interrupted,
    Failed(Seq<char>),
}

pub enum EventView {
    Created(Result<(), Seq<char>>),
    Acknowledged(Result<(), ErrorView>),
    Read(Result<Seq<u8>, Seq<char>>),
    Wrote(ChunkWriteView),
    Offered(bool),
    Elapsed(nat),
    Snapshotted,
    Flushed(Result<(), Seq<char>>),
}

pub enum CaptureActionView {
    Create,
    SubmitRequired(StatusView),
    Read(nat),
    Write,
    Offer(Seq<u8>),
    Measure,
    Snapshot(Option<StatusView>),
    Flush,
    Finish(Result<(), ErrorView>),
}

#[verifier::ext_equal]
pub struct CaptureView {
    pub path: Seq<char>,
    pub config: TranscriptPumpConfig,
    pub started_at_ms: u64,
    pub observed: bool,
    pub line: LineView,
    pub counters: SharedCounters,
    /// The bytes of the chunk that are persisted but not parsed into records yet.
    pub unparsed: Seq<u8>,
    /// The bytes of the chunk that are not persisted yet.
    pub unwritten: Seq<u8>,
    pub phase: CapturePhase,
}

/// The capture after an event, and what it asks for.
pub struct CaptureStep {
    pub capture: CaptureView,
    pub action: CaptureActionView,
}

impl View for ChunkWrite {
    type V = ChunkWriteView;

    open spec fn view(&self) -> ChunkWriteView {
        match self {
            ChunkWrite::Wrote(n) => ChunkWriteView::Wrote(*n as nat),
            ChunkWrite::Interrupted => ChunkWriteView::Interrupted,
            ChunkWrite::Failed(error) => ChunkWriteView::Failed(error@),
        }
    }
}

impl View for CaptureEvent {
    type V = EventView;

    open spec fn view(&self) -> EventView {
        match self {
            CaptureEvent::Created(result) => EventView::Created(result_of(*result)),
            CaptureEvent::Acknowledged(outcome) => EventView::Acknowledged(outcome_of(*outcome)),
            CaptureEvent::Read(Ok(bytes)) => EventView::Read(Ok(bytes@)),
            CaptureEvent::Read(Err(error)) => EventView::Read(Err(error@)),
            CaptureEvent::Wrote(write) => EventView::Wrote(write@),
            CaptureEvent::Offered(delivered) => EventView::Offered(*delivered),
            CaptureEvent::Elapsed(nanos) => EventView::Elapsed(*nanos as nat),
            CaptureEvent::Snapshotted => EventView::Snapshotted,
            CaptureEvent::Flushed(result) => EventView::Flushed(result_of(*result)),
        }
    }
}

impl View for CaptureAction {
    type V = CaptureActionView;

    open spec fn view(&self) -> CaptureActionView {
        match self {
            CaptureAction::Create => CaptureActionView::Create,
            CaptureAction::SubmitRequired(status) => CaptureActionView::SubmitRequired(status@),
            CaptureAction::Read(size) => CaptureActionView::Read(*size as nat),
            CaptureAction::Write => CaptureActionView::Write,
            CaptureAction::Offer(rendered) => CaptureActionView::Offer(rendered@),
            CaptureAction::Measure => CaptureActionView::Measure,
            CaptureAction::Snapshot(Some(status)) => CaptureActionView::Snapshot(Some(status@)),
            CaptureAction::Snapshot(None) => CaptureActionView::Snapshot(None),
            CaptureAction::Flush => CaptureActionView::Flush,
            CaptureAction::Finish(outcome) => CaptureActionView::Finish(outcome_of(*outcome)),
        }
    }
}

impl View for Capture {
    type V = CaptureView;

    open spec fn view(&self) -> CaptureView {
        CaptureView {
            path: self.path@,
            config: self.config,
            started_at_ms: self.started_at_ms,
            observed: self.observed,
            line: self.line@,
            counters: self.counters,
            unparsed: self.chunk@.subrange(self.parsed as int, self.written as int),
            unwritten: self.chunk@.skip(self.written as int),
            phase: self.phase,
        }
    }
}

/// A message that names the transcript: `action`, its path, and the detail.
pub open spec fn located(action: Seq<char>, path: Seq<char>, detail: Seq<char>) -> Seq<char> {
    action + path + ": "@ + detail
}

/// Build a message that names a file: `action`, its path, and the detail.
pub fn locate(action: &str, path: &str, detail: &str) -> (message: String)
    ensures
        message@ == located(action@, path@, detail@),
{
    let mut message = join_text(action, path);
    message.append(": ");
    message.append(detail);
    message
}

/// The message of a status document that could not be persisted at `path`.
pub fn persist_failure(path: &str, detail: &str) -> (message: String)
    ensures
        message@ == located("persist pump status at "@, path@, detail@),
{
    locate("persist pump status at ", path, detail)
}

impl CaptureView {
    pub open spec fn initial(
        path: Seq<char>,
        config: TranscriptPumpConfig,
        started_at_ms: u64,
        observed: bool,
    ) -> Self {
        CaptureView {
            path,
            config,
            started_at_ms,
            observed,
            line: LineView::holding(config.console_preview_limit as nat, Seq::empty()),
            counters: SharedCounters { bytes: 0, records: 0, dropped_console: 0 },
            unparsed: Seq::empty(),
            unwritten: Seq::empty(),
            phase: CapturePhase::Creating,
        }
    }

    /// Bytes are left to parse only while a record that ended among them is offered, and
    /// left to write only while the capture writes or offers, or where it failed.
    pub open spec fn wf(self) -> bool {
        &&& self.phase != CapturePhase::Offering ==> self.unparsed.len() == 0
        &&& self.phase == CapturePhase::Writing ==> self.unwritten.len() > 0
        &&& self.phase != CapturePhase::Writing && self.phase != CapturePhase::Offering
            && self.phase != CapturePhase::Finished ==> self.unwritten.len() == 0
    }

    /// A preview was handed out and the sink has not answered.
    pub open spec fn is_offering(self) -> bool {
        self.phase == CapturePhase::Offering || self.phase == CapturePhase::OfferingLast
    }

    /// How many bytes are read at a time: as configured, and at least one.
    pub open spec fn chunk_size(self) -> nat {
        if self.config.read_chunk_size == 0 {
            1
        } else {
            self.config.read_chunk_size as nat
        }
    }

    /// The `Running` document of the capture as it stands.
    pub open spec fn running(self, now_ms: u64) -> StatusView {
        status_document(
            PumpState::Running,
            self.started_at_ms,
            now_ms,
            self.counters.summary(),
            None,
            None,
            TransportView::empty(),
        )
    }

    /// The event answers what the capture asked for.
    pub open spec fn accepts(self, event: EventView) -> bool {
        match event {
            EventView::Created(_) => self.phase == CapturePhase::Creating,
            EventView::Acknowledged(_) => self.phase == CapturePhase::Announcing,
            EventView::Read(result) => self.phase == CapturePhase::Reading && (
            result matches Ok(bytes) ==> bytes.len() <= self.chunk_size()),
            EventView::Wrote(write) => self.phase == CapturePhase::Writing && (
            write matches ChunkWriteView::Wrote(n) ==> n <= self.unwritten.len()),
            EventView::Offered(_) => self.is_offering(),
            EventView::Elapsed(_) => self.phase == CapturePhase::Measuring,
            EventView::Snapshotted => self.phase == CapturePhase::Snapshotting,
            EventView::Flushed(_) => self.phase == CapturePhase::Flushing,
        }
    }

    /// The bytes that an event persisted.
    pub open spec fn persisted_by(self, event: EventView) -> Seq<u8> {
        match event {
            EventView::Wrote(ChunkWriteView::Wrote(n)) => self.unwritten.take(n as int),
            _ => Seq::empty(),
        }
    }

    /// The event ends the stream behind a record left without a final newline.
    pub open spec fn trails(self, event: EventView) -> bool {
        event matches EventView::Read(Ok(bytes)) && bytes.len() == 0 && self.line.any
    }

    /// The persisted bytes that are there to parse once an event is taken in.
    pub open spec fn parses(self, event: EventView) -> Seq<u8> {
        if event is Wrote {
            self.persisted_by(event)
        } else if event is Offered {
            self.unparsed
        } else {
            Seq::empty()
        }
    }

    pub open spec fn at(self, phase: CapturePhase) -> Self {
        CaptureView { phase, ..self }
    }

    pub open spec fn goes_on(self, phase: CapturePhase, action: CaptureActionView) -> CaptureStep {
        CaptureStep { capture: self.at(phase), action }
    }

    pub open spec fn reads(self) -> CaptureStep {
        self.goes_on(CapturePhase::Reading, CaptureActionView::Read(self.chunk_size()))
    }

    pub open spec fn fails(self, message: Seq<char>) -> CaptureStep {
        self.goes_on(
            CapturePhase::Finished,
            CaptureActionView::Finish(Err(ErrorView::primary(message))),
        )
    }

    /// The record in the line has ended: count it, count its preview as lost, and hand the
    /// preview out.
    pub open spec fn offers(self, phase: CapturePhase) -> CaptureStep {
        CaptureView {
            line: self.line.reset(),
            counters: self.counters.plus(0, 1, 1),
            ..self
        }.goes_on(phase, CaptureActionView::Offer(self.line.rendered()))
    }

    /// Parse the persisted bytes up to the end of the first record and offer it; where no
    /// record ends in them, take them all into the line and go on.
    pub open spec fn parse_on(self) -> CaptureStep {
        let end = first_end(self.unparsed) as int;
        let line = line_after(self.line, self.unparsed.take(end));
        if end < self.unparsed.len() {
            CaptureView { line, unparsed: self.unparsed.skip(end + 1), ..self }.offers(
                CapturePhase::Offering,
            )
        } else {
            let after = CaptureView { line, unparsed: Seq::empty(), ..self };
            if self.unwritten.len() > 0 {
                after.goes_on(CapturePhase::Writing, CaptureActionView::Write)
            } else {
                after.goes_on(CapturePhase::Measuring, CaptureActionView::Measure)
            }
        }
    }

    /// The first bytes left to write are persisted: they are counted, all of them, before
    /// anything is parsed or offered.
    pub open spec fn persist(self, n: int) -> Self {
        CaptureView {
            counters: self.counters.plus(n, 0, 0),
            unparsed: self.unwritten.take(n),
            unwritten: self.unwritten.skip(n),
            ..self
        }
    }

    /// The sink answered: only a confirmed delivery undoes the loss.
    pub open spec fn answered(self, delivered: bool) -> Self {
        CaptureView { counters: self.counters.plus(0, 0, undone(delivered)), ..self }
    }

    /// One write of the chunk returned.
    pub open spec fn chunk_step(self, write: ChunkWriteView) -> CaptureStep {
        match write {
            ChunkWriteView::Wrote(n) => if n == 0 {
                self.fails(located("write transcript at "@, self.path, "wrote zero bytes"@))
            } else {
                self.persist(n as int).parse_on()
            },
            ChunkWriteView::Interrupted => self.goes_on(
                CapturePhase::Writing,
                CaptureActionView::Write,
            ),
            ChunkWriteView::Failed(error) => self.fails(
                located("write transcript at "@, self.path, error),
            ),
        }
    }

    /// The capture after an event, and what it asks for.
    pub open spec fn step(self, event: EventView, now_ms: u64) -> CaptureStep {
        match event {
            EventView::Created(Ok(())) => if self.observed {
                self.goes_on(
                    CapturePhase::Announcing,
                    CaptureActionView::SubmitRequired(self.running(now_ms)),
                )
            } else {
                self.reads()
            },
            EventView::Created(Err(error)) => self.fails(
                located("create transcript at "@, self.path, error),
            ),
            EventView::Acknowledged(Ok(())) => self.reads(),
            EventView::Acknowledged(Err(error)) => self.goes_on(
                CapturePhase::Finished,
                CaptureActionView::Finish(Err(error)),
            ),
            EventView::Read(Ok(bytes)) => if bytes.len() == 0 {
                // A record left without a final newline is still a record.
                if self.line.any {
                    self.offers(CapturePhase::OfferingLast)
                } else {
                    self.goes_on(CapturePhase::Flushing, CaptureActionView::Flush)
                }
            } else {
                CaptureView { unwritten: bytes, ..self }.goes_on(
                    CapturePhase::Writing,
                    CaptureActionView::Write,
                )
            },
            EventView::Read(Err(error)) => self.fails("read coder stdout: "@ + error),
            EventView::Wrote(write) => self.chunk_step(write),
            EventView::Offered(delivered) => if self.phase == CapturePhase::OfferingLast {
                self.answered(delivered).goes_on(CapturePhase::Flushing, CaptureActionView::Flush)
            } else {
                self.answered(delivered).parse_on()
            },
            EventView::Elapsed(nanos) => if nanos >= self.config.status_flush_interval.nanos {
                self.goes_on(
                    CapturePhase::Snapshotting,
                    CaptureActionView::Snapshot(
                        if self.observed {
                            Some(self.running(now_ms))
                        } else {
                            None
                        },
                    ),
                )
            } else {
                self.reads()
            },
            EventView::Snapshotted => self.reads(),
            EventView::Flushed(Ok(())) => self.goes_on(
                CapturePhase::Finished,
                CaptureActionView::Finish(Ok(())),
            ),
            EventView::Flushed(Err(error)) => self.fails(
                located("flush transcript at "@, self.path, error),
            ),
        }
    }
}

impl Capture {
    /// The representation is valid: no more of the chunk is parsed than is written, and no
    /// more is written than there is.
    pub open spec fn wf(&self) -> bool {
        &&& self@.wf()
        &&& self.fits_chunk()
    }

    pub open spec fn fits_chunk(&self) -> bool {
        self.parsed <= self.written <= self.chunk@.len()
    }

    pub fn new(
        path: &str,
        config: TranscriptPumpConfig,
        started_at_ms: u64,
        observed: bool,
    ) -> (capture: Self)
        ensures
            capture@ == CaptureView::initial(path@, config, started_at_ms, observed),
            capture.wf(),
    {
        let capture = Capture {
            path: path.to_string(),
            config,
            started_at_ms,
            observed,
            line: PreviewLine::new(config.console_preview_limit),
            counters: SharedCounters::default(),
            chunk: Vec::new(),
            written: 0,
            parsed: 0,
            phase: CapturePhase::Creating,
        };
        assert(capture@.unwritten =~= Seq::empty());
        assert(capture@.unparsed =~= Seq::empty());
        capture
    }

    /// What the capture asks for first.
    pub fn first_action(&self) -> (action: CaptureAction)
        ensures
            action is Create,
    {
        CaptureAction::Create
    }

    /// The bytes of the chunk that are not persisted yet.
    pub fn unwritten(&self) -> (bytes: &[u8])
        requires
            self.wf(),
        ensures
            bytes@ == self@.unwritten,
    {
        let bytes = slice_subrange(self.chunk.as_slice(), self.written, self.chunk.len());
        assert(bytes@ =~= self@.unwritten);
        bytes
    }

    fn chunk_size(&self) -> (size: usize)
        ensures
            size == self@.chunk_size(),
    {
        if self.config.read_chunk_size == 0 {
            1
        } else {
            self.config.read_chunk_size
        }
    }

    fn running(&self, now_ms: u64) -> (status: PumpStatus)
        ensures
            status@ == self@.running(now_ms),
    {
        running_status(self.started_at_ms, now_ms, &self.counters.snapshot())
    }

    fn read_on(&mut self) -> (action: CaptureAction)
        ensures
            old(self)@.reads() == (CaptureStep { capture: final(self)@, action: action@ }),
            old(self).fits_chunk() ==> final(self).fits_chunk(),
    {
        self.phase = CapturePhase::Reading;
        CaptureAction::Read(self.chunk_size())
    }

    fn fail(&mut self, message: &str) -> (action: CaptureAction)
        ensures
            old(self)@.fails(message@) == (CaptureStep { capture: final(self)@, action: action@ }),
            old(self).fits_chunk() ==> final(self).fits_chunk(),
    {
        self.phase = CapturePhase::Finished;
        CaptureAction::Finish(Err(TranscriptPumpError::new(message)))
    }

    /// The record in the line has ended: count it and hand its preview out.
    fn offer(&mut self, phase: CapturePhase) -> (action: CaptureAction)
        ensures
            old(self)@.offers(phase) == (CaptureStep { capture: final(self)@, action: action@ }),
            old(self).fits_chunk() ==> final(self).fits_chunk(),
    {
        let ghost before = self.counters;
        self.counters.add_record();
        let rendered = deliver_preview(&mut self.line, &mut self.counters);
        proof {
            lemma_plus_compose(before, 0, 1, 0, 0, 0, 1);
        }
        self.phase = phase;
        CaptureAction::Offer(rendered)
    }

    /// Parse persisted bytes up to the end of the first record and offer it; where no record
    /// ends in them, go on to the next write or, behind the chunk, to the flush interval.
    fn parse_on(&mut self) -> (action: CaptureAction)
        requires
            old(self).fits_chunk(),
        ensures
            old(self)@.parse_on() == (CaptureStep { capture: final(self)@, action: action@ }),
            final(self).fits_chunk(),
    {
        let ghost before = self@;
        let unparsed = slice_subrange(self.chunk.as_slice(), self.parsed, self.written);
        assert(unparsed@ =~= before.unparsed);
        let count: usize = unparsed.len();
        let end: usize = take_record(unparsed, &mut self.line);
        if end < count {
            self.parsed = self.parsed + end + 1;
            assert(self@.unparsed =~= before.unparsed.skip(end + 1));
            self.offer(CapturePhase::Offering)
        } else {
            self.parsed = self.written;
            assert(self@.unparsed =~= Seq::empty());
            if self.written < self.chunk.len() {
                self.phase = CapturePhase::Writing;
                CaptureAction::Write
            } else {
                self.phase = CapturePhase::Measuring;
                CaptureAction::Measure
            }
        }
    }

    /// Take in the result of one write of the chunk: the persisted prefix is counted before
    /// the next fallible write, and only its bytes are parsed.
    pub fn persist_chunk(&mut self, write: ChunkWrite) -> (action: CaptureAction)
        requires
            old(self).wf(),
            old(self)@.accepts(EventView::Wrote(write@)),
        ensures
            old(self)@.chunk_step(write@) == (CaptureStep {
                capture: final(self)@,
                action: action@,
            }),
            final(self).wf(),
    {
        let ghost before = self@;
        match write {
            ChunkWrite::Wrote(n) => {
                if n == 0 {
                    let message = locate(
                        "write transcript at ",
                        self.path.as_str(),
                        "wrote zero bytes",
                    );
                    return self.fail(message.as_str());
                }
                assert(self.written + n <= self.chunk.len());
                self.counters.add_bytes(n as u64);
                self.parsed = self.written;
                self.written = self.written + n;
                proof {
                    assert(self@.unparsed =~= before.unwritten.take(n as int));
                    assert(self@.unwritten =~= before.unwritten.skip(n as int));
                    lemma_first_end_is_first(self@.unparsed);
                }
                self.parse_on()
            },
            ChunkWrite::Interrupted => CaptureAction::Write,
            ChunkWrite::Failed(error) => {
                let message = locate("write transcript at ", self.path.as_str(), error.as_str());
                self.fail(message.as_str())
            },
        }
    }

    /// Take in the sink's answer to the preview that was handed out, and go on with the bytes
    /// behind its record.
    fn take_answer(&mut self, delivered: bool) -> (action: CaptureAction)
        requires
            old(self).wf(),
            old(self)@.is_offering(),
        ensures
            old(self)@.step(EventView::Offered(delivered), 0) == (CaptureStep {
                capture: final(self)@,
                action: action@,
            }),
            final(self).wf(),
    {
        confirm_preview(&mut self.counters, delivered);
        match self.phase {
            CapturePhase::OfferingLast => {
                self.phase = CapturePhase::Flushing;
                CaptureAction::Flush
            },
            _ => {
                proof {
                    lemma_first_end_is_first(self@.unparsed);
                }
                self.parse_on()
            },
        }
    }

    /// Take in what happened and decide what is next.
    pub fn advance(&mut self, event: CaptureEvent, now_ms: u64) -> (action: CaptureAction)
        requires
            old(self).wf(),
            old(self)@.accepts(event@),
        ensures
            old(self)@.step(event@, now_ms) == (CaptureStep {
                capture: final(self)@,
                action: action@,
            }),
            final(self).wf(),
    {
        match event {
            CaptureEvent::Created(result) => match result {
                Ok(()) => {
                    if self.observed {
                        self.phase = CapturePhase::Announcing;
                        CaptureAction::SubmitRequired(self.running(now_ms))
                    } else {
                        self.read_on()
                    }
                },
                Err(error) => {
                    let message = locate(
                        "create transcript at ",
                        self.path.as_str(),
                        error.as_str(),
                    );
                    self.fail(message.as_str())
                },
            },
            CaptureEvent::Acknowledged(outcome) => match outcome {
                Ok(()) => self.read_on(),
                Err(error) => {
                    self.phase = CapturePhase::Finished;
                    CaptureAction::Finish(Err(error))
                },
            },
            CaptureEvent::Read(result) => match result {
                Ok(bytes) => {
                    if bytes.len() == 0 {
                        // A record left without a final newline is still a record.
                        if self.line.has_bytes() {
                            self.offer(CapturePhase::OfferingLast)
                        } else {
                            self.phase = CapturePhase::Flushing;
                            CaptureAction::Flush
                        }
                    } else {
                        let ghost before = self@;
                        self.chunk = bytes;
                        self.written = 0;
                        self.parsed = 0;
                        self.phase = CapturePhase::Writing;
                        assert(self@.unwritten =~= bytes@);
                        assert(self@.unparsed =~= before.unparsed);
                        CaptureAction::Write
                    }
                },
                Err(error) => {
                    let message = join_text("read coder stdout: ", error.as_str());
                    self.fail(message.as_str())
                },
            },
            CaptureEvent::Wrote(write) => self.persist_chunk(write),
            CaptureEvent::Offered(delivered) => self.take_answer(delivered),
            CaptureEvent::Elapsed(nanos) => {
                if nanos >= self.config.status_flush_interval.nanos {
                    self.phase = CapturePhase::Snapshotting;
                    if self.observed {
                        CaptureAction::Snapshot(Some(self.running(now_ms)))
                    } else {
                        CaptureAction::Snapshot(None)
                    }
                } else {
                    self.read_on()
                }
            },
            CaptureEvent::Snapshotted => self.read_on(),
            CaptureEvent::Flushed(result) => match result {
                Ok(()) => {
                    self.phase = CapturePhase::Finished;
                    CaptureAction::Finish(Ok(()))
                },
                Err(error) => {
                    let message = locate(
                        "flush transcript at ",
                        self.path.as_str(),
                        error.as_str(),
                    );
                    self.fail(message.as_str())
                },
            },
        }
    }
}

} // verus!
