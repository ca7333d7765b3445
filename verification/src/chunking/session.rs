//! The worker that transcribes the segments of a recording while it goes on.
//!
//! The worker decides what is to be done next; its driver reads the recording, classifies windows
//! and runs the transcriptions. It starts a [`PauseChunkingSession`], reports to it what happened, and
//! does what the returned [`WorkerAction`] says.

use super::segmenter::{
    all_windows, complete_windows, finished, initial, law_polling_does_not_matter, positions, ready_run,
    sample_limit, valid, PauseSegmenter, PauseSegmenterSettings, Segment, SegmentState,
};
use super::stitch::{stitch_strings, stitched};
use crate::config::ChunkingConfig;
use crate::text::{decimal, decimal_string, views};
use crate::vad::VadSettings;
use crate::whisper::provider::AudioFileRetention;
use vstd::prelude::*;

verus! {

/// How long a session waits before it looks for new samples, in milliseconds.
pub const POLL_INTERVAL_MS: u64 = 100;

/// What becomes of the audio file of a chunk, where the provider needs one.
pub const CHUNK_RETENTION: AudioFileRetention = AudioFileRetention::Delete;

/// Why a session gave no text.
#[derive(Debug, PartialEq, Eq)]
pub enum ChunkError {
    /// A chunk gave no text.
    EmptyChunk { index: usize },
    /// The transcription of a chunk failed, with its message.
    Failed { message: String },
    /// The session was cancelled.
    Cancelled,
    /// All chunks together gave no text.
    NoText,
}

impl ChunkError {
    pub open spec fn text(self) -> Seq<char> {
        match self {
            ChunkError::EmptyChunk { index } => "pause chunk "@ + decimal(index as nat)
                + " produced no text"@,
            ChunkError::Failed { message } => message@,
            ChunkError::Cancelled => "pause chunking worker was cancelled"@,
            ChunkError::NoText => "pause chunking produced no text"@,
        }
    }

    pub fn message(&self) -> (r: String)
        ensures
            r@ == self.text(),
    {
        match self {
            ChunkError::EmptyChunk { index } => {
                let mut out = "pause chunk ".to_owned();
                out.append(decimal_string(*index as u64).as_str());
                out.append(" produced no text");
                out
            },
            ChunkError::Failed { message } => message.clone(),
            ChunkError::Cancelled => "pause chunking worker was cancelled".to_owned(),
            ChunkError::NoText => "pause chunking produced no text".to_owned(),
        }
    }
}

/// Why a session gave no text, by view.
pub enum ChunkFailure {
    EmptyChunk { index: int },
    Failed { message: Seq<char> },
    Cancelled,
    NoText,
}

impl View for ChunkError {
    type V = ChunkFailure;

    open spec fn view(&self) -> ChunkFailure {
        match *self {
            ChunkError::EmptyChunk { index } => ChunkFailure::EmptyChunk { index: index as int },
            ChunkError::Failed { message } => ChunkFailure::Failed { message: message@ },
            ChunkError::Cancelled => ChunkFailure::Cancelled,
            ChunkError::NoText => ChunkFailure::NoText,
        }
    }
}

/// How far a session has come.
#[derive(Clone, Copy, Debug, PartialEq, Eq, Structural)]
pub enum WorkerStage {
    /// The recording goes on.
    Live,
    /// The recording ended with `samples` samples; the segments that a pause ended are next.
    Ending { samples: usize, speech_end: usize },
    /// The rest of the recording is next.
    Tail,
    /// There is nothing left to do.
    Done,
}

/// What is to be done next.
#[derive(Debug, PartialEq, Eq)]
pub enum WorkerAction {
    /// Wait for more samples, for the end of the recording or for a cancellation.
    Wait,
    /// Transcribe a segment of the recording, the one with this index.
    Transcribe { segment: Segment, index: usize },
    /// Classify the windows that are left of the recording.
    ScanTail,
    /// The session is over; this is its text.
    Finished { text: String },
    /// The session is over without a text.
    Failed { error: ChunkError },
    /// The session was cancelled.
    Cancelled,
}

/// A worker's state by view.
pub struct WorkerState {
    pub seg: SegmentState,
    pub pending: Seq<(int, int)>,
    pub transcripts: Seq<Seq<char>>,
    pub stage: WorkerStage,
}

/// What is to be done next, by view.
pub enum Next {
    Wait,
    Transcribe { segment: (int, int), index: int },
    ScanTail,
    Finished { text: Seq<char> },
    Failed { error: ChunkFailure },
    Cancelled,
}

impl View for WorkerAction {
    type V = Next;

    open spec fn view(&self) -> Next {
        match *self {
            WorkerAction::Wait => Next::Wait,
            WorkerAction::Transcribe { segment, index } => Next::Transcribe {
                segment: (segment.start as int, segment.end as int),
                index: index as int,
            },
            WorkerAction::ScanTail => Next::ScanTail,
            WorkerAction::Finished { text } => Next::Finished { text: text@ },
            WorkerAction::Failed { error } => Next::Failed { error: error@ },
            WorkerAction::Cancelled => Next::Cancelled,
        }
    }
}

/// What a worker does next: the first segment that waits, else what its stage asks for.
pub open spec fn next(w: WorkerState) -> Next {
    if w.pending.len() > 0 {
        Next::Transcribe { segment: w.pending[0], index: w.transcripts.len() as int }
    } else {
        match w.stage {
            WorkerStage::Live => Next::Wait,
            WorkerStage::Ending { .. } => Next::ScanTail,
            WorkerStage::Tail => Next::Finished { text: stitched(w.transcripts) },
            WorkerStage::Done => Next::Cancelled,
        }
    }
}

/// The worker after a scan of windows that are complete.
pub open spec fn scanned_ready(w: WorkerState, speech: Seq<bool>, stage: WorkerStage) -> WorkerState {
    let (seg, cuts) = ready_run(w.seg, speech);
    WorkerState { seg, pending: cuts, stage, ..w }
}

/// The worker after the scan of what was left of the recording.
pub open spec fn scanned_tail(w: WorkerState, speech: Seq<bool>) -> WorkerState {
    match w.stage {
        WorkerStage::Ending { samples, speech_end } => {
            let (seg, tail) = finished(w.seg, speech, samples as int, speech_end as int);
            WorkerState {
                seg,
                pending: match tail {
                    Some(tail) => seq![tail],
                    None => Seq::empty(),
                },
                stage: WorkerStage::Tail,
                ..w
            }
        },
        _ => w,
    }
}

/// The worker after the first segment that waits gave a text.
pub open spec fn transcribed(w: WorkerState, text: Seq<char>) -> WorkerState {
    WorkerState { pending: w.pending.drop_first(), transcripts: w.transcripts.push(text), ..w }
}

/// The worker after its session ended without a text.
pub open spec fn stopped(w: WorkerState) -> WorkerState {
    WorkerState { pending: Seq::empty(), stage: WorkerStage::Done, ..w }
}

/// Transcribes the segments of a recording in order.
pub struct PauseChunkingSession {
    segmenter: PauseSegmenter,
    pending: Vec<Segment>,
    transcripts: Vec<String>,
    stage: WorkerStage,
}

impl View for PauseChunkingSession {
    type V = WorkerState;

    closed spec fn view(&self) -> WorkerState {
        WorkerState {
            seg: self.segmenter@,
            pending: positions(self.pending@),
            transcripts: views(self.transcripts@),
            stage: self.stage,
        }
    }
}

impl PauseChunkingSession {
    pub open spec fn wf(&self) -> bool {
        valid(self@.seg) && (self@.stage matches WorkerStage::Ending { samples, .. } ==> samples
            <= sample_limit())
    }

    /// A session for a recording that has not begun.
    pub fn start(config: &ChunkingConfig, vad: &VadSettings, sample_rate: u32) -> (r: Self)
        ensures
            r@ == (WorkerState {
                seg: initial(settings_for(*config, *vad, sample_rate)),
                pending: Seq::empty(),
                transcripts: Seq::empty(),
                stage: WorkerStage::Live,
            }),
            r.wf(),
    {
        PauseChunkingSession::with_segmenter(
            PauseSegmenter::new(segmenter_settings(config, vad, sample_rate)),
        )
    }

    /// A session that cuts a recording with this segmenter.
    pub fn with_segmenter(segmenter: PauseSegmenter) -> (r: Self)
        requires
            segmenter.wf(),
        ensures
            r@ == (WorkerState {
                seg: segmenter@,
                pending: Seq::empty(),
                transcripts: Seq::empty(),
                stage: WorkerStage::Live,
            }),
            r.wf(),
    {
        let r = PauseChunkingSession {
            segmenter,
            pending: Vec::new(),
            transcripts: Vec::new(),
            stage: WorkerStage::Live,
        };
        assert(r@.pending =~= Seq::empty());
        assert(r@.transcripts =~= Seq::empty());
        r
    }

    pub fn stage(&self) -> (r: WorkerStage)
        ensures
            r == self@.stage,
    {
        self.stage
    }

    /// The texts of the chunks so far.
    pub fn transcripts(&self) -> (r: &Vec<String>)
        ensures
            views(r@) == self@.transcripts,
    {
        &self.transcripts
    }

    /// The complete windows that were not scanned yet, to be classified.
    pub fn ready_windows(&self, sample_count: usize) -> (r: Vec<Segment>)
        requires
            self.wf(),
            sample_count <= sample_limit(),
        ensures
            positions(r@) == complete_windows(
                self@.seg.scan,
                self@.seg.window,
                self@.seg.hop,
                sample_count as int,
            ),
    {
        self.segmenter.ready_windows(sample_count)
    }

    /// The windows that were not scanned yet, to be classified when the recording has ended.
    pub fn tail_windows(&self, sample_count: usize) -> (r: Vec<Segment>)
        requires
            self.wf(),
            sample_count <= sample_limit(),
        ensures
            positions(r@) == all_windows(
                self@.seg.scan,
                self@.seg.window,
                self@.seg.hop,
                sample_count as int,
            ),
    {
        self.segmenter.tail_windows(sample_count)
    }

    /// What the worker does next.
    pub fn next_action(&self) -> (r: WorkerAction)
        ensures
            r@ == next(self@),
    {
        if self.pending.len() > 0 {
            assert(self@.pending[0] == (
                self.pending@[0].start as int,
                self.pending@[0].end as int,
            ));
            return WorkerAction::Transcribe {
                segment: self.pending[0],
                index: self.transcripts.len(),
            };
        }
        match self.stage {
            WorkerStage::Live => WorkerAction::Wait,
            WorkerStage::Ending { .. } => WorkerAction::ScanTail,
            WorkerStage::Tail => WorkerAction::Finished { text: stitch_strings(&self.transcripts) },
            WorkerStage::Done => WorkerAction::Cancelled,
        }
    }

    /// The recording has grown to `sample_count` samples.
    pub fn on_samples(&mut self, sample_count: usize, speech: &Vec<bool>) -> (r: WorkerAction)
        requires
            old(self).wf(),
            old(self)@.stage == WorkerStage::Live,
            old(self)@.pending.len() == 0,
            sample_count <= sample_limit(),
            speech@.len() == complete_windows(
                old(self)@.seg.scan,
                old(self)@.seg.window,
                old(self)@.seg.hop,
                sample_count as int,
            ).len(),
        ensures
            final(self)@ == scanned_ready(old(self)@, speech@, WorkerStage::Live),
            r@ == next(final(self)@),
            final(self).wf(),
    {
        self.pending = self.segmenter.ready_segments(sample_count, speech);
        self.next_action()
    }

    /// The recording has ended with `sample_count` samples, and the speech in it is known to go on
    /// up to `speech_end`.
    pub fn finish(
        &mut self,
        sample_count: usize,
        speech: &Vec<bool>,
        speech_end: usize,
    ) -> (r: WorkerAction)
        requires
            old(self).wf(),
            old(self)@.stage == WorkerStage::Live,
            old(self)@.pending.len() == 0,
            sample_count <= sample_limit(),
            speech@.len() == complete_windows(
                old(self)@.seg.scan,
                old(self)@.seg.window,
                old(self)@.seg.hop,
                sample_count as int,
            ).len(),
        ensures
            final(self)@ == scanned_ready(
                old(self)@,
                speech@,
                WorkerStage::Ending { samples: sample_count, speech_end },
            ),
            r@ == next(final(self)@),
            final(self).wf(),
    {
        self.pending = self.segmenter.ready_segments(sample_count, speech);
        self.stage = WorkerStage::Ending { samples: sample_count, speech_end };
        self.next_action()
    }

    /// The windows that were left of the recording are classified.
    pub fn on_tail(&mut self, speech: &Vec<bool>) -> (r: WorkerAction)
        requires
            old(self).wf(),
            old(self)@.pending.len() == 0,
            old(self)@.stage matches WorkerStage::Ending { samples, .. } && speech@.len()
                == all_windows(
                old(self)@.seg.scan,
                old(self)@.seg.window,
                old(self)@.seg.hop,
                samples as int,
            ).len(),
        ensures
            final(self)@ == scanned_tail(old(self)@, speech@),
            r@ == next(final(self)@),
            final(self).wf(),
    {
        if let WorkerStage::Ending { samples, speech_end } = self.stage {
            let mut pending: Vec<Segment> = Vec::new();
            if let Some(tail) = self.segmenter.finish_with_speech_end(samples, speech, speech_end) {
                pending.push(tail);
                assert(positions(pending@) =~= seq![(tail.start as int, tail.end as int)]);
            } else {
                assert(positions(pending@) =~= Seq::empty());
            }
            self.pending = pending;
            self.stage = WorkerStage::Tail;
        }
        self.next_action()
    }

    /// The segment that the worker asked for was transcribed, or failed with a message. A chunk
    /// that fails or has no text ends the session: part of a transcript is never passed off as the
    /// whole.
    pub fn on_chunk(&mut self, result: Result<String, String>) -> (r: WorkerAction)
        requires
            old(self).wf(),
            old(self)@.pending.len() > 0,
        ensures
            match result {
                Ok(text) if text@.len() > 0 => {
                    &&& final(self)@ == transcribed(old(self)@, text@)
                    &&& r@ == next(final(self)@)
                },
                Ok(_) => {
                    &&& final(self)@ == stopped(old(self)@)
                    &&& r matches WorkerAction::Failed { error } && error
                        matches ChunkError::EmptyChunk { index } && index
                        == old(self)@.transcripts.len()
                },
                Err(message) => {
                    &&& final(self)@ == stopped(old(self)@)
                    &&& r matches WorkerAction::Failed { error } && error == (ChunkError::Failed {
                        message,
                    })
                },
            },
            final(self).wf(),
    {
        let ghost before = self@;
        match result {
            Err(message) => {
                self.pending = Vec::new();
                self.stage = WorkerStage::Done;
                assert(self@.pending =~= Seq::empty());
                WorkerAction::Failed { error: ChunkError::Failed { message } }
            },
            Ok(text) => {
                if text.as_str().is_empty() {
                    let index: usize = self.transcripts.len();
                    self.pending = Vec::new();
                    self.stage = WorkerStage::Done;
                    assert(self@.pending =~= Seq::empty());
                    WorkerAction::Failed { error: ChunkError::EmptyChunk { index } }
                } else {
                    self.transcripts.push(text);
                    self.pending.remove(0);
                    assert(self@.transcripts == before.transcripts.push(text@));
                    assert(self@.pending == before.pending.drop_first());
                    self.next_action()
                }
            },
        }
    }

    /// The session is cancelled.
    pub fn cancel(&mut self) -> (r: WorkerAction)
        requires
            old(self).wf(),
        ensures
            final(self)@ == stopped(old(self)@),
            r is Cancelled,
            final(self).wf(),
    {
        self.pending = Vec::new();
        self.stage = WorkerStage::Done;
        assert(self@.pending =~= Seq::empty());
        WorkerAction::Cancelled
    }
}

/// How a recording is cut: the overlap is never longer than the pause, so that the next
/// segment repeats no more than that.
pub open spec fn settings_for(
    config: ChunkingConfig,
    vad: VadSettings,
    sample_rate: u32,
) -> PauseSegmenterSettings {
    PauseSegmenterSettings {
        sample_rate,
        min_speech_ms: vad.min_speech_ms,
        pause_ms: config.pause_ms,
        min_chunk_ms: config.min_chunk_ms,
        overlap_ms: if config.overlap_ms <= config.pause_ms {
            config.overlap_ms
        } else {
            config.pause_ms
        },
    }
}

/// How a recording is cut: the overlap is never longer than the pause, so that the next
/// segment repeats no more than that.
pub fn segmenter_settings(
    config: &ChunkingConfig,
    vad: &VadSettings,
    sample_rate: u32,
) -> (r: PauseSegmenterSettings)
    ensures
        r == settings_for(*config, *vad, sample_rate),
{
    PauseSegmenterSettings {
        sample_rate,
        min_speech_ms: vad.min_speech_ms,
        pause_ms: config.pause_ms,
        min_chunk_ms: config.min_chunk_ms,
        overlap_ms: if config.overlap_ms <= config.pause_ms {
            config.overlap_ms
        } else {
            config.pause_ms
        },
    }
}

/// The text of a session: the one that its worker ended with, unless there is none or it is empty.
pub fn session_text(outcome: Result<Option<String>, ChunkError>) -> (r: Result<String, ChunkError>)
    ensures
        match outcome {
            Err(error) => r == Err::<String, ChunkError>(error),
            Ok(None) => r == Err::<String, ChunkError>(ChunkError::Cancelled),
            Ok(Some(text)) => if text@.len() == 0 {
                r == Err::<String, ChunkError>(ChunkError::NoText)
            } else {
                r == Ok::<String, ChunkError>(text)
            },
        },
{
    match outcome {
        Err(error) => Err(error),
        Ok(None) => Err(ChunkError::Cancelled),
        Ok(Some(text)) => {
            if text.as_str().is_empty() {
                Err(ChunkError::NoText)
            } else {
                Ok(text)
            }
        },
    }
}

/// The worker after every segment that waits was transcribed, where `text` gives the text of a
/// segment by its place in the recording and its index.
pub open spec fn drained(
    w: WorkerState,
    text: spec_fn((int, int), int) -> Seq<char>,
) -> WorkerState
    decreases w.pending.len(),
{
    if w.pending.len() == 0 {
        w
    } else {
        drained(transcribed(w, text(w.pending[0], w.transcripts.len() as int)), text)
    }
}

/// The texts of segments in order, the first with the index `from`.
pub open spec fn texts_of(
    segments: Seq<(int, int)>,
    from: int,
    text: spec_fn((int, int), int) -> Seq<char>,
) -> Seq<Seq<char>> {
    Seq::new(segments.len(), |i: int| text(segments[i], from + i))
}

/// Law: the segments that wait are transcribed in order, each once, and numbered without a gap.
pub proof fn law_segments_are_transcribed_in_order(
    w: WorkerState,
    text: spec_fn((int, int), int) -> Seq<char>,
)
    ensures
        drained(w, text) == (WorkerState {
            pending: Seq::empty(),
            transcripts: w.transcripts + texts_of(w.pending, w.transcripts.len() as int, text),
            ..w
        }),
    decreases w.pending.len(),
{
    let from = w.transcripts.len() as int;
    if w.pending.len() == 0 {
        assert(w.pending =~= Seq::empty());
        assert(w.transcripts + texts_of(w.pending, from, text) == w.transcripts);
    } else {
        let first = text(w.pending[0], from);
        let done = transcribed(w, first);
        law_segments_are_transcribed_in_order(done, text);
        assert(w.transcripts + texts_of(w.pending, from, text) == done.transcripts + texts_of(
            done.pending,
            from + 1,
            text,
        ));
    }
}

/// Law: how often a running recording is polled does not matter. Scanning and transcribing in two
/// rounds gives the worker, and so the text, of one round over all of it.
pub proof fn law_polling_gives_the_same_text(
    w: WorkerState,
    early: Seq<bool>,
    late: Seq<bool>,
    text: spec_fn((int, int), int) -> Seq<char>,
)
    requires
        w.stage == WorkerStage::Live,
    ensures
        drained(
            scanned_ready(
                drained(scanned_ready(w, early, WorkerStage::Live), text),
                late,
                WorkerStage::Live,
            ),
            text,
        ) == drained(scanned_ready(w, early + late, WorkerStage::Live), text),
{
    let n = w.transcripts.len() as int;
    let one = scanned_ready(w, early, WorkerStage::Live);
    law_segments_are_transcribed_in_order(one, text);
    let two = scanned_ready(drained(one, text), late, WorkerStage::Live);
    law_segments_are_transcribed_in_order(two, text);
    let all = scanned_ready(w, early + late, WorkerStage::Live);
    law_segments_are_transcribed_in_order(all, text);
    law_polling_does_not_matter(w.seg, early, late);
    assert(texts_of(all.pending, n, text) == texts_of(one.pending, n, text) + texts_of(
        two.pending,
        n + one.pending.len(),
        text,
    ));
    assert(w.transcripts + texts_of(all.pending, n, text) == (w.transcripts + texts_of(
        one.pending,
        n,
        text,
    )) + texts_of(two.pending, n + one.pending.len(), text));
}

/// Law: a finished session gives the stitched text of all segments of the recording, those that
/// pauses ended and then the rest.
pub proof fn law_a_session_gives_the_whole_text(
    w: WorkerState,
    ready: Seq<bool>,
    tail: Seq<bool>,
    samples: usize,
    speech_end: usize,
    text: spec_fn((int, int), int) -> Seq<char>,
)
    requires
        w.stage == WorkerStage::Live,
    ensures
        ({
            let (seg, cuts) = ready_run(w.seg, ready);
            let all = cuts + match finished(seg, tail, samples as int, speech_end as int).1 {
                Some(rest) => seq![rest],
                None => Seq::empty(),
            };
            let ended = drained(
                scanned_ready(w, ready, WorkerStage::Ending { samples, speech_end }),
                text,
            );
            next(drained(scanned_tail(ended, tail), text)) == (Next::Finished {
                text: stitched(w.transcripts + texts_of(all, w.transcripts.len() as int, text)),
            })
        }),
{
    let n = w.transcripts.len() as int;
    let one = scanned_ready(w, ready, WorkerStage::Ending { samples, speech_end });
    law_segments_are_transcribed_in_order(one, text);
    let two = scanned_tail(drained(one, text), tail);
    law_segments_are_transcribed_in_order(two, text);
    let all = one.pending + two.pending;
    assert(w.transcripts + texts_of(all, n, text) == (w.transcripts + texts_of(
        one.pending,
        n,
        text,
    )) + texts_of(two.pending, n + one.pending.len(), text));
}

/// Law: a recording is cut as its settings say, and the next segment repeats no more than a pause.
pub proof fn law_the_overlap_is_no_longer_than_the_pause(
    config: ChunkingConfig,
    vad: VadSettings,
    sample_rate: u32,
)
    ensures
        ({
            let s = settings_for(config, vad, sample_rate);
            &&& s.overlap_ms <= s.pause_ms
            &&& config.overlap_ms <= config.pause_ms ==> s.overlap_ms == config.overlap_ms
            &&& config.overlap_ms > config.pause_ms ==> s.overlap_ms == config.pause_ms
            &&& s.pause_ms == config.pause_ms && s.min_chunk_ms == config.min_chunk_ms
            &&& s.min_speech_ms == vad.min_speech_ms && s.sample_rate == sample_rate
        }),
{
}

/// Law: a session that has ended without a text gives none any more, and asks for nothing; neither a
/// scan nor the end of the recording brings one back.
pub proof fn law_a_stopped_session_stays_silent(w: WorkerState, speech: Seq<bool>)
    ensures
        next(stopped(w)) == Next::Cancelled,
        scanned_tail(stopped(w), speech) == stopped(w),
        stopped(w).transcripts == w.transcripts,
{
}

/// Law: what a session does next. As long as a segment waits it is transcribed, the first of them
/// first, under the number of the texts that there are; without one, a session waits while the
/// recording goes on, looks at the rest of it once it has ended, and then gives the stitched text.
pub proof fn law_a_session_goes_on(w: WorkerState, samples: usize, speech_end: usize)
    ensures
        w.pending.len() > 0 ==> next(w) == (Next::Transcribe {
            segment: w.pending[0],
            index: w.transcripts.len() as int,
        }),
        w.pending.len() == 0 && w.stage == WorkerStage::Live ==> next(w) == Next::Wait,
        w.pending.len() == 0 && w.stage == (WorkerStage::Ending { samples, speech_end }) ==> next(w)
            == Next::ScanTail,
        w.pending.len() == 0 && w.stage == WorkerStage::Tail ==> next(w) == (Next::Finished {
            text: stitched(w.transcripts),
        }),
{
}

/// Law: no scan changes the texts that there are, and a scan makes just the segments that the
/// segmenter cut wait.
pub proof fn law_a_scan_keeps_the_texts(
    w: WorkerState,
    speech: Seq<bool>,
    stage: WorkerStage,
    samples: usize,
    speech_end: usize,
)
    ensures
        scanned_ready(w, speech, stage).transcripts == w.transcripts,
        scanned_ready(w, speech, stage).pending == ready_run(w.seg, speech).1,
        scanned_ready(w, speech, stage).seg == ready_run(w.seg, speech).0,
        scanned_ready(w, speech, stage).stage == stage,
        w.stage == (WorkerStage::Ending { samples, speech_end }) ==> {
            let after = scanned_tail(w, speech);
            let rest = finished(w.seg, speech, samples as int, speech_end as int).1;
            &&& after.transcripts == w.transcripts
            &&& after.stage == WorkerStage::Tail
            &&& after.pending.len() == (if rest is Some {
                1int
            } else {
                0
            })
            &&& rest matches Some(segment) ==> after.pending[0] == segment
        },
{
}

/// Law: what is told of a session that gave no text.
pub proof fn law_a_session_without_text_says_why(error: ChunkError)
    ensures
        match error {
            ChunkError::EmptyChunk { index } => error.text() == "pause chunk "@ + decimal(
                index as nat,
            ) + " produced no text"@,
            ChunkError::Failed { message } => error.text() == message@,
            ChunkError::Cancelled => error.text() == "pause chunking worker was cancelled"@,
            ChunkError::NoText => error.text() == "pause chunking produced no text"@,
        },
{
}

} // verus!
