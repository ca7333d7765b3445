//! Voice activity: which part of a recording is kept, and which engine decides that.
//!
//! The library is generic in the type of a sample. Whether a window of samples is loud enough is
//! decided by the caller, who hands in one flag for each window.

use crate::chunking::segmenter::{
    all_windows, at_least, at_most, initial, inspected, run_closed, sample_limit, samples_for_ms,
    samples_in, stretch, tail_run, valid, PauseSegmenterSettings, Segment, SegmentState,
};
use crate::text::{join_path, joined_path};
use vstd::prelude::*;

verus! {

#[derive(Clone, Copy, Debug, PartialEq, Eq, Structural)]
pub enum VadEngine {
    Auto,
    Silero,
    Amplitude,
}

/// How voice activity is looked for. The loudness that counts as speech is not part of it: the
/// caller applies it to each window.
pub struct VadSettings {
    pub enabled: bool,
    pub engine: VadEngine,
    pub min_speech_ms: u32,
    pub pad_ms: u32,
    pub model_path: Option<String>,
}

impl Default for VadSettings {
    fn default() -> (r: Self)
        ensures
            r.enabled,
            r.engine == VadEngine::Auto,
            r.min_speech_ms == 100,
            r.pad_ms == 200,
            r.model_path is None,
    {
        VadSettings {
            enabled: true,
            engine: VadEngine::Auto,
            min_speech_ms: 100,
            pad_ms: 200,
            model_path: None,
        }
    }
}

/// A recording after voice activity detection.
pub struct VadOutput<S> {
    pub samples: Vec<S>,
    /// Where in the recording the samples come from; nothing if there are none.
    pub speech_range: Option<Segment>,
    pub input_samples: usize,
    pub output_samples: usize,
    pub skipped: bool,
    pub engine: &'static str,
}

/// The engine that a processor works with.
#[derive(Clone, Copy, Debug, PartialEq, Eq, Structural)]
pub enum ActiveVadEngine {
    Disabled,
    Amplitude,
    Silero,
}

/// The part of a recording that is kept.
pub open spec fn part<S>(samples: Seq<S>, range: Option<(int, int)>) -> Seq<S> {
    match range {
        Some((from, to)) => samples.subrange(from, to),
        None => Seq::empty(),
    }
}

/// A segment as a pair of positions.
pub open spec fn bounds(s: Option<Segment>) -> Option<(int, int)> {
    match s {
        Some(s) => Some((s.start as int, s.end as int)),
        None => None,
    }
}

/// The state in which the scan of a recording for speech starts.
pub open spec fn scan_start(min_speech_ms: u32, rate: u32) -> SegmentState {
    initial(
        PauseSegmenterSettings {
            sample_rate: rate,
            min_speech_ms,
            pause_ms: 0,
            min_chunk_ms: 0,
            overlap_ms: 0,
        },
    )
}

/// The speech that a scan of the whole recording finds: from the start of the first run of loud
/// windows that lasts long enough to the end of the last one.
pub open spec fn speech_span(
    min_speech_ms: u32,
    rate: u32,
    speech: Seq<bool>,
    len: int,
) -> Option<(int, int)> {
    run_closed(tail_run(scan_start(min_speech_ms, rate), speech, len)).speech
}

/// The part of a recording that the amplitude engine keeps: the speech, padded on both sides.
pub open spec fn amplitude_range(
    settings: VadSettings,
    rate: u32,
    speech: Seq<bool>,
    len: int,
) -> Option<(int, int)> {
    let pad = samples_in(rate as int, settings.pad_ms as int);
    match speech_span(settings.min_speech_ms, rate, speech, len) {
        Some((first, last)) => Some((at_least(first - pad, 0), at_most(last + pad, len))),
        None => None,
    }
}

/// The number of windows that the scan of a recording looks at.
pub open spec fn window_count(rate: u32, len: int) -> nat {
    let m = scan_start(0, rate);
    all_windows(0, m.window, m.hop, len).len()
}

/// The earliest start among the segments, or `start`.
pub open spec fn earliest(segments: Seq<Segment>, start: int) -> int
    decreases segments.len(),
{
    if segments.len() == 0 {
        start
    } else {
        at_most(earliest(segments.drop_last(), start), segments.last().start as int)
    }
}

/// The latest end among the segments, or `end`.
pub open spec fn latest(segments: Seq<Segment>, end: int) -> int
    decreases segments.len(),
{
    if segments.len() == 0 {
        end
    } else {
        at_least(latest(segments.drop_last(), end), segments.last().end as int)
    }
}

/// The part of a recording that lies between two positions, if there is any.
pub open spec fn clipped(start: int, end: int, len: int) -> Option<(int, int)> {
    if start >= end || start >= len {
        None
    } else {
        Some((start, at_most(end, len)))
    }
}

/// The part of a recording that the Silero engine keeps: all of its segments and what is between
/// them.
pub open spec fn silero_range(segments: Seq<Segment>, len: int) -> Option<(int, int)> {
    clipped(earliest(segments, len), latest(segments, 0), len)
}

/// The part of a recording that an engine keeps. `silero` holds the segments that the Silero model
/// found, or nothing where it failed, and then the amplitude decides.
pub open spec fn kept_range(
    engine: ActiveVadEngine,
    settings: VadSettings,
    rate: u32,
    silero: Option<Seq<Segment>>,
    speech: Seq<bool>,
    len: int,
) -> Option<(int, int)> {
    match (engine, silero) {
        (ActiveVadEngine::Disabled, _) => Some((0, len)),
        (ActiveVadEngine::Silero, Some(segments)) => silero_range(segments, len),
        _ => amplitude_range(settings, rate, speech, len),
    }
}

/// The windows of a recording decide what is kept of it.
pub open spec fn amplitude_decides(engine: ActiveVadEngine, silero: Option<Seq<Segment>>) -> bool {
    engine == ActiveVadEngine::Amplitude || (engine == ActiveVadEngine::Silero && silero is None)
}

/// The segments behind an option, by view.
pub open spec fn segments_view(s: Option<Vec<Segment>>) -> Option<Seq<Segment>> {
    match s {
        Some(v) => Some(v@),
        None => None,
    }
}

/// The samples from `from` up to, but without, `to`.
pub fn copy_range<S: Copy>(samples: &Vec<S>, from: usize, to: usize) -> (r: Vec<S>)
    requires
        from <= to <= samples@.len(),
    ensures
        r@ == samples@.subrange(from as int, to as int),
{
    let mut out: Vec<S> = Vec::new();
    let mut i: usize = from;
    while i < to
        invariant
            from <= i <= to <= samples@.len(),
            out@ == samples@.subrange(from as int, i as int),
        decreases to - i,
    {
        proof {
            assert(samples@.subrange(from as int, i + 1) == samples@.subrange(
                from as int,
                i as int,
            ).push(samples@[i as int]));
        }
        out.push(samples[i]);
        i += 1;
    }
    out
}

/// The part of a recording that lies between two positions, if there is any.
pub fn trim_range(sample_count: usize, start: usize, end: usize) -> (r: Option<Segment>)
    ensures
        bounds(r) == clipped(start as int, end as int, sample_count as int),
{
    if start >= end || start >= sample_count {
        return None;
    }
    Some(
        Segment {
            start,
            end: if end <= sample_count {
                end
            } else {
                sample_count
            },
        },
    )
}

/// The part of a recording that the Silero model's segments span.
pub fn trim_with_silero(sample_count: usize, segments: &Vec<Segment>) -> (r: Option<Segment>)
    ensures
        bounds(r) == silero_range(segments@, sample_count as int),
{
    let mut start: usize = sample_count;
    let mut end: usize = 0;
    let mut i: usize = 0;
    assert(segments@.take(0) =~= Seq::<Segment>::empty());
    while i < segments.len()
        invariant
            i <= segments.len(),
            start == earliest(segments@.take(i as int), sample_count as int),
            end == latest(segments@.take(i as int), 0),
        decreases segments.len() - i,
    {
        assert(segments@.take(i + 1).drop_last() == segments@.take(i as int));
        if segments[i].start < start {
            start = segments[i].start;
        }
        if segments[i].end > end {
            end = segments[i].end;
        }
        i += 1;
    }
    assert(segments@.take(i as int) == segments@);
    trim_range(sample_count, start, end)
}

/// The part of a recording that the amplitude engine keeps. `speech` says of each window of the
/// recording, in order, whether it holds speech.
pub fn trim_with_amplitude(
    settings: &VadSettings,
    sample_rate: u32,
    sample_count: usize,
    speech: &Vec<bool>,
) -> (r: Option<Segment>)
    requires
        sample_rate >= 1,
        sample_count <= sample_limit(),
        speech@.len() == window_count(sample_rate, sample_count as int),
    ensures
        bounds(r) == amplitude_range(*settings, sample_rate, speech@, sample_count as int),
        r matches Some(s) ==> s.start <= s.end <= sample_count,
{
    let window: usize = match samples_for_ms(sample_rate, 30) {
        0 => 1,
        n => n,
    };
    let hop: usize = match samples_for_ms(sample_rate, 10) {
        0 => 1,
        n => n,
    };
    let asked: usize = samples_for_ms(sample_rate, settings.min_speech_ms);
    let min_speech: usize = if asked >= hop {
        asked
    } else {
        hop
    };
    let pad: usize = samples_for_ms(sample_rate, settings.pad_ms);
    let mut found: Option<(usize, usize)> = None;
    let mut run: Option<(usize, usize)> = None;
    let mut offset: usize = 0;
    let mut k: usize = 0;
    let ghost begin = scan_start(settings.min_speech_ms, sample_rate);
    let ghost mut m = begin;
    let ghost len = sample_count as int;
    proof {
        crate::chunking::segmenter::law_every_setting_is_valid(
            PauseSegmenterSettings {
                sample_rate,
                min_speech_ms: settings.min_speech_ms,
                pause_ms: 0,
                min_chunk_ms: 0,
                overlap_ms: 0,
            },
        );
        assert(speech@.skip(0) == speech@);
    }
    while offset < sample_count
        invariant
            sample_count <= sample_limit(),
            len == sample_count,
            1 <= hop <= window <= 4_294_967,
            k <= speech.len(),
            valid(m),
            m.window == window,
            m.hop == hop,
            m.min_speech == min_speech,
            m.scan == offset,
            m.run == stretch(run),
            m.speech == stretch(found),
            speech@.len() - k == all_windows(m.scan, m.window, m.hop, len).len(),
            tail_run(begin, speech@, len) == tail_run(m, speech@.skip(k as int), len),
        decreases sample_count + hop - offset,
    {
        assert(k < speech.len());
        let end: usize = if offset + window <= sample_count {
            offset + window
        } else {
            sample_count
        };
        if speech[k] {
            let from: usize = match run {
                Some((from, _)) => from,
                None => offset,
            };
            run = Some((from, end));
        } else if let Some((from, to)) = run {
            run = None;
            if to - from >= min_speech {
                found = Some(
                    (
                        match found {
                            Some((first, _)) => first,
                            None => from,
                        },
                        to,
                    ),
                );
            }
        }
        proof {
            m = SegmentState {
                scan: m.scan + m.hop,
                ..inspected(m, at_most(m.scan + m.window, len), speech@[k as int])
            };
            assert(speech@.skip(k as int).drop_first() == speech@.skip(k + 1));
        }
        offset = offset + hop;
        k += 1;
    }
    assert(speech@.skip(k as int) =~= Seq::<bool>::empty());
    if let Some((from, to)) = run {
        if to - from >= min_speech {
            found = Some(
                (
                    match found {
                        Some((first, _)) => first,
                        None => from,
                    },
                    to,
                ),
            );
        }
    }
    proof {
        lemma_span_in_recording(settings.min_speech_ms, sample_rate, speech@, len);
    }
    match found {
        Some((first, last)) => Some(
            Segment {
                start: first.saturating_sub(pad),
                end: if last + pad <= sample_count {
                    last + pad
                } else {
                    sample_count
                },
            },
        ),
        None => None,
    }
}

/// Everything that the scan found lies in a recording of `len` samples.
spec fn found_within(m: SegmentState, len: int) -> bool {
    &&& m.run matches Some((from, to)) ==> 0 <= from < to <= len
    &&& m.speech matches Some((first, last)) ==> 0 <= first < last <= len
    &&& match (m.speech, m.run) {
        (Some((first, _)), Some((_, to))) => first < to,
        _ => true,
    }
    &&& m.speech matches Some((first, _)) ==> first <= m.scan
}

proof fn lemma_tail_run_within(m: SegmentState, speech: Seq<bool>, len: int)
    requires
        m.hop >= 1,
        m.window >= 1,
        m.scan >= 0,
        found_within(m, len),
        m.run matches Some((from, _)) ==> from <= m.scan,
        speech.len() <= all_windows(m.scan, m.window, m.hop, len).len(),
    ensures
        found_within(tail_run(m, speech, len), len),
    decreases speech.len(),
{
    if speech.len() > 0 {
        let seen = inspected(m, at_most(m.scan + m.window, len), speech[0]);
        lemma_tail_run_within(
            SegmentState { scan: m.scan + m.hop, ..seen },
            speech.drop_first(),
            len,
        );
    }
}

proof fn lemma_span_in_recording(min_speech_ms: u32, rate: u32, speech: Seq<bool>, len: int)
    requires
        len >= 0,
        speech.len() <= window_count(rate, len),
    ensures
        speech_span(min_speech_ms, rate, speech, len) matches Some((first, last)) ==> 0 <= first
            < last <= len,
{
    lemma_tail_run_within(scan_start(min_speech_ms, rate), speech, len);
}

/// Looks for voice activity in recordings.
pub struct VadProcessor {
    settings: VadSettings,
    sample_rate: u32,
    engine: ActiveVadEngine,
}

/// The engine that the settings lead to. The Silero engine is taken where it is not ruled out and
/// its model is loaded.
pub open spec fn selected(settings: VadSettings, silero_loaded: bool) -> ActiveVadEngine {
    if !settings.enabled {
        ActiveVadEngine::Disabled
    } else if settings.engine == VadEngine::Amplitude || !silero_loaded {
        ActiveVadEngine::Amplitude
    } else {
        ActiveVadEngine::Silero
    }
}

/// Where the Silero model lies below the home directory when no path is set.
pub open spec fn default_model_path() -> Seq<char> {
    ".local/share/chezwizper/whisper/models/ggml-silero-v5.1.2.bin"@
}

/// The path at which the Silero model is looked for.
pub open spec fn model_candidate(
    settings: VadSettings,
    home: Option<Seq<char>>,
) -> Option<Seq<char>> {
    match (settings.model_path, home) {
        (Some(path), _) => Some(path@),
        (None, Some(home)) => Some(joined_path(home, default_model_path())),
        (None, None) => None,
    }
}

/// The path at which the Silero model is looked for: the one that is set, else the default place
/// below the home directory.
pub fn silero_model_candidate(settings: &VadSettings, home: Option<&str>) -> (r: Option<String>)
    ensures
        (match r {
            Some(path) => Some(path@),
            None => None,
        }) == model_candidate(
            *settings,
            match home {
                Some(home) => Some(home@),
                None => None,
            },
        ),
{
    match &settings.model_path {
        Some(path) => Some(path.clone()),
        None => match home {
            Some(home) => Some(
                join_path(home, ".local/share/chezwizper/whisper/models/ggml-silero-v5.1.2.bin"),
            ),
            None => None,
        },
    }
}

/// True where the Silero model is worth loading.
pub fn wants_silero(settings: &VadSettings) -> (r: bool)
    ensures
        r == (selected(*settings, true) == ActiveVadEngine::Silero),
{
    settings.enabled && settings.engine != VadEngine::Amplitude
}

impl VadProcessor {
    #[verifier::type_invariant]
    spec fn has_rate(self) -> bool {
        self.sample_rate >= 1
    }

    pub closed spec fn settings(&self) -> VadSettings {
        self.settings
    }

    pub closed spec fn rate(&self) -> u32 {
        self.sample_rate
    }

    pub closed spec fn engine(&self) -> ActiveVadEngine {
        self.engine
    }

    /// A processor for recordings of the given rate. `silero_loaded` says whether the Silero model
    /// could be loaded.
    pub fn new(settings: VadSettings, sample_rate: u32, silero_loaded: bool) -> (r: Self)
        ensures
            r.settings() == settings,
            r.rate() == at_least(sample_rate as int, 1),
            r.engine() == selected(settings, silero_loaded),
    {
        let engine = if !settings.enabled {
            ActiveVadEngine::Disabled
        } else if settings.engine == VadEngine::Amplitude || !silero_loaded {
            ActiveVadEngine::Amplitude
        } else {
            ActiveVadEngine::Silero
        };
        VadProcessor {
            settings,
            sample_rate: if sample_rate >= 1 {
                sample_rate
            } else {
                1
            },
            engine,
        }
    }

    /// The engine that the processor works with.
    pub fn active_engine(&self) -> (r: ActiveVadEngine)
        ensures
            r == self.engine(),
    {
        self.engine
    }

    /// The windows of a recording that the amplitude engine looks at, in order.
    pub fn windows(&self, sample_count: usize) -> (r: Vec<Segment>)
        requires
            sample_count <= sample_limit(),
        ensures
            crate::chunking::segmenter::positions(r@) == all_windows(
                0,
                scan_start(0, self.rate()).window,
                scan_start(0, self.rate()).hop,
                sample_count as int,
            ),
            r@.len() == window_count(self.rate(), sample_count as int),
    {
        proof {
            use_type_invariant(self);
        }
        let scan = crate::chunking::segmenter::PauseSegmenter::new(
            PauseSegmenterSettings {
                sample_rate: self.sample_rate,
                min_speech_ms: 0,
                pause_ms: 0,
                min_chunk_ms: 0,
                overlap_ms: 0,
            },
        );
        let r = scan.tail_windows(sample_count);
        assert(r@.len() == crate::chunking::segmenter::positions(r@).len());
        r
    }

    /// Keeps the part of a recording that holds speech. `silero` holds the segments that the
    /// Silero model found, or nothing where it was not asked or failed; `speech` says of each of
    /// the [`VadProcessor::windows`] whether it holds speech, and is only looked at where the
    /// amplitude decides.
    pub fn process<S: Copy>(
        &self,
        samples: Vec<S>,
        silero: Option<Vec<Segment>>,
        speech: &Vec<bool>,
    ) -> (r: VadOutput<S>)
        requires
            samples@.len() <= sample_limit(),
            amplitude_decides(self.engine(), segments_view(silero)) ==> speech@.len()
                == window_count(self.rate(), samples@.len() as int),
        ensures
            ({
                let range = kept_range(
                    self.engine(),
                    self.settings(),
                    self.rate(),
                    segments_view(silero),
                    speech@,
                    samples@.len() as int,
                );
                &&& bounds(r.speech_range) == range
                &&& r.samples@ == part(samples@, range)
                &&& r.skipped == (range is None)
                &&& r.input_samples == samples@.len()
                &&& r.output_samples == r.samples@.len()
            }),
            match r.speech_range {
                Some(range) => !r.skipped && range.start <= range.end <= samples@.len()
                    && r.samples@ == samples@.subrange(range.start as int, range.end as int),
                None => r.skipped && r.samples@.len() == 0,
            },
            self.engine() == ActiveVadEngine::Disabled ==> !r.skipped && r.samples@ == samples@,
            (self.engine() == ActiveVadEngine::Silero && segments_view(silero) is Some) ==> {
                let segments = segments_view(silero)->Some_0;
                let len = samples@.len() as int;
                &&& heard(segments, len) ==> !r.skipped
                &&& r.skipped ==> !heard(segments, len)
                &&& r.speech_range matches Some(range) ==> is_first_start(
                    segments,
                    range.start as int,
                ) && (is_last_end(segments, range.end as int) || (range.end == len && exists|
                    end: int,
                | end > len && #[trigger] is_last_end(segments, end)))
            },
            r.engine@ == (if self.engine() == ActiveVadEngine::Disabled {
                "disabled"@
            } else if amplitude_decides(self.engine(), segments_view(silero)) {
                "amplitude"@
            } else {
                "silero"@
            }),
    {
        proof {
            use_type_invariant(self);
        }
        let input_samples: usize = samples.len();
        proof {
            if segments_view(silero) is Some {
                law_silero_keeps_from_first_to_last(
                    self.settings,
                    self.sample_rate,
                    segments_view(silero)->Some_0,
                    speech@,
                    samples@.len() as int,
                );
            }
            assert(samples@.subrange(0, samples@.len() as int) =~= samples@);
        }
        let (range, engine): (Option<Segment>, &'static str) = match self.engine {
            ActiveVadEngine::Disabled => (Some(Segment { start: 0, end: input_samples }), "disabled"),
            ActiveVadEngine::Amplitude => (
                trim_with_amplitude(&self.settings, self.sample_rate, input_samples, speech),
                "amplitude",
            ),
            ActiveVadEngine::Silero => match silero {
                Some(segments) => (trim_with_silero(input_samples, &segments), "silero"),
                None => (
                    trim_with_amplitude(&self.settings, self.sample_rate, input_samples, speech),
                    "amplitude",
                ),
            },
        };
        let kept: Vec<S> = match range {
            Some(range) => copy_range(&samples, range.start, range.end),
            None => Vec::new(),
        };
        let output_samples: usize = kept.len();
        VadOutput {
            samples: kept,
            speech_range: range,
            input_samples,
            output_samples,
            skipped: range.is_none(),
            engine,
        }
    }
}

impl VadProcessor {
    /// A processor with the default settings. `silero_loaded` says whether the Silero model could be
    /// loaded: with it the processor works by the model, without it by the amplitude.
    pub fn default(silero_loaded: bool) -> (r: Self)
        ensures
            r.settings().enabled,
            r.settings().engine == VadEngine::Auto,
            r.settings().min_speech_ms == 100,
            r.settings().pad_ms == 200,
            r.settings().model_path is None,
            r.rate() == 16_000,
            r.engine() == (if silero_loaded {
                ActiveVadEngine::Silero
            } else {
                ActiveVadEngine::Amplitude
            }),
    {
        VadProcessor::new(VadSettings::default(), 16_000, silero_loaded)
    }
}

/// Law: what the amplitude engine keeps holds all of the speech that the scan found and lies in
/// the recording.
pub proof fn law_trimming_keeps_the_speech(
    settings: VadSettings,
    rate: u32,
    speech: Seq<bool>,
    len: int,
)
    requires
        rate >= 1,
        0 <= len <= sample_limit(),
        speech.len() == window_count(rate, len),
    ensures
        match (
            speech_span(settings.min_speech_ms, rate, speech, len),
            amplitude_range(settings, rate, speech, len),
        ) {
            (Some((first, last)), Some((from, to))) => 0 <= from <= first < last <= to <= len,
            (None, None) => true,
            _ => false,
        },
{
    lemma_span_in_recording(settings.min_speech_ms, rate, speech, len);
    assert(0 <= rate * settings.pad_ms) by (nonlinear_arith)
        requires
            0 <= rate,
            0 <= settings.pad_ms,
    ;
}

/// Where a window of the scan starts.
pub open spec fn window_start(m: SegmentState, i: int) -> int {
    i * m.hop
}

/// Where a window of the scan ends: a recording of `len` samples may cut it short.
pub open spec fn window_end(m: SegmentState, len: int, i: int) -> int {
    at_most(i * m.hop + m.window, len)
}

/// The windows from the first to the last of these are loud, and those next to them are not.
pub open spec fn loud_run(speech: Seq<bool>, first: int, last: int) -> bool {
    &&& 0 <= first <= last < speech.len()
    &&& forall|i: int| first <= i <= last ==> #[trigger] speech[i]
    &&& first == 0 || !speech[first - 1]
    &&& last + 1 == speech.len() || !speech[last + 1]
}

/// A run of loud windows that lasts long enough to count as speech.
pub open spec fn lasting_run(
    m: SegmentState,
    speech: Seq<bool>,
    len: int,
    first: int,
    last: int,
) -> bool {
    loud_run(speech, first, last) && window_end(m, len, last) - window_start(m, first)
        >= m.min_speech
}

/// The span reaches from the start of the first of the lasting runs that end before window `limit`
/// to the end of the last of them. There is none where there is no such run.
pub open spec fn spans_runs(
    m: SegmentState,
    speech: Seq<bool>,
    len: int,
    limit: int,
    span: Option<(int, int)>,
) -> bool {
    match span {
        None => forall|a: int, b: int| b < limit ==> !#[trigger] lasting_run(m, speech, len, a, b),
        Some((from, to)) => {
            &&& exists|a: int, b: int|
                #![trigger lasting_run(m, speech, len, a, b)]
                {
                    &&& lasting_run(m, speech, len, a, b)
                    &&& b < limit
                    &&& from == window_start(m, a)
                    &&& forall|c: int, d: int| d < limit && #[trigger] lasting_run(m, speech, len, c, d)
                        ==> a <= c
                }
            &&& exists|a: int, b: int|
                #![trigger lasting_run(m, speech, len, a, b)]
                {
                    &&& lasting_run(m, speech, len, a, b)
                    &&& b < limit
                    &&& to == window_end(m, len, b)
                    &&& forall|c: int, d: int| d < limit && #[trigger] lasting_run(m, speech, len, c, d)
                        ==> d <= b
                }
        },
    }
}

/// The loud windows in front of window `k` start at `a`.
spec fn loud_before(speech: Seq<bool>, a: int, k: int) -> bool {
    &&& 0 <= a < k <= speech.len()
    &&& forall|i: int| a <= i < k ==> #[trigger] speech[i]
    &&& a == 0 || !speech[a - 1]
}

/// What the scan knows before window `k`.
spec fn scan_at(start: SegmentState, m: SegmentState, speech: Seq<bool>, len: int, k: int) -> bool {
    &&& m.hop == start.hop && m.window == start.window && m.min_speech == start.min_speech
    &&& m.scan == k * start.hop
    &&& match m.run {
        None => k == 0 || !speech[k - 1],
        Some((from, to)) => exists|a: int|
            #![trigger loud_before(speech, a, k)]
            loud_before(speech, a, k) && from == window_start(start, a) && to == window_end(
                start,
                len,
                k - 1,
            ),
    }
    &&& spans_runs(start, speech, len, k - 1, m.speech)
}

/// A run that ends in front of a quiet window, or with the recording, joins the span.
proof fn lemma_run_joins(
    start: SegmentState,
    m: SegmentState,
    speech: Seq<bool>,
    len: int,
    k: int,
)
    requires
        0 <= k <= speech.len(),
        k == speech.len() || !speech[k],
        scan_at(start, m, speech, len, k),
    ensures
        spans_runs(start, speech, len, k, run_closed(m).speech),
{
    match m.run {
        None => {
            assert forall|a: int, b: int| b < k && #[trigger] lasting_run(start, speech, len, a, b)
                implies b < k - 1 by {
                assert(speech[b]);
            }
        },
        Some((from, to)) => {
            let a = choose|a: int|
                #![trigger loud_before(speech, a, k)]
                loud_before(speech, a, k) && from == window_start(start, a) && to == window_end(
                    start,
                    len,
                    k - 1,
                );
            assert(loud_run(speech, a, k - 1));
            assert forall|c: int, d: int| d < k && #[trigger] loud_run(speech, c, d) implies (
            d == k - 1 && c == a) || (d < k - 1 && c <= a) by {
                if d == k - 1 {
                    if c < a {
                        assert(speech[a - 1]);
                    }
                    if a < c {
                        assert(speech[c - 1]);
                    }
                } else if d >= a {
                    assert(speech[d + 1]);
                }
            }
            let joins = to - from >= start.min_speech;
            assert(joins == lasting_run(start, speech, len, a, k - 1));
            assert forall|c: int, d: int| d < k && #[trigger] lasting_run(start, speech, len, c, d)
                implies (d == k - 1 && c == a && joins) || (d < k - 1 && c <= a) by {
                assert(loud_run(speech, c, d));
            }
            if joins {
                let after = run_closed(m).speech->Some_0;
                match m.speech {
                    None => {
                        assert(after == (from, to));
                    },
                    Some((first, _)) => {
                        assert(after == (first, to));
                        let (x, y) = choose|x: int, y: int|
                            #![trigger lasting_run(start, speech, len, x, y)]
                            {
                                &&& lasting_run(start, speech, len, x, y)
                                &&& y < k - 1
                                &&& first == window_start(start, x)
                                &&& forall|c: int, d: int|
                                    d < k - 1 && #[trigger] lasting_run(start, speech, len, c, d)
                                        ==> x <= c
                            };
                        assert(lasting_run(start, speech, len, x, y));
                    },
                }
            }
        },
    }
}

proof fn lemma_scan_step(
    start: SegmentState,
    m: SegmentState,
    speech: Seq<bool>,
    len: int,
    k: int,
)
    requires
        0 <= k < speech.len(),
        scan_at(start, m, speech, len, k),
    ensures
        scan_at(
            start,
            SegmentState {
                scan: m.scan + m.hop,
                ..inspected(m, at_most(m.scan + m.window, len), speech[k])
            },
            speech,
            len,
            k + 1,
        ),
{
    assert((k + 1) * start.hop == k * start.hop + start.hop) by (nonlinear_arith);
    if speech[k] {
        assert forall|a: int, b: int| b < k && #[trigger] lasting_run(start, speech, len, a, b)
            implies b < k - 1 by {
            assert(loud_run(speech, a, b));
        }
        match m.run {
            None => {
                assert(loud_before(speech, k, k + 1));
            },
            Some((from, to)) => {
                let a = choose|a: int|
                    #![trigger loud_before(speech, a, k)]
                    loud_before(speech, a, k) && from == window_start(start, a) && to == window_end(
                        start,
                        len,
                        k - 1,
                    );
                assert(loud_before(speech, a, k + 1));
            },
        }
    } else {
        lemma_run_joins(start, m, speech, len, k);
    }
}

proof fn lemma_scan(
    start: SegmentState,
    m: SegmentState,
    speech: Seq<bool>,
    len: int,
    k: int,
)
    requires
        0 <= k <= speech.len(),
        scan_at(start, m, speech, len, k),
    ensures
        scan_at(start, tail_run(m, speech.skip(k), len), speech, len, speech.len() as int),
    decreases speech.len() - k,
{
    let rest = speech.skip(k);
    if k < speech.len() {
        lemma_scan_step(start, m, speech, len, k);
        assert(rest[0] == speech[k]);
        assert(rest.drop_first() =~= speech.skip(k + 1));
        lemma_scan(
            start,
            SegmentState {
                scan: m.scan + m.hop,
                ..inspected(m, at_most(m.scan + m.window, len), speech[k])
            },
            speech,
            len,
            k + 1,
        );
    }
}

/// Law: the speech that the scan finds reaches from the start of the first run of loud windows that
/// lasts long enough to the end of the last one, and there is none where no run does.
pub proof fn law_speech_spans_the_lasting_runs(
    min_speech_ms: u32,
    rate: u32,
    speech: Seq<bool>,
    len: int,
)
    ensures
        spans_runs(
            scan_start(min_speech_ms, rate),
            speech,
            len,
            speech.len() as int,
            speech_span(min_speech_ms, rate, speech, len),
        ),
{
    let start = scan_start(min_speech_ms, rate);
    assert(0 * start.hop == 0) by (nonlinear_arith);
    assert(speech.skip(0) =~= speech);
    lemma_scan(start, start, speech, len, 0);
    lemma_run_joins(start, tail_run(start, speech, len), speech, len, speech.len() as int);
}

proof fn lemma_silent_scan(m: SegmentState, speech: Seq<bool>, len: int)
    requires
        m.run is None,
        m.speech is None,
        forall|i: int| 0 <= i < speech.len() ==> !#[trigger] speech[i],
    ensures
        tail_run(m, speech, len).run is None,
        tail_run(m, speech, len).speech is None,
    decreases speech.len(),
{
    if speech.len() > 0 {
        let rest = speech.drop_first();
        assert forall|i: int| 0 <= i < rest.len() implies !#[trigger] rest[i] by {
            assert(rest[i] == speech[i + 1]);
        }
        lemma_silent_scan(
            SegmentState { scan: m.scan + m.hop, ..inspected(m, at_most(m.scan + m.window, len), false) },
            rest,
            len,
        );
    }
}

/// Law: of a recording in which no window holds speech nothing is kept.
pub proof fn law_silence_is_skipped(
    settings: VadSettings,
    rate: u32,
    speech: Seq<bool>,
    len: int,
)
    requires
        forall|i: int| 0 <= i < speech.len() ==> !#[trigger] speech[i],
    ensures
        amplitude_range(settings, rate, speech, len) is None,
{
    lemma_silent_scan(scan_start(settings.min_speech_ms, rate), speech, len);
}

/// Law: every segment that the Silero model found in the recording is kept whole.
pub proof fn law_silero_segments_are_kept(segments: Seq<Segment>, len: int, i: int)
    requires
        0 <= i < segments.len(),
        segments[i].start < segments[i].end <= len,
    ensures
        silero_range(segments, len) matches Some((from, to)) && from <= segments[i].start
            && segments[i].end <= to <= len,
{
    lemma_extremes(segments, len, i);
}

proof fn lemma_extremes(segments: Seq<Segment>, len: int, i: int)
    requires
        0 <= i < segments.len(),
    ensures
        earliest(segments, len) <= segments[i].start,
        latest(segments, 0) >= segments[i].end,
    decreases segments.len(),
{
    if i < segments.len() - 1 {
        lemma_extremes(segments.drop_last(), len, i);
        assert(segments.drop_last()[i] == segments[i]);
    }
}

/// One of the segments is not empty and starts in a recording of `len` samples.
pub open spec fn heard(segments: Seq<Segment>, len: int) -> bool {
    exists|i: int|
        0 <= i < segments.len() && (#[trigger] segments[i]).start < segments[i].end
            && segments[i].start < len
}

/// The position is the start of one of the segments, and none starts before it.
pub open spec fn is_first_start(segments: Seq<Segment>, at: int) -> bool {
    &&& exists|i: int| 0 <= i < segments.len() && (#[trigger] segments[i]).start == at
    &&& forall|i: int| 0 <= i < segments.len() ==> at <= (#[trigger] segments[i]).start
}

/// The position is the end of one of the segments, and none ends after it.
pub open spec fn is_last_end(segments: Seq<Segment>, at: int) -> bool {
    &&& exists|i: int| 0 <= i < segments.len() && (#[trigger] segments[i]).end == at
    &&& forall|i: int| 0 <= i < segments.len() ==> (#[trigger] segments[i]).end <= at
}

proof fn lemma_extremes_are_there(segments: Seq<Segment>, len: int)
    ensures
        earliest(segments, len) <= len,
        latest(segments, 0) >= 0,
        earliest(segments, len) < len ==> is_first_start(segments, earliest(segments, len)),
        segments.len() > 0 ==> is_last_end(segments, latest(segments, 0)),
    decreases segments.len(),
{
    if segments.len() > 0 {
        let front = segments.drop_last();
        lemma_extremes_are_there(front, len);
        let low = earliest(segments, len);
        let high = latest(segments, 0);
        assert forall|i: int| 0 <= i < segments.len() implies low <= (#[trigger] segments[i]).start
            && segments[i].end <= high by {
            lemma_extremes(segments, len, i);
        }
        assert(segments[segments.len() - 1] == segments.last());
        if low < len {
            if low == segments.last().start {
                assert(segments[segments.len() - 1].start == low);
            } else {
                let i = choose|i: int| 0 <= i < front.len() && (#[trigger] front[i]).start == low;
                assert(segments[i] == front[i]);
            }
        }
        if high == segments.last().end {
            assert(segments[segments.len() - 1].end == high);
        } else {
            let i = choose|i: int| 0 <= i < front.len() && (#[trigger] front[i]).end == high;
            assert(segments[i] == front[i]);
        }
    }
}

/// Law: the Silero engine keeps what lies between the first start and the last end of the model's
/// segments, cut off at the end of the recording. Where the model found a segment that is not empty
/// and starts in the recording, something is kept; where it found none at all, nothing is.
pub proof fn law_silero_keeps_from_first_to_last(
    settings: VadSettings,
    rate: u32,
    segments: Seq<Segment>,
    speech: Seq<bool>,
    len: int,
)
    requires
        0 <= len,
    ensures
        ({
            let kept = kept_range(
                ActiveVadEngine::Silero,
                settings,
                rate,
                Some(segments),
                speech,
                len,
            );
            &&& heard(segments, len) ==> kept is Some
            &&& segments.len() == 0 ==> kept is None
            &&& kept matches Some((from, to)) ==> {
                &&& is_first_start(segments, from)
                &&& from < to
                &&& to <= len
                &&& is_last_end(segments, to) || (to == len && exists|end: int|
                    end > len && #[trigger] is_last_end(segments, end))
            }
        }),
{
    lemma_extremes_are_there(segments, len);
    if heard(segments, len) {
        let i = choose|i: int|
            0 <= i < segments.len() && (#[trigger] segments[i]).start < segments[i].end
                && segments[i].start < len;
        lemma_extremes(segments, len, i);
    }
}

/// Law: the amplitude engine keeps the speech and the set time on either side of it, as far as the
/// recording goes, and nothing where there is no speech. It decides where it was chosen, and where
/// the Silero model was to decide and failed.
pub proof fn law_amplitude_keeps_the_padded_speech(
    engine: ActiveVadEngine,
    settings: VadSettings,
    rate: u32,
    speech: Seq<bool>,
    len: int,
    span: Option<(int, int)>,
)
    requires
        engine != ActiveVadEngine::Disabled,
        spans_runs(
            scan_start(settings.min_speech_ms, rate),
            speech,
            len,
            speech.len() as int,
            span,
        ),
    ensures
        ({
            let kept = kept_range(engine, settings, rate, None, speech, len);
            let pad = (if rate * settings.pad_ms <= 0xffff_ffff {
                rate * settings.pad_ms
            } else {
                0xffff_ffff
            }) / 1000;
            &&& span is None ==> kept is None
            &&& span matches Some((first, last)) ==> kept matches Some((from, to)) && {
                &&& from == (if first >= pad {
                    first - pad
                } else {
                    0
                })
                &&& to == (if last + pad <= len {
                    last + pad
                } else {
                    len
                })
            }
        }),
{
    let start = scan_start(settings.min_speech_ms, rate);
    law_speech_spans_the_lasting_runs(settings.min_speech_ms, rate, speech, len);
    lemma_one_span(
        start,
        speech,
        len,
        speech.len() as int,
        span,
        speech_span(settings.min_speech_ms, rate, speech, len),
    );
}

/// There is one span of the runs.
proof fn lemma_one_span(
    m: SegmentState,
    speech: Seq<bool>,
    len: int,
    limit: int,
    one: Option<(int, int)>,
    other: Option<(int, int)>,
)
    requires
        spans_runs(m, speech, len, limit, one),
        spans_runs(m, speech, len, limit, other),
    ensures
        one == other,
{
}

/// Law: a processor that is switched off keeps the whole recording, whatever is said of it.
pub proof fn law_a_disabled_processor_keeps_everything(
    settings: VadSettings,
    rate: u32,
    silero: Option<Seq<Segment>>,
    speech: Seq<bool>,
    len: int,
)
    ensures
        kept_range(ActiveVadEngine::Disabled, settings, rate, silero, speech, len) == Some(
            (0int, len),
        ),
{
}

/// Law: the engine is what the settings and the machine allow. Nothing is looked for where voice
/// activity detection is off; the Silero model decides where its engine is not ruled out and it is
/// loaded; and else the amplitude decides.
pub proof fn law_the_engine_follows_the_settings(settings: VadSettings, silero_loaded: bool)
    ensures
        selected(settings, silero_loaded) == ActiveVadEngine::Disabled <==> !settings.enabled,
        selected(settings, silero_loaded) == ActiveVadEngine::Silero <==> settings.enabled
            && silero_loaded && (settings.engine == VadEngine::Auto || settings.engine
            == VadEngine::Silero),
{
}

/// Law: the model is looked for at the path that is set, and else at its place below the home
/// directory.
pub proof fn law_where_the_model_is_looked_for(settings: VadSettings, home: Option<Seq<char>>)
    ensures
        settings.model_path matches Some(path) ==> model_candidate(settings, home) == Some(path@),
        settings.model_path is None && home is None ==> model_candidate(settings, home) is None,
        settings.model_path is None && home is Some ==> model_candidate(settings, home) == Some(
            joined_path(
                home->Some_0,
                ".local/share/chezwizper/whisper/models/ggml-silero-v5.1.2.bin"@,
            ),
        ),
{
}

} // verus!
