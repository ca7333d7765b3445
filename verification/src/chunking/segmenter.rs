//! Cutting a growing recording into segments at pauses in the speech.
//!
//! The recording is scanned in windows of 30 ms, one every 10 ms. Whether a window holds speech
//! is a matter of its sample values and is decided by the caller, who lists the windows with
//! [`PauseSegmenter::ready_windows`] or [`PauseSegmenter::tail_windows`] and hands back one flag
//! for each. All positions are counted in samples from the start of the recording.

use crate::vad::{lasting_run, loud_run, window_end, window_start};
use vstd::prelude::*;

verus! {

/// How a recording is cut, with durations in milliseconds.
#[derive(Clone, Copy, Debug, PartialEq, Eq, Structural)]
pub struct PauseSegmenterSettings {
    pub sample_rate: u32,
    pub min_speech_ms: u32,
    pub pause_ms: u32,
    pub min_chunk_ms: u32,
    pub overlap_ms: u32,
}

/// The samples from `start` up to, but without, `end`.
#[derive(Clone, Copy, Debug, PartialEq, Eq, Structural)]
pub struct Segment {
    pub start: usize,
    pub end: usize,
}

/// The number of samples that last `ms` milliseconds, where the product of the rate and the
/// duration is capped at the largest 32-bit number.
pub open spec fn samples_in(rate: int, ms: int) -> int {
    (if rate * ms <= u32::MAX {
        rate * ms
    } else {
        u32::MAX as int
    }) / 1000
}

/// The number of samples that last `ms` milliseconds, where the product of the rate and the
/// duration is capped at the largest 32-bit number.
pub fn samples_for_ms(rate: u32, ms: u32) -> (r: usize)
    ensures
        r == samples_in(rate as int, ms as int),
        r <= 4_294_967,
{
    let product: u32 = match rate.checked_mul(ms) {
        Some(product) => product,
        None => u32::MAX,
    };
    product as usize / 1_000
}

/// A recording of four-byte samples holds at most this many of them.
pub open spec fn sample_limit() -> int {
    isize::MAX as int / 4
}

pub open spec fn at_least(a: int, b: int) -> int {
    if a >= b {
        a
    } else {
        b
    }
}

pub open spec fn at_most(a: int, b: int) -> int {
    if a <= b {
        a
    } else {
        b
    }
}

/// What a segmenter knows: its lengths in samples, and how far the scan has come.
pub struct SegmentState {
    pub window: int,
    pub hop: int,
    pub min_speech: int,
    pub pause: int,
    pub min_chunk: int,
    pub overlap: int,
    /// Where the next window starts.
    pub scan: int,
    /// The windows of speech that reach the scan, from their start to their end.
    pub run: Option<(int, int)>,
    /// Where the speech that no segment holds yet starts and ends.
    pub speech: Option<(int, int)>,
    /// Where the next segment starts.
    pub next_start: int,
    /// Where the last segment ended.
    pub emitted_end: int,
}

/// The state before any sample was scanned.
pub open spec fn initial(s: PauseSegmenterSettings) -> SegmentState {
    let rate = at_least(s.sample_rate as int, 1);
    let hop = at_least(samples_in(rate, 10), 1);
    SegmentState {
        window: at_least(samples_in(rate, 30), 1),
        hop,
        min_speech: at_least(samples_in(rate, s.min_speech_ms as int), hop),
        pause: samples_in(rate, s.pause_ms as int),
        min_chunk: samples_in(rate, s.min_chunk_ms as int),
        overlap: samples_in(rate, s.overlap_ms as int),
        scan: 0,
        run: None,
        speech: None,
        next_start: 0,
        emitted_end: 0,
    }
}

/// The stretch lies in what was scanned.
pub open spec fn scanned(m: SegmentState, stretch: Option<(int, int)>) -> bool {
    match stretch {
        Some((from, to)) => 0 <= from < to && from <= m.scan && to + m.hop <= m.scan + m.window
            && to <= sample_limit(),
        None => true,
    }
}

/// The states that a segmenter can be in.
pub open spec fn valid(m: SegmentState) -> bool {
    &&& 1 <= m.hop <= m.window <= 4_294_967
    &&& m.hop <= m.min_speech <= 4_294_967
    &&& 0 <= m.pause <= 4_294_967
    &&& 0 <= m.min_chunk <= 4_294_967
    &&& 0 <= m.overlap <= 4_294_967
    &&& 0 <= m.scan <= sample_limit() + m.hop
    &&& scanned(m, m.run)
    &&& scanned(m, m.speech)
    &&& match (m.speech, m.run) {
        (Some((first, _)), Some((_, to))) => first < to,
        _ => true,
    }
    &&& 0 <= m.next_start <= m.emitted_end <= sample_limit()
    &&& m.emitted_end + m.hop <= m.scan + m.window
}

/// The end of the run of speech: it counts as speech if it is long enough.
pub open spec fn run_closed(m: SegmentState) -> SegmentState {
    match m.run {
        None => m,
        Some((from, to)) => if to - from < m.min_speech {
            SegmentState { run: None, ..m }
        } else {
            let first = match m.speech {
                Some((first, _)) => first,
                None => from,
            };
            SegmentState { run: None, speech: Some((first, to)), ..m }
        },
    }
}

/// The state after the window that starts at the scan and ends at `end` was looked at.
pub open spec fn inspected(m: SegmentState, end: int, speech: bool) -> SegmentState {
    if speech {
        let from = match m.run {
            Some((from, _)) => from,
            None => m.scan,
        };
        SegmentState { run: Some((from, end)), ..m }
    } else {
        run_closed(m)
    }
}

/// A segment is due: the speech has paused for long enough, and there is enough of it.
pub open spec fn due(m: SegmentState, through: int) -> bool {
    m.run is None && match m.speech {
        Some((first, last)) => last - first >= m.min_chunk && through - last >= m.pause,
        None => false,
    }
}

/// The state after the samples up to `through` were cut off as a segment.
pub open spec fn cut(m: SegmentState, through: int) -> SegmentState {
    SegmentState {
        run: None,
        speech: None,
        next_start: match m.speech {
            Some((_, last)) => at_least(last - m.overlap, 0),
            None => m.next_start,
        },
        emitted_end: through,
        ..m
    }
}

/// One window that is complete: the state after it, and the segment that it made due.
pub open spec fn ready_step(m: SegmentState, speech: bool) -> (SegmentState, Seq<(int, int)>) {
    let end = m.scan + m.window;
    let seen = inspected(m, end, speech);
    if due(seen, end) {
        (
            SegmentState { scan: m.scan + m.hop, ..cut(seen, end) },
            seq![(seen.next_start, end)],
        )
    } else {
        (SegmentState { scan: m.scan + m.hop, ..seen }, Seq::empty())
    }
}

/// A number of complete windows: the state after them, and the segments that they made due.
pub open spec fn ready_run(m: SegmentState, speech: Seq<bool>) -> (SegmentState, Seq<(int, int)>)
    decreases speech.len(),
{
    if speech.len() == 0 {
        (m, Seq::empty())
    } else {
        let (first, cuts) = ready_step(m, speech[0]);
        let (last, rest) = ready_run(first, speech.drop_first());
        (last, cuts + rest)
    }
}

/// The complete windows from `scan` on in a recording of `len` samples.
pub open spec fn complete_windows(scan: int, window: int, hop: int, len: int) -> Seq<(int, int)>
    decreases len + hop - scan,
{
    if hop >= 1 && window >= 0 && scan + window <= len {
        seq![(scan, scan + window)] + complete_windows(scan + hop, window, hop, len)
    } else {
        Seq::empty()
    }
}

/// The windows from `scan` on in a recording of `len` samples, with those that it cuts short.
pub open spec fn all_windows(scan: int, window: int, hop: int, len: int) -> Seq<(int, int)>
    decreases len + hop - scan,
{
    if hop >= 1 && scan < len {
        seq![(scan, at_most(scan + window, len))] + all_windows(scan + hop, window, hop, len)
    } else {
        Seq::empty()
    }
}

/// The last windows of a recording of `len` samples.
pub open spec fn tail_run(m: SegmentState, speech: Seq<bool>, len: int) -> SegmentState
    decreases speech.len(),
{
    if speech.len() == 0 {
        m
    } else {
        let seen = inspected(m, at_most(m.scan + m.window, len), speech[0]);
        tail_run(SegmentState { scan: m.scan + m.hop, ..seen }, speech.drop_first(), len)
    }
}

/// The state after a recording of `len` samples ended, and the rest of it as a segment: there is
/// one if the scan found speech in it, or if the speech is known to go on up to `speech_end`,
/// past the last segment.
pub open spec fn finished(
    m: SegmentState,
    speech: Seq<bool>,
    len: int,
    speech_end: int,
) -> (SegmentState, Option<(int, int)>) {
    let closed = run_closed(tail_run(m, speech, len));
    if closed.speech is Some || speech_end > closed.emitted_end {
        (
            SegmentState { speech: None, ..closed },
            Some((at_most(closed.next_start, len), len)),
        )
    } else {
        (closed, None)
    }
}

/// The segments as pairs of positions.
pub open spec fn positions(segments: Seq<Segment>) -> Seq<(int, int)> {
    Seq::new(segments.len(), |i: int| (segments[i].start as int, segments[i].end as int))
}

/// Cuts a growing recording into segments at pauses in the speech.
pub struct PauseSegmenter {
    window: usize,
    hop: usize,
    min_speech_samples: usize,
    pause_samples: usize,
    min_chunk_samples: usize,
    overlap_samples: usize,
    scan_offset: usize,
    run: Option<(usize, usize)>,
    speech: Option<(usize, usize)>,
    next_segment_start: usize,
    last_emitted_end: usize,
}

/// A stretch of samples as a pair of positions.
pub open spec fn stretch(s: Option<(usize, usize)>) -> Option<(int, int)> {
    match s {
        Some((from, to)) => Some((from as int, to as int)),
        None => None,
    }
}

impl View for PauseSegmenter {
    type V = SegmentState;

    closed spec fn view(&self) -> SegmentState {
        SegmentState {
            window: self.window as int,
            hop: self.hop as int,
            min_speech: self.min_speech_samples as int,
            pause: self.pause_samples as int,
            min_chunk: self.min_chunk_samples as int,
            overlap: self.overlap_samples as int,
            scan: self.scan_offset as int,
            run: stretch(self.run),
            speech: stretch(self.speech),
            next_start: self.next_segment_start as int,
            emitted_end: self.last_emitted_end as int,
        }
    }
}

fn larger(a: usize, b: usize) -> (r: usize)
    ensures
        r == at_least(a as int, b as int),
{
    if a >= b {
        a
    } else {
        b
    }
}

fn smaller(a: usize, b: usize) -> (r: usize)
    ensures
        r == at_most(a as int, b as int),
{
    if a <= b {
        a
    } else {
        b
    }
}

impl PauseSegmenter {
    pub open spec fn wf(&self) -> bool {
        valid(self@)
    }

    /// A segmenter for a recording that has not begun.
    pub fn new(settings: PauseSegmenterSettings) -> (r: Self)
        ensures
            r@ == initial(settings),
            r.wf(),
    {
        let rate: u32 = if settings.sample_rate >= 1 {
            settings.sample_rate
        } else {
            1
        };
        let window: usize = larger(samples_for_ms(rate, 30), 1);
        let hop: usize = larger(samples_for_ms(rate, 10), 1);
        PauseSegmenter {
            window,
            hop,
            min_speech_samples: larger(samples_for_ms(rate, settings.min_speech_ms), hop),
            pause_samples: samples_for_ms(rate, settings.pause_ms),
            min_chunk_samples: samples_for_ms(rate, settings.min_chunk_ms),
            overlap_samples: samples_for_ms(rate, settings.overlap_ms),
            scan_offset: 0,
            run: None,
            speech: None,
            next_segment_start: 0,
            last_emitted_end: 0,
        }
    }

    /// The complete windows that were not scanned yet.
    pub fn ready_windows(&self, sample_count: usize) -> (r: Vec<Segment>)
        requires
            self.wf(),
            sample_count <= sample_limit(),
        ensures
            positions(r@) == complete_windows(
                self@.scan,
                self@.window,
                self@.hop,
                sample_count as int,
            ),
    {
        let mut out: Vec<Segment> = Vec::new();
        let mut at: usize = self.scan_offset;
        let ghost all = complete_windows(
            self@.scan,
            self@.window,
            self@.hop,
            sample_count as int,
        );
        assert(positions(out@) + all == all);
        while at + self.window <= sample_count
            invariant
                self.wf(),
                sample_count <= sample_limit(),
                at <= sample_limit() + self.hop,
                all == positions(out@) + complete_windows(
                    at as int,
                    self@.window,
                    self@.hop,
                    sample_count as int,
                ),
            decreases sample_count + self.hop - at,
        {
            let window = Segment { start: at, end: at + self.window };
            proof {
                assert(positions(out@.push(window)) == positions(out@) + seq![
                    (at as int, at + self.window),
                ]);
                assert(positions(out@) + (seq![(at as int, at + self.window)]
                    + complete_windows(
                    at + self.hop,
                    self@.window,
                    self@.hop,
                    sample_count as int,
                )) == positions(out@.push(window)) + complete_windows(
                    at + self.hop,
                    self@.window,
                    self@.hop,
                    sample_count as int,
                ));
            }
            out.push(window);
            at = at + self.hop;
        }
        assert(positions(out@) + Seq::<(int, int)>::empty() == positions(out@));
        out
    }

    /// The windows that were not scanned yet, with those that the end of the recording cuts short.
    pub fn tail_windows(&self, sample_count: usize) -> (r: Vec<Segment>)
        requires
            self.wf(),
            sample_count <= sample_limit(),
        ensures
            positions(r@) == all_windows(
                self@.scan,
                self@.window,
                self@.hop,
                sample_count as int,
            ),
    {
        let mut out: Vec<Segment> = Vec::new();
        let mut at: usize = self.scan_offset;
        let ghost all = all_windows(self@.scan, self@.window, self@.hop, sample_count as int);
        assert(positions(out@) + all == all);
        while at < sample_count
            invariant
                self.wf(),
                sample_count <= sample_limit(),
                at <= sample_limit() + self.hop,
                all == positions(out@) + all_windows(
                    at as int,
                    self@.window,
                    self@.hop,
                    sample_count as int,
                ),
            decreases sample_count + self.hop - at,
        {
            let window = Segment { start: at, end: smaller(at + self.window, sample_count) };
            proof {
                let rest = all_windows(
                    at + self.hop,
                    self@.window,
                    self@.hop,
                    sample_count as int,
                );
                assert(positions(out@.push(window)) == positions(out@) + seq![
                    (at as int, window.end as int),
                ]);
                assert(positions(out@) + (seq![(at as int, window.end as int)] + rest)
                    == positions(out@.push(window)) + rest);
            }
            out.push(window);
            at = at + self.hop;
        }
        assert(positions(out@) + Seq::<(int, int)>::empty() == positions(out@));
        out
    }

    fn close_speech_run(&mut self)
        requires
            old(self).wf(),
        ensures
            final(self)@ == run_closed(old(self)@),
            final(self).wf(),
    {
        if let Some((from, to)) = self.run {
            self.run = None;
            if to - from >= self.min_speech_samples {
                let first: usize = match self.speech {
                    Some((first, _)) => first,
                    None => from,
                };
                self.speech = Some((first, to));
            }
        }
    }

    fn inspect_window(&mut self, end: usize, speech: bool)
        requires
            old(self).wf(),
            old(self)@.scan < end <= sample_limit(),
            end <= old(self)@.scan + old(self)@.window,
        ensures
            final(self)@ == inspected(old(self)@, end as int, speech),
            valid(SegmentState { scan: final(self)@.scan + final(self)@.hop, ..final(self)@ }),
    {
        if speech {
            let from: usize = match self.run {
                Some((from, _)) => from,
                None => self.scan_offset,
            };
            self.run = Some((from, end));
        } else {
            self.close_speech_run();
        }
    }

    /// The segments that are due once the recording holds `sample_count` samples. `speech` says of
    /// each of the [`PauseSegmenter::ready_windows`] whether it holds speech.
    pub fn ready_segments(&mut self, sample_count: usize, speech: &Vec<bool>) -> (r: Vec<Segment>)
        requires
            old(self).wf(),
            sample_count <= sample_limit(),
            speech@.len() == complete_windows(
                old(self)@.scan,
                old(self)@.window,
                old(self)@.hop,
                sample_count as int,
            ).len(),
        ensures
            final(self)@ == ready_run(old(self)@, speech@).0,
            positions(r@) == ready_run(old(self)@, speech@).1,
            final(self).wf(),
    {
        let mut segments: Vec<Segment> = Vec::new();
        let ghost start = self@;
        let mut k: usize = 0;
        proof {
            assert(speech@.skip(0) == speech@);
            assert(positions(segments@) + ready_run(start, speech@).1 == ready_run(
                start,
                speech@,
            ).1);
        }
        while self.scan_offset + self.window <= sample_count
            invariant
                self.wf(),
                sample_count <= sample_limit(),
                k <= speech.len(),
                speech@.len() - k == complete_windows(
                    self@.scan,
                    self@.window,
                    self@.hop,
                    sample_count as int,
                ).len(),
                ready_run(start, speech@).0 == ready_run(self@, speech@.skip(k as int)).0,
                ready_run(start, speech@).1 == positions(segments@) + ready_run(
                    self@,
                    speech@.skip(k as int),
                ).1,
            decreases sample_count + self.hop - self.scan_offset,
        {
            assert(k < speech.len());
            let ghost before = self@;
            let end: usize = self.scan_offset + self.window;
            self.inspect_window(end, speech[k]);
            let ghost seen = self@;
            let ghost had = segments@;
            if self.run.is_none() {
                if let Some((first, last)) = self.speech {
                    if last - first >= self.min_chunk_samples && end - last >= self.pause_samples {
                        segments.push(Segment { start: self.next_segment_start, end });
                        self.next_segment_start = last.saturating_sub(self.overlap_samples);
                        self.last_emitted_end = end;
                        self.speech = None;
                    }
                }
            }
            self.scan_offset = self.scan_offset + self.hop;
            proof {
                let (after, cuts) = ready_step(before, speech@[k as int]);
                assert(self@ == after);
                assert(positions(segments@) == positions(had) + cuts);
                assert(speech@.skip(k as int).drop_first() == speech@.skip(k + 1));
                let rest = ready_run(after, speech@.skip(k + 1)).1;
                assert(positions(had) + (cuts + rest) == positions(segments@) + rest);
            }
            k += 1;
        }
        proof {
            assert(speech@.skip(k as int) =~= Seq::<bool>::empty());
            assert(positions(segments@) + Seq::<(int, int)>::empty() == positions(segments@));
        }
        segments
    }

    /// The rest of a recording that ended with `sample_count` samples, where it is known that the
    /// speech goes on up to `authoritative_speech_end`. `speech` says of each of the
    /// [`PauseSegmenter::tail_windows`] whether it holds speech.
    pub fn finish_with_speech_end(
        &mut self,
        sample_count: usize,
        speech: &Vec<bool>,
        authoritative_speech_end: usize,
    ) -> (r: Option<Segment>)
        requires
            old(self).wf(),
            sample_count <= sample_limit(),
            speech@.len() == all_windows(
                old(self)@.scan,
                old(self)@.window,
                old(self)@.hop,
                sample_count as int,
            ).len(),
        ensures
            final(self)@ == finished(
                old(self)@,
                speech@,
                sample_count as int,
                authoritative_speech_end as int,
            ).0,
            (match r {
                Some(s) => Some((s.start as int, s.end as int)),
                None => None,
            }) == finished(
                old(self)@,
                speech@,
                sample_count as int,
                authoritative_speech_end as int,
            ).1,
            final(self).wf(),
    {
        let ghost start = self@;
        let mut k: usize = 0;
        proof {
            assert(speech@.skip(0) == speech@);
        }
        while self.scan_offset < sample_count
            invariant
                self.wf(),
                sample_count <= sample_limit(),
                k <= speech.len(),
                speech@.len() - k == all_windows(
                    self@.scan,
                    self@.window,
                    self@.hop,
                    sample_count as int,
                ).len(),
                tail_run(start, speech@, sample_count as int) == tail_run(
                    self@,
                    speech@.skip(k as int),
                    sample_count as int,
                ),
            decreases sample_count + self.hop - self.scan_offset,
        {
            assert(k < speech.len());
            let end: usize = smaller(self.scan_offset + self.window, sample_count);
            self.inspect_window(end, speech[k]);
            self.scan_offset = self.scan_offset + self.hop;
            proof {
                assert(speech@.skip(k as int).drop_first() == speech@.skip(k + 1));
            }
            k += 1;
        }
        assert(speech@.skip(k as int) =~= Seq::<bool>::empty());
        self.close_speech_run();
        if self.speech.is_some() || authoritative_speech_end > self.last_emitted_end {
            let segment = Segment {
                start: smaller(self.next_segment_start, sample_count),
                end: sample_count,
            };
            self.speech = None;
            Some(segment)
        } else {
            None
        }
    }
}

/// A step over a complete window keeps the state valid while the window lies in the recording.
proof fn lemma_ready_step(m: SegmentState, speech: bool, len: int)
    requires
        valid(m),
        m.scan + m.window <= len <= sample_limit(),
    ensures
        valid(ready_step(m, speech).0),
        ready_step(m, speech).0.scan == m.scan + m.hop,
        ready_step(m, speech).0.window == m.window,
        ready_step(m, speech).0.hop == m.hop,
        ready_step(m, speech).0.min_chunk == m.min_chunk,
        ready_step(m, speech).0.pause == m.pause,
{
}

/// Law: it makes no difference how often the recording is looked at. Scanning some windows and
/// then some more gives the segments, and the state, of scanning them all at once.
pub proof fn law_polling_does_not_matter(m: SegmentState, early: Seq<bool>, late: Seq<bool>)
    ensures
        ready_run(m, early + late).0 == ready_run(ready_run(m, early).0, late).0,
        ready_run(m, early + late).1 == ready_run(m, early).1 + ready_run(
            ready_run(m, early).0,
            late,
        ).1,
    decreases early.len(),
{
    let all = early + late;
    if early.len() == 0 {
        assert(all == late);
        assert(ready_run(m, early).1 + ready_run(m, late).1 == ready_run(m, late).1);
    } else {
        let (first, cuts) = ready_step(m, early[0]);
        law_polling_does_not_matter(first, early.drop_first(), late);
        assert(all.drop_first() == early.drop_first() + late);
        let a = ready_run(first, early.drop_first()).1;
        let b = ready_run(ready_run(first, early.drop_first()).0, late).1;
        assert(cuts + (a + b) == (cuts + a) + b);
    }
}

/// Each segment is longer than nothing, ends in the recording, starts no later than the one
/// before it ended, and ends after it. The first one starts at `from`.
pub open spec fn chained(segments: Seq<(int, int)>, from: int, len: int) -> bool {
    &&& segments.len() > 0 ==> segments[0].0 == from
    &&& forall|i: int|
        0 <= i < segments.len() ==> 0 <= (#[trigger] segments[i]).0 < segments[i].1 <= len
    &&& forall|i: int, j: int|
        0 <= i < segments.len() && j == i + 1 && j < segments.len() ==> (#[trigger] segments[j]).0
            <= (#[trigger] segments[i]).1 < segments[j].1
}

/// Law: the segments of a scan follow on one another. Each starts at or before the end of the one
/// before it, so that no sample between them is lost; each ends later than the one before it; and
/// the next one to come starts at or before the end of the last.
pub proof fn law_segments_leave_no_gap(m: SegmentState, speech: Seq<bool>, len: int)
    requires
        valid(m),
        len <= sample_limit(),
        speech.len() <= complete_windows(m.scan, m.window, m.hop, len).len(),
    ensures
        ({
            let (last, segments) = ready_run(m, speech);
            &&& valid(last)
            &&& chained(segments, m.next_start, len)
            &&& segments.len() > 0 ==> segments[0].1 > m.emitted_end && segments.last().1
                == last.emitted_end && last.next_start <= segments.last().1
            &&& segments.len() == 0 ==> last.next_start == m.next_start && last.emitted_end
                == m.emitted_end
        }),
    decreases speech.len(),
{
    if speech.len() > 0 {
        assert(m.scan + m.window <= len);
        lemma_ready_step(m, speech[0], len);
        let (first, cuts) = ready_step(m, speech[0]);
        law_segments_leave_no_gap(first, speech.drop_first(), len);
        let (last, rest) = ready_run(first, speech.drop_first());
        let segments = cuts + rest;
        if cuts.len() > 0 {
            assert(cuts.len() == 1);
            assert(segments[0] == cuts[0]);
            assert forall|i: int| 0 <= i < segments.len() implies 0 <= (
            #[trigger] segments[i]).0 < segments[i].1 <= len by {
                if i > 0 {
                    assert(segments[i] == rest[i - 1]);
                }
            }
            assert forall|i: int, j: int|
                0 <= i < segments.len() && j == i + 1 && j < segments.len() implies (
            #[trigger] segments[j]).0 <= (#[trigger] segments[i]).1 < segments[j].1 by {
                assert(segments[j] == rest[j - 1]);
                if i > 0 {
                    assert(segments[i] == rest[i - 1]);
                }
            }
        } else {
            assert(segments == rest);
        }
    }
}

/// Every sample from `from` up to `to` lies in one of the segments.
pub open spec fn covered(segments: Seq<(int, int)>, from: int, to: int) -> bool {
    forall|p: int| from <= p < to ==> in_some(segments, p)
}

/// The sample at `p` lies in one of the segments.
pub open spec fn in_some(segments: Seq<(int, int)>, p: int) -> bool {
    exists|i: int| 0 <= i < segments.len() && (#[trigger] segments[i]).0 <= p < segments[i].1
}

proof fn lemma_chain_covers(segments: Seq<(int, int)>, from: int, len: int)
    requires
        chained(segments, from, len),
        segments.len() > 0,
    ensures
        covered(segments, from, segments.last().1),
    decreases segments.len(),
{
    let last = segments.last();
    assert(segments[segments.len() - 1] == last);
    if segments.len() > 1 {
        let front = segments.drop_last();
        assert forall|i: int| 0 <= i < front.len() implies 0 <= (#[trigger] front[i]).0 < front[i].1
            <= len by {
            assert(front[i] == segments[i]);
        }
        assert forall|i: int, j: int|
            0 <= i < front.len() && j == i + 1 && j < front.len() implies (#[trigger] front[j]).0
            <= (#[trigger] front[i]).1 < front[j].1 by {
            assert(front[i] == segments[i] && front[j] == segments[j]);
        }
        lemma_chain_covers(front, from, len);
        assert(front.last() == segments[segments.len() - 2]);
        assert forall|p: int| from <= p < last.1 implies in_some(segments, p) by {
            if p < front.last().1 {
                assert(in_some(front, p));
                let i = choose|i: int|
                    0 <= i < front.len() && (#[trigger] front[i]).0 <= p < front[i].1;
                assert(segments[i] == front[i]);
            } else {
                assert(segments[segments.len() - 1].0 <= p);
            }
        }
    } else {
        assert forall|p: int| from <= p < last.1 implies in_some(segments, p) by {
            assert(segments[0].0 <= p < segments[0].1);
        }
    }
}

/// The scan of the last windows changes neither where the next segment starts nor where the last
/// one ended, and keeps the state valid.
proof fn lemma_tail_run(m: SegmentState, speech: Seq<bool>, len: int)
    requires
        valid(m),
        len <= sample_limit(),
        speech.len() <= all_windows(m.scan, m.window, m.hop, len).len(),
    ensures
        valid(tail_run(m, speech, len)),
        tail_run(m, speech, len).next_start == m.next_start,
        tail_run(m, speech, len).emitted_end == m.emitted_end,
    decreases speech.len(),
{
    if speech.len() > 0 {
        assert(m.scan < len);
        let seen = inspected(m, at_most(m.scan + m.window, len), speech[0]);
        lemma_tail_run(
            SegmentState { scan: m.scan + m.hop, ..seen },
            speech.drop_first(),
            len,
        );
    }
}

/// Law: no audio is lost. When a recording ends with a last segment, every sample of it lies in
/// one of its segments; when it ends without one, every sample up to the end of the last segment
/// does, and what follows holds no speech that is known of.
pub proof fn law_no_audio_is_lost(
    settings: PauseSegmenterSettings,
    ready: Seq<bool>,
    tail: Seq<bool>,
    len: int,
    speech_end: int,
)
    requires
        0 <= len <= sample_limit(),
        ready.len() <= complete_windows(
            0,
            initial(settings).window,
            initial(settings).hop,
            len,
        ).len(),
        ({
            let m = ready_run(initial(settings), ready).0;
            tail.len() <= all_windows(m.scan, m.window, m.hop, len).len()
        }),
    ensures
        ({
            let (m, segments) = ready_run(initial(settings), ready);
            let (end, rest) = finished(m, tail, len, speech_end);
            match rest {
                Some(last) => last.1 == len && covered(segments.push(last), 0, len),
                None => covered(segments, 0, m.emitted_end) && speech_end <= m.emitted_end
                    && end.speech is None && end.run is None,
            }
        }),
{
    let start = initial(settings);
    law_every_setting_is_valid(settings);
    let (m, segments) = ready_run(start, ready);
    law_segments_leave_no_gap(start, ready, len);
    lemma_tail_run(m, tail, len);
    if segments.len() > 0 {
        lemma_chain_covers(segments, 0, len);
    }
    if let Some(last) = finished(m, tail, len, speech_end).1 {
        let all = segments.push(last);
        assert(all[segments.len() as int] == last);
        assert forall|p: int| 0 <= p < len implies in_some(all, p) by {
            if p < last.0 {
                assert(in_some(segments, p));
                let i = choose|i: int|
                    0 <= i < segments.len() && (#[trigger] segments[i]).0 <= p < segments[i].1;
                assert(all[i] == segments[i]);
            } else {
                assert(all[segments.len() as int].0 <= p);
            }
        }
    }
}

/// The speech that is waiting to be cut off ends after the last segment, and the next segment
/// starts no later than the overlap before that segment's end.
spec fn waits_ahead(m: SegmentState) -> bool {
    &&& m.next_start == 0 || m.next_start + m.overlap <= m.emitted_end
    &&& m.run matches Some((_, to)) ==> m.emitted_end < to
    &&& m.speech matches Some((_, last)) ==> m.emitted_end < last
}

/// Each segment starts at or after the start of every one before it.
pub open spec fn starts_in_order(segments: Seq<(int, int)>) -> bool {
    forall|i: int, j: int|
        0 <= i <= j < segments.len() ==> (#[trigger] segments[i]).0 <= (#[trigger] segments[j]).0
}

proof fn lemma_starts(m: SegmentState, speech: Seq<bool>, len: int)
    requires
        valid(m),
        waits_ahead(m),
        len <= sample_limit(),
        speech.len() <= complete_windows(m.scan, m.window, m.hop, len).len(),
    ensures
        ({
            let (last, segments) = ready_run(m, speech);
            &&& starts_in_order(segments)
            &&& m.next_start <= last.next_start
            &&& forall|i: int|
                0 <= i < segments.len() ==> m.next_start <= (#[trigger] segments[i]).0
                    <= last.next_start
        }),
    decreases speech.len(),
{
    if speech.len() > 0 {
        assert(m.scan + m.window <= len);
        lemma_ready_step(m, speech[0], len);
        let (first, cuts) = ready_step(m, speech[0]);
        assert(m.next_start <= first.next_start);
        lemma_starts(first, speech.drop_first(), len);
        let (last, rest) = ready_run(first, speech.drop_first());
        let segments = cuts + rest;
        assert forall|i: int| 0 <= i < segments.len() implies m.next_start <= (
        #[trigger] segments[i]).0 <= last.next_start by {
            if i >= cuts.len() {
                assert(segments[i] == rest[i - cuts.len()]);
            } else {
                assert(segments[i] == cuts[i]);
            }
        }
        assert forall|i: int, j: int| 0 <= i <= j < segments.len() implies (
        #[trigger] segments[i]).0 <= (#[trigger] segments[j]).0 by {
            if i >= cuts.len() {
                assert(segments[i] == rest[i - cuts.len()]);
                assert(segments[j] == rest[j - cuts.len()]);
            } else {
                assert(segments[i] == cuts[0]);
                if j >= cuts.len() {
                    assert(segments[j] == rest[j - cuts.len()]);
                }
            }
        }
    }
}

/// Law: the starts of successive segments never decrease, the last one's among them.
pub proof fn law_segments_start_in_order(
    settings: PauseSegmenterSettings,
    ready: Seq<bool>,
    tail: Seq<bool>,
    len: int,
    speech_end: int,
)
    requires
        0 <= len <= sample_limit(),
        ready.len() <= complete_windows(
            0,
            initial(settings).window,
            initial(settings).hop,
            len,
        ).len(),
        ({
            let m = ready_run(initial(settings), ready).0;
            tail.len() <= all_windows(m.scan, m.window, m.hop, len).len()
        }),
    ensures
        ({
            let (m, segments) = ready_run(initial(settings), ready);
            match finished(m, tail, len, speech_end).1 {
                Some(last) => starts_in_order(segments.push(last)),
                None => starts_in_order(segments),
            }
        }),
{
    let start = initial(settings);
    law_every_setting_is_valid(settings);
    let (m, segments) = ready_run(start, ready);
    lemma_starts(start, ready, len);
    law_segments_leave_no_gap(start, ready, len);
    lemma_tail_run(m, tail, len);
    if let Some(last) = finished(m, tail, len, speech_end).1 {
        let all = segments.push(last);
        assert forall|i: int, j: int| 0 <= i <= j < all.len() implies (#[trigger] all[i]).0 <= (
        #[trigger] all[j]).0 by {
            if j < segments.len() {
                assert(all[i] == segments[i] && all[j] == segments[j]);
            } else if i < segments.len() {
                assert(all[i] == segments[i]);
                assert(segments[i].1 <= len);
            }
        }
    }
}

/// Law: a segment is cut only in a pause. When the window that ends at `end` makes a segment due,
/// that window holds no speech, the speech in the segment spans at least the shortest chunk, it
/// ended at least a pause ago, and the next segment starts just the overlap before its end.
pub proof fn law_segments_are_cut_in_pauses(m: SegmentState, speech: bool)
    requires
        valid(m),
        ready_step(m, speech).1.len() > 0,
    ensures
        !speech,
        ({
            let seen = run_closed(m);
            let end = m.scan + m.window;
            &&& ready_step(m, speech).1 == seq![(m.next_start, end)]
            &&& seen.speech matches Some((first, last)) && last - first >= m.min_chunk && end - last
                >= m.pause && ready_step(m, speech).0.next_start == at_least(last - m.overlap, 0)
        }),
{
}

/// Window `base` is the first one after the window that made the last of the segments due, or the
/// first of all where there is no segment yet.
pub open spec fn resumes_at(m: SegmentState, segments: Seq<(int, int)>, base: int) -> bool {
    if segments.len() == 0 {
        base == 0
    } else {
        base >= 1 && segments.last().1 == window_start(m, base - 1) + m.window
    }
}

/// The span reaches from the start of the first of the lasting runs of loud windows between window
/// `base` and window `limit` to the end of the last of them. There is none where there is no such
/// run.
pub open spec fn spans_since(
    m: SegmentState,
    speech: Seq<bool>,
    len: int,
    base: int,
    limit: int,
    span: Option<(int, int)>,
) -> bool {
    match span {
        None => forall|a: int, b: int|
            base <= a && b < limit ==> !#[trigger] lasting_run(m, speech, len, a, b),
        Some((from, to)) => {
            &&& exists|a: int, b: int|
                #![trigger lasting_run(m, speech, len, a, b)]
                {
                    &&& lasting_run(m, speech, len, a, b)
                    &&& base <= a && b < limit
                    &&& from == window_start(m, a)
                    &&& forall|c: int, d: int|
                        base <= c && d < limit && #[trigger] lasting_run(m, speech, len, c, d)
                            ==> a <= c
                }
            &&& exists|a: int, b: int|
                #![trigger lasting_run(m, speech, len, a, b)]
                {
                    &&& lasting_run(m, speech, len, a, b)
                    &&& base <= a && b < limit
                    &&& to == window_end(m, len, b)
                    &&& forall|c: int, d: int|
                        base <= c && d < limit && #[trigger] lasting_run(m, speech, len, c, d)
                            ==> d <= b
                }
        },
    }
}

/// The position lies the overlap before the end of the last lasting run of loud windows in front
/// of window `base`; it is the start of the recording where nothing was cut off yet.
pub open spec fn overlaps_last_run(
    m: SegmentState,
    speech: Seq<bool>,
    len: int,
    base: int,
    from: int,
) -> bool {
    if base == 0 {
        from == 0
    } else {
        exists|a: int, b: int|
            #![trigger lasting_run(m, speech, len, a, b)]
            {
                &&& lasting_run(m, speech, len, a, b)
                &&& b < base
                &&& from == at_least(window_end(m, len, b) - m.overlap, 0)
                &&& forall|c: int, d: int|
                    d < base && #[trigger] lasting_run(m, speech, len, c, d) ==> d <= b
            }
    }
}

/// The loud windows in front of window `k` start at `a`.
spec fn loud_up_to(speech: Seq<bool>, a: int, k: int) -> bool {
    &&& 0 <= a < k <= speech.len()
    &&& forall|i: int| a <= i < k ==> #[trigger] speech[i]
    &&& a == 0 || !speech[a - 1]
}

/// What the scan knows before window `k` when the last segment was cut before window `base`.
spec fn knows(
    start: SegmentState,
    m: SegmentState,
    speech: Seq<bool>,
    len: int,
    base: int,
    k: int,
) -> bool {
    &&& 0 <= base <= k <= speech.len()
    &&& base > 0 ==> !speech[base - 1]
    &&& m.hop == start.hop && m.window == start.window && m.min_speech == start.min_speech
    &&& m.pause == start.pause && m.min_chunk == start.min_chunk && m.overlap == start.overlap
    &&& m.scan == k * start.hop
    &&& match m.run {
        None => k == 0 || !speech[k - 1],
        Some((from, to)) => exists|a: int|
            #![trigger loud_up_to(speech, a, k)]
            loud_up_to(speech, a, k) && base <= a && from == window_start(start, a) && to
                == window_end(start, len, k - 1),
    }
    &&& spans_since(start, speech, len, base, k - 1, m.speech)
    &&& overlaps_last_run(start, speech, len, base, m.next_start)
}

/// A run that ends in front of a quiet window, or with the recording, joins the span.
proof fn lemma_joins_since(
    start: SegmentState,
    m: SegmentState,
    speech: Seq<bool>,
    len: int,
    base: int,
    k: int,
)
    requires
        knows(start, m, speech, len, base, k),
        k == speech.len() || !speech[k],
    ensures
        spans_since(start, speech, len, base, k, run_closed(m).speech),
{
    match m.run {
        None => {
            assert forall|a: int, b: int| b < k && #[trigger] lasting_run(start, speech, len, a, b)
                implies b < k - 1 by {
                assert(speech[b]);
            }
        },
        Some((from, to)) => {
            let a = choose|a: int|
                #![trigger loud_up_to(speech, a, k)]
                loud_up_to(speech, a, k) && base <= a && from == window_start(start, a) && to
                    == window_end(start, len, k - 1);
            assert(loud_run(speech, a, k - 1));
            assert forall|c: int, d: int| d < k && #[trigger] loud_run(speech, c, d) implies (
            d == k - 1 && c == a) || (d < k - 1 && c <= a) by {
                if d == k - 1 {
                    if c < a {
                        assert(speech[a - 1]);
                    }
                    if a < c {
                        assert(speech[c - 1]);
                    }
                } else if d >= a {
                    assert(speech[d + 1]);
                }
            }
            let joins = to - from >= start.min_speech;
            assert(joins == lasting_run(start, speech, len, a, k - 1));
            assert forall|c: int, d: int| d < k && #[trigger] lasting_run(start, speech, len, c, d)
                implies (d == k - 1 && c == a && joins) || (d < k - 1 && c <= a) by {
                assert(loud_run(speech, c, d));
            }
            if joins {
                let after = run_closed(m).speech->Some_0;
                match m.speech {
                    None => {
                        assert(after == (from, to));
                    },
                    Some((first, _)) => {
                        assert(after == (first, to));
                        let (x, y) = choose|x: int, y: int|
                            #![trigger lasting_run(start, speech, len, x, y)]
                            {
                                &&& lasting_run(start, speech, len, x, y)
                                &&& base <= x && y < k - 1
                                &&& first == window_start(start, x)
                                &&& forall|c: int, d: int|
                                    base <= c && d < k - 1 && #[trigger] lasting_run(
                                        start,
                                        speech,
                                        len,
                                        c,
                                        d,
                                    ) ==> x <= c
                            };
                        assert(lasting_run(start, speech, len, x, y));
                    },
                }
            }
        },
    }
}

proof fn lemma_inspects_since(
    start: SegmentState,
    m: SegmentState,
    speech: Seq<bool>,
    len: int,
    base: int,
    k: int,
)
    requires
        k < speech.len(),
        knows(start, m, speech, len, base, k),
    ensures
        knows(
            start,
            SegmentState {
                scan: m.scan + m.hop,
                ..inspected(m, at_most(m.scan + m.window, len), speech[k])
            },
            speech,
            len,
            base,
            k + 1,
        ),
{
    assert((k + 1) * start.hop == k * start.hop + start.hop) by (nonlinear_arith);
    if speech[k] {
        assert forall|a: int, b: int| b < k && #[trigger] lasting_run(start, speech, len, a, b)
            implies b < k - 1 by {
            assert(loud_run(speech, a, b));
        }
        match m.run {
            None => {
                assert(loud_up_to(speech, k, k + 1));
            },
            Some((from, to)) => {
                let a = choose|a: int|
                    #![trigger loud_up_to(speech, a, k)]
                    loud_up_to(speech, a, k) && base <= a && from == window_start(start, a) && to
                        == window_end(start, len, k - 1);
                assert(loud_up_to(speech, a, k + 1));
            },
        }
    } else {
        lemma_joins_since(start, m, speech, len, base, k);
    }
}

/// After a cut the scan knows of no speech, and the next segment overlaps the last run.
proof fn lemma_cut_since(
    start: SegmentState,
    m: SegmentState,
    speech: Seq<bool>,
    len: int,
    base: int,
    k: int,
)
    requires
        k < speech.len(),
        !speech[k],
        knows(start, m, speech, len, base, k),
        run_closed(m).speech is Some,
        k * start.hop + start.window <= len,
    ensures
        ready_step(m, false).1.len() > 0 ==> knows(
            start,
            ready_step(m, false).0,
            speech,
            len,
            k + 1,
            k + 1,
        ),
{
    assert((k + 1) * start.hop == k * start.hop + start.hop) by (nonlinear_arith);
    lemma_joins_since(start, m, speech, len, base, k);
    let to = run_closed(m).speech->Some_0.1;
    let (a, b) = choose|a: int, b: int|
        #![trigger lasting_run(start, speech, len, a, b)]
        {
            &&& lasting_run(start, speech, len, a, b)
            &&& base <= a && b < k
            &&& to == window_end(start, len, b)
            &&& forall|c: int, d: int|
                base <= c && d < k && #[trigger] lasting_run(start, speech, len, c, d) ==> d <= b
        };
    assert(lasting_run(start, speech, len, a, b));
    assert forall|c: int, d: int| d < k + 1 && #[trigger] lasting_run(start, speech, len, c, d)
        implies d <= b by {
        assert(speech[d]);
        if c < base && d >= base {
            assert(speech[base - 1]);
        }
    }
    assert forall|c: int, d: int| k + 1 <= c && d < k implies !#[trigger] lasting_run(
        start,
        speech,
        len,
        c,
        d,
    ) by {
        if lasting_run(start, speech, len, c, d) {
            assert(loud_run(speech, c, d));
        }
    }
}

proof fn lemma_one_window(m: SegmentState, speech: bool)
    ensures
        ready_run(m, seq![speech]) == ready_step(m, speech),
{
    let one = seq![speech];
    let (next, cuts) = ready_step(m, speech);
    assert(one.drop_first() =~= Seq::<bool>::empty());
    assert(ready_run(next, one.drop_first()) == (next, Seq::<(int, int)>::empty()));
    assert(cuts + Seq::<(int, int)>::empty() =~= cuts);
}

/// What a scan of complete windows from the start of a recording knows, and which window comes
/// first after its last segment.
proof fn lemma_ready_knows(start: SegmentState, speech: Seq<bool>, len: int, k: int) -> (base: int)
    requires
        valid(start),
        start.scan == 0,
        start.run is None,
        start.speech is None,
        start.next_start == 0,
        start.emitted_end == 0,
        0 <= k <= speech.len(),
        k == 0 || (k - 1) * start.hop + start.window <= len,
    ensures
        ({
            let (m, segments) = ready_run(start, speech.take(k));
            &&& knows(start, m, speech, len, base, k)
            &&& resumes_at(start, segments, base)
            &&& m.emitted_end == (if segments.len() == 0 {
                0
            } else {
                segments.last().1
            })
        }),
    decreases k,
{
    if k == 0 {
        assert(0 * start.hop == 0) by (nonlinear_arith);
        assert forall|a: int, b: int| 0 <= a && b < k - 1 implies !#[trigger] lasting_run(
            start,
            speech,
            len,
            a,
            b,
        ) by {
            if lasting_run(start, speech, len, a, b) {
                assert(loud_run(speech, a, b));
            }
        }
        0
    } else {
        let i = k - 1;
        assert(i == 0 || (i - 1) * start.hop + start.window <= len) by (nonlinear_arith)
            requires
                i * start.hop + start.window <= len,
                start.hop >= 1,
        ;
        let base = lemma_ready_knows(start, speech, len, i);
        let (m, segments) = ready_run(start, speech.take(i));
        let one = seq![speech[i]];
        assert(speech.take(k) == speech.take(i) + one);
        law_polling_does_not_matter(start, speech.take(i), one);
        let (next, cuts) = ready_step(m, speech[i]);
        lemma_one_window(m, speech[i]);
        lemma_inspects_since(start, m, speech, len, base, i);
        if cuts.len() > 0 {
            assert(!speech[i]);
            lemma_cut_since(start, m, speech, len, base, i);
            assert((segments + cuts).last() == cuts[0]);
            k
        } else {
            assert(segments + cuts == segments);
            base
        }
    }
}

proof fn lemma_one_base(m: SegmentState, segments: Seq<(int, int)>, one: int, other: int)
    requires
        m.hop >= 1,
        resumes_at(m, segments, one),
        resumes_at(m, segments, other),
    ensures
        one == other,
{
    if segments.len() > 0 {
        assert(one == other) by (nonlinear_arith)
            requires
                (one - 1) * m.hop == (other - 1) * m.hop,
                m.hop >= 1,
        ;
    }
}

/// Law: the speech that waits is, at all times, the span from the start of the first lasting run of
/// loud windows since the last segment was cut to the end of the last one that has ended. Nothing
/// but a cut makes the segmenter forget a run.
pub proof fn law_waiting_speech_spans_the_runs_since_the_cut(
    settings: PauseSegmenterSettings,
    speech: Seq<bool>,
    len: int,
    base: int,
)
    requires
        resumes_at(initial(settings), ready_run(initial(settings), speech).1, base),
        speech.len() == 0 || window_start(initial(settings), speech.len() - 1) + initial(
            settings,
        ).window <= len,
    ensures
        spans_since(
            initial(settings),
            speech,
            len,
            base,
            speech.len() - 1,
            ready_run(initial(settings), speech).0.speech,
        ),
{
    let start = initial(settings);
    law_every_setting_is_valid(settings);
    assert(speech.take(speech.len() as int) == speech);
    let found = lemma_ready_knows(start, speech, len, speech.len() as int);
    lemma_one_base(start, ready_run(start, speech).1, found, base);
}

/// Law: a segment is cut as soon as it is due, and at no other time. Of the windows of a recording,
/// the last one makes a segment due just where it is quiet, the lasting runs of loud windows since
/// the last segment span at least the shortest chunk, and it ends at least a pause after the last
/// of them. The segment ends with that window, and it starts the overlap before the end of the last
/// run that the segment before it was cut after.
pub proof fn law_a_due_segment_is_cut(
    settings: PauseSegmenterSettings,
    speech: Seq<bool>,
    len: int,
    base: int,
    span: Option<(int, int)>,
)
    requires
        speech.len() > 0,
        resumes_at(initial(settings), ready_run(initial(settings), speech.drop_last()).1, base),
        window_start(initial(settings), speech.len() - 1) + initial(settings).window <= len,
        spans_since(initial(settings), speech, len, base, speech.len() - 1, span),
    ensures
        ({
            let start = initial(settings);
            let before = ready_run(start, speech.drop_last()).1;
            let after = ready_run(start, speech).1;
            let end = window_start(start, speech.len() - 1) + start.window;
            let is_due = !speech.last() && match span {
                Some((from, to)) => to - from >= start.min_chunk && end - to >= start.pause,
                None => false,
            };
            &&& !is_due ==> after == before
            &&& is_due ==> after.len() == before.len() + 1 && after.drop_last() == before
                && after.last().1 == end && overlaps_last_run(
                start,
                speech,
                len,
                base,
                after.last().0,
            )
        }),
{
    let start = initial(settings);
    law_every_setting_is_valid(settings);
    let i = speech.len() - 1;
    let front = speech.drop_last();
    assert(speech.take(i) == front);
    assert(i == 0 || (i - 1) * start.hop + start.window <= len) by (nonlinear_arith)
        requires
            i * start.hop + start.window <= len,
            start.hop >= 1,
    ;
    let found = lemma_ready_knows(start, speech, len, i);
    let (m, before) = ready_run(start, front);
    lemma_one_base(start, before, found, base);
    let one = seq![speech[i]];
    assert(speech == front + one);
    law_polling_does_not_matter(start, front, one);
    let (next, cuts) = ready_step(m, speech[i]);
    lemma_one_window(m, speech[i]);
    let after = before + cuts;
    if cuts.len() > 0 {
        assert(after.drop_last() == before);
        assert(after.last() == cuts[0]);
    } else {
        assert(after == before);
    }
    if !speech[i] {
        lemma_joins_since(start, m, speech, len, base, i);
        lemma_one_span(start, speech, len, base, i, span, run_closed(m).speech);
    }
}

/// Law: at every window of a recording it is fixed which windows come after the last segment, and
/// which span their lasting runs of loud windows have. The window in front of them is quiet.
pub proof fn law_every_window_has_a_span(
    settings: PauseSegmenterSettings,
    speech: Seq<bool>,
    len: int,
) -> (found: (int, Option<(int, int)>))
    requires
        speech.len() > 0,
        window_start(initial(settings), speech.len() - 1) + initial(settings).window <= len,
    ensures
        0 <= found.0 < speech.len(),
        found.0 > 0 ==> !speech[found.0 - 1],
        resumes_at(initial(settings), ready_run(initial(settings), speech.drop_last()).1, found.0),
        spans_since(
            initial(settings),
            speech,
            len,
            found.0,
            speech.len() - 1,
            found.1,
        ),
{
    let start = initial(settings);
    law_every_setting_is_valid(settings);
    let i = speech.len() - 1;
    assert(speech.take(i) == speech.drop_last());
    assert(i == 0 || (i - 1) * start.hop + start.window <= len) by (nonlinear_arith)
        requires
            i * start.hop + start.window <= len,
            start.hop >= 1,
    ;
    let base = lemma_ready_knows(start, speech, len, i);
    let m = ready_run(start, speech.drop_last()).0;
    lemma_inspects_since(start, m, speech, len, base, i);
    (base, inspected(m, at_most(m.scan + m.window, len), speech[i]).speech)
}

/// There is one span of the runs.
proof fn lemma_one_span(
    m: SegmentState,
    speech: Seq<bool>,
    len: int,
    base: int,
    limit: int,
    one: Option<(int, int)>,
    other: Option<(int, int)>,
)
    requires
        spans_since(m, speech, len, base, limit, one),
        spans_since(m, speech, len, base, limit, other),
    ensures
        one == other,
{
}

/// Law: the rest of a recording is handed out just where it holds speech that no segment holds yet:
/// a lasting run of loud windows since the last segment, or speech that is known to go on past the
/// end of that segment. It ends with the recording, and starts the overlap before the end of the
/// last run that the last segment was cut after.
pub proof fn law_the_last_speech_is_handed_out(
    settings: PauseSegmenterSettings,
    ready: Seq<bool>,
    tail: Seq<bool>,
    len: int,
    speech_end: int,
    base: int,
)
    requires
        0 <= len,
        resumes_at(initial(settings), ready_run(initial(settings), ready).1, base),
        ready.len() == 0 || window_start(initial(settings), ready.len() - 1) + initial(
            settings,
        ).window <= len,
    ensures
        ({
            let start = initial(settings);
            let (m, segments) = ready_run(start, ready);
            let last_end = if segments.len() == 0 {
                0
            } else {
                segments.last().1
            };
            let waiting = exists|a: int, b: int|
                base <= a && #[trigger] lasting_run(start, ready + tail, len, a, b);
            match finished(m, tail, len, speech_end).1 {
                Some((from, to)) => {
                    &&& waiting || speech_end > last_end
                    &&& to == len
                    &&& exists|next: int|
                        #[trigger] overlaps_last_run(start, ready + tail, len, base, next) && from
                            == at_most(next, len)
                },
                None => !waiting && speech_end <= last_end,
            }
        }),
{
    let start = initial(settings);
    law_every_setting_is_valid(settings);
    let all = ready + tail;
    let k = ready.len() as int;
    assert(all.take(k) == ready);
    let found = lemma_ready_knows(start, all, len, k);
    let (m, segments) = ready_run(start, ready);
    lemma_one_base(start, segments, found, base);
    assert(all.skip(k) == tail);
    lemma_tail_knows(start, m, all, len, base, k);
    let end = tail_run(m, tail, len);
    lemma_joins_since(start, end, all, len, base, all.len() as int);
    assert(overlaps_last_run(start, all, len, base, end.next_start));
    assert forall|a: int, b: int|
        base <= a && #[trigger] lasting_run(start, all, len, a, b) implies b < all.len() by {
        assert(loud_run(all, a, b));
    }
}

proof fn lemma_tail_knows(
    start: SegmentState,
    m: SegmentState,
    speech: Seq<bool>,
    len: int,
    base: int,
    k: int,
)
    requires
        knows(start, m, speech, len, base, k),
    ensures
        knows(
            start,
            tail_run(m, speech.skip(k), len),
            speech,
            len,
            base,
            speech.len() as int,
        ),
        tail_run(m, speech.skip(k), len).emitted_end == m.emitted_end,
    decreases speech.len() - k,
{
    let rest = speech.skip(k);
    if k < speech.len() {
        lemma_inspects_since(start, m, speech, len, base, k);
        assert(rest[0] == speech[k]);
        assert(rest.drop_first() =~= speech.skip(k + 1));
        lemma_tail_knows(
            start,
            SegmentState {
                scan: m.scan + m.hop,
                ..inspected(m, at_most(m.scan + m.window, len), speech[k])
            },
            speech,
            len,
            base,
            k + 1,
        );
    }
}

/// Law: a duration is as many whole samples as fit into it at the rate, and no more than the largest
/// 32-bit number of thousandths of a sample allows.
pub proof fn law_durations_are_whole_samples(rate: u32, ms: u32)
    ensures
        rate * ms <= 0xffff_ffff ==> samples_in(rate as int, ms as int) * 1000 <= rate * ms
            < (samples_in(rate as int, ms as int) + 1) * 1000,
        rate * ms > 0xffff_ffff ==> samples_in(rate as int, ms as int) == 4_294_967,
{
    assert(0 <= rate * ms) by (nonlinear_arith)
        requires
            0 <= rate,
            0 <= ms,
    ;
}

/// Law: the scan looks at windows of 30 milliseconds, one every 10, and no shorter than a sample;
/// the other lengths are those of the settings, but speech lasts at least as long as one window is
/// from the next. It starts at the start of the recording and knows of no speech.
pub proof fn law_lengths_follow_the_settings(settings: PauseSegmenterSettings)
    ensures
        ({
            let m = initial(settings);
            let rate = if settings.sample_rate == 0 {
                1int
            } else {
                settings.sample_rate as int
            };
            &&& m.window == (if samples_in(rate, 30) == 0 {
                1
            } else {
                samples_in(rate, 30)
            })
            &&& m.hop == (if samples_in(rate, 10) == 0 {
                1
            } else {
                samples_in(rate, 10)
            })
            &&& m.min_speech == (if samples_in(rate, settings.min_speech_ms as int) < m.hop {
                m.hop
            } else {
                samples_in(rate, settings.min_speech_ms as int)
            })
            &&& m.pause == samples_in(rate, settings.pause_ms as int)
            &&& m.min_chunk == samples_in(rate, settings.min_chunk_ms as int)
            &&& m.overlap == samples_in(rate, settings.overlap_ms as int)
            &&& m.scan == 0 && m.run is None && m.speech is None
            &&& m.next_start == 0 && m.emitted_end == 0
        }),
{
}

/// Law: the complete windows are all that fit into the recording, one every hop from the scan on.
pub proof fn law_complete_windows_fit(scan: int, window: int, hop: int, len: int, i: int)
    requires
        hop >= 1,
        window >= 0,
        i >= 0,
    ensures
        i < complete_windows(scan, window, hop, len).len() <==> scan + i * hop + window <= len,
        i < complete_windows(scan, window, hop, len).len() ==> complete_windows(
            scan,
            window,
            hop,
            len,
        )[i] == (scan + i * hop, scan + i * hop + window),
    decreases i,
{
    if i == 0 {
        assert(0 * hop == 0) by (nonlinear_arith);
    } else {
        assert(i * hop == (i - 1) * hop + hop) by (nonlinear_arith);
        if scan + window <= len {
            law_complete_windows_fit(scan + hop, window, hop, len, i - 1);
            let rest = complete_windows(scan + hop, window, hop, len);
            let all = complete_windows(scan, window, hop, len);
            assert(all == seq![(scan, scan + window)] + rest);
            assert(all.len() == rest.len() + 1);
            if i < all.len() {
                assert(all[i] == rest[i - 1]);
            }
        } else {
            assert(i * hop >= 0) by (nonlinear_arith)
                requires
                    i >= 0,
                    hop >= 1,
            ;
        }
    }
}

/// Law: the last windows are all that start in the recording, one every hop from the scan on, cut
/// short where the recording ends.
pub proof fn law_last_windows_start_in_the_recording(
    scan: int,
    window: int,
    hop: int,
    len: int,
    i: int,
)
    requires
        hop >= 1,
        i >= 0,
    ensures
        i < all_windows(scan, window, hop, len).len() <==> scan + i * hop < len,
        i < all_windows(scan, window, hop, len).len() ==> all_windows(scan, window, hop, len)[i]
            == (
            scan + i * hop,
            if scan + i * hop + window <= len {
                scan + i * hop + window
            } else {
                len
            },
        ),
    decreases i,
{
    if i == 0 {
        assert(0 * hop == 0) by (nonlinear_arith);
    } else {
        assert(i * hop == (i - 1) * hop + hop) by (nonlinear_arith);
        if scan < len {
            law_last_windows_start_in_the_recording(scan + hop, window, hop, len, i - 1);
            let rest = all_windows(scan + hop, window, hop, len);
            let all = all_windows(scan, window, hop, len);
            assert(all == seq![(scan, at_most(scan + window, len))] + rest);
            assert(all.len() == rest.len() + 1);
            if i < all.len() {
                assert(all[i] == rest[i - 1]);
            }
        } else {
            assert(i * hop >= 0) by (nonlinear_arith)
                requires
                    i >= 0,
                    hop >= 1,
            ;
        }
    }
}

/// Law: the settings of every segmenter give lengths that the scan can work with.
pub proof fn law_every_setting_is_valid(settings: PauseSegmenterSettings)
    ensures
        valid(initial(settings)),
{
    let rate = at_least(settings.sample_rate as int, 1);
    assert(rate * 10 <= rate * 30);
    assert(0 <= rate * settings.min_speech_ms) by (nonlinear_arith)
        requires
            rate >= 1,
            0 <= settings.min_speech_ms,
    ;
    assert(0 <= rate * settings.pause_ms) by (nonlinear_arith)
        requires
            rate >= 1,
            0 <= settings.pause_ms,
    ;
    assert(0 <= rate * settings.min_chunk_ms) by (nonlinear_arith)
        requires
            rate >= 1,
            0 <= settings.min_chunk_ms,
    ;
    assert(0 <= rate * settings.overlap_ms) by (nonlinear_arith)
        requires
            rate >= 1,
            0 <= settings.overlap_ms,
    ;
}

} // verus!
