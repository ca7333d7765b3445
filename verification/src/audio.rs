//! The life of a recording: its state, its samples, and what is handed on when it stops.

use crate::chunking::segmenter::Segment;
use crate::text::str_eq;
use crate::vad::{copy_range, VadOutput};
use vstd::prelude::*;

verus! {

/// State of the audio recording session
#[derive(Clone, Copy, Debug, PartialEq, Eq, Structural)]
pub enum RecordingState {
    Idle,
    Recording,
    Stopping,
}

/// Why a recording could not be started or stopped.
#[derive(Clone, Copy, Debug, PartialEq, Eq, Structural)]
pub enum AudioError {
    AlreadyRecording,
    StillStopping,
    NotRecording,
    AlreadyStopping,
    NoSamples,
}

impl AudioError {
    pub open spec fn text(self) -> Seq<char> {
        match self {
            AudioError::AlreadyRecording => "Recording already in progress"@,
            AudioError::StillStopping => "Previous recording still stopping"@,
            AudioError::NotRecording => "No recording in progress"@,
            AudioError::AlreadyStopping => "Recording already stopping"@,
            AudioError::NoSamples => "No audio samples recorded"@,
        }
    }

    pub fn message(self) -> (r: &'static str)
        ensures
            r@ == self.text(),
    {
        match self {
            AudioError::AlreadyRecording => "Recording already in progress",
            AudioError::StillStopping => "Previous recording still stopping",
            AudioError::NotRecording => "No recording in progress",
            AudioError::AlreadyStopping => "Recording already stopping",
            AudioError::NoSamples => "No audio samples recorded",
        }
    }
}

/// What a recording came to.
#[derive(Debug)]
pub enum RecordedAudio<S> {
    Speech(Vec<S>),
    NoSpeech,
}

/// The whole of a recording, and where the speech in it ends.
#[derive(Debug)]
pub struct FinalRecordingSnapshot<S> {
    pub samples: Vec<S>,
    pub speech_end: usize,
}

/// The samples of a recording that goes on.
pub struct RecordingBuffer<S> {
    pub samples: Vec<S>,
}

impl<S: Copy> RecordingBuffer<S> {
    pub fn new(samples: Vec<S>) -> (r: Self)
        ensures
            r.samples == samples,
    {
        RecordingBuffer { samples }
    }

    /// The samples from `offset` on; none where there are fewer.
    pub fn read_from(&self, offset: usize) -> (r: Vec<S>)
        ensures
            r@ == (if offset <= self.samples@.len() {
                self.samples@.skip(offset as int)
            } else {
                Seq::empty()
            }),
    {
        let count: usize = self.samples.len();
        if offset <= count {
            copy_range(&self.samples, offset, count)
        } else {
            Vec::new()
        }
    }
}

/// Moves the samples out of the buffer, and copies them where a snapshot is wanted.
pub fn take_samples_with_snapshot<S: Copy>(
    samples: &mut Vec<S>,
    retain_snapshot: bool,
) -> (r: (Vec<S>, Option<Vec<S>>))
    ensures
        r.0@ == old(samples)@,
        r.1 is Some == retain_snapshot,
        r.1 matches Some(copy) ==> copy@ == old(samples)@,
        final(samples)@ == Seq::<S>::empty(),
{
    let mut taken: Vec<S> = Vec::new();
    std::mem::swap(&mut taken, samples);
    let snapshot: Option<Vec<S>> = if retain_snapshot {
        Some(copy_range(&taken, 0, taken.len()))
    } else {
        None
    };
    (taken, snapshot)
}

/// What the recording came to after voice activity detection.
pub fn recorded_audio_from_vad<S>(output: VadOutput<S>) -> (r: RecordedAudio<S>)
    ensures
        output.skipped ==> r is NoSpeech,
        !output.skipped ==> (r matches RecordedAudio::Speech(samples) && samples
            == output.samples),
{
    if output.skipped {
        RecordedAudio::NoSpeech
    } else {
        RecordedAudio::Speech(output.samples)
    }
}

/// The state and the samples of the recording session.
pub struct AudioStreamManager<S> {
    state: RecordingState,
    samples: Vec<S>,
    first_sample_seen: bool,
}

/// What a recording session holds, by view.
pub struct SessionView<S> {
    pub state: RecordingState,
    pub samples: Seq<S>,
    pub first_sample_seen: bool,
}

impl<S> View for AudioStreamManager<S> {
    type V = SessionView<S>;

    closed spec fn view(&self) -> SessionView<S> {
        SessionView {
            state: self.state,
            samples: self.samples@,
            first_sample_seen: self.first_sample_seen,
        }
    }
}

/// Where the speech of a recording ends: zero where there is none.
pub open spec fn speech_end(range: Option<Segment>) -> int {
    match range {
        Some(range) => range.end as int,
        None => 0,
    }
}

/// What a stop does to a session, and what comes of it.
pub open spec fn stops<S>(
    before: SessionView<S>,
    after: SessionView<S>,
    r: Result<Seq<S>, AudioError>,
) -> bool {
    match before.state {
        RecordingState::Idle => r == Err::<Seq<S>, AudioError>(AudioError::NotRecording) && after
            == before,
        RecordingState::Stopping => r == Err::<Seq<S>, AudioError>(AudioError::AlreadyStopping)
            && after == before,
        RecordingState::Recording => if before.samples.len() == 0 {
            &&& r == Err::<Seq<S>, AudioError>(AudioError::NoSamples)
            &&& after == (SessionView {
                state: RecordingState::Idle,
                samples: Seq::<S>::empty(),
                ..before
            })
        } else {
            &&& r == Ok::<Seq<S>, AudioError>(before.samples)
            &&& after == (SessionView {
                state: RecordingState::Stopping,
                samples: Seq::<S>::empty(),
                ..before
            })
        },
    }
}

/// A session that has taken in samples from its stream.
pub open spec fn pushed<S>(before: SessionView<S>, data: Seq<S>) -> SessionView<S> {
    SessionView {
        samples: before.samples + data,
        first_sample_seen: before.first_sample_seen || data.len() > 0,
        ..before
    }
}

impl<S: Copy> AudioStreamManager<S> {
    /// A session in which nothing is recorded.
    pub fn new() -> (r: Self)
        ensures
            r@.state == RecordingState::Idle,
            r@.samples == Seq::<S>::empty(),
            !r@.first_sample_seen,
    {
        AudioStreamManager {
            state: RecordingState::Idle,
            samples: Vec::new(),
            first_sample_seen: false,
        }
    }

    pub fn state(&self) -> (r: RecordingState)
        ensures
            r == self@.state,
    {
        self.state
    }

    /// Starts a recording: only an idle session can, and it forgets the samples of the last one.
    /// The session records once [`AudioStreamManager::stream_started`] says that a stream runs.
    pub fn start_recording(&mut self) -> (r: Result<(), AudioError>)
        ensures
            r == (match old(self)@.state {
                RecordingState::Recording => Err::<(), AudioError>(AudioError::AlreadyRecording),
                RecordingState::Stopping => Err::<(), AudioError>(AudioError::StillStopping),
                RecordingState::Idle => Ok(()),
            }),
            r is Err ==> final(self)@ == old(self)@,
            r is Ok ==> final(self)@ == (SessionView {
                state: RecordingState::Idle,
                samples: Seq::<S>::empty(),
                first_sample_seen: false,
            }),
    {
        match self.state {
            RecordingState::Recording => Err(AudioError::AlreadyRecording),
            RecordingState::Stopping => Err(AudioError::StillStopping),
            RecordingState::Idle => {
                self.samples = Vec::new();
                self.first_sample_seen = false;
                Ok(())
            },
        }
    }

    /// The stream of a started recording runs.
    pub fn stream_started(&mut self)
        ensures
            final(self)@ == (SessionView { state: RecordingState::Recording, ..old(self)@ }),
    {
        self.state = RecordingState::Recording;
    }

    /// Takes in samples from the stream. True where they are the first of the recording.
    pub fn push_samples(&mut self, data: &Vec<S>) -> (r: bool)
        ensures
            r == (data@.len() > 0 && !old(self)@.first_sample_seen),
            final(self)@ == pushed(old(self)@, data@),
    {
        let first = data.len() > 0 && !self.first_sample_seen;
        if first {
            self.first_sample_seen = true;
        }
        let mut i: usize = 0;
        let ghost had = self@;
        assert(had.samples + data@.take(0) == had.samples);
        while i < data.len()
            invariant
                i <= data.len(),
                self@ == (SessionView { samples: had.samples + data@.take(i as int), ..had }),
            decreases data.len() - i,
        {
            assert(data@.take(i + 1) == data@.take(i as int).push(data@[i as int]));
            self.samples.push(data[i]);
            assert(self@.samples == had.samples + data@.take(i + 1));
            i += 1;
        }
        assert(data@.take(i as int) == data@);
        first
    }

    /// The samples from `offset` on; none where there are fewer.
    pub fn read_from(&self, offset: usize) -> (r: Vec<S>)
        ensures
            r@ == (if offset <= self@.samples.len() {
                self@.samples.skip(offset as int)
            } else {
                Seq::empty()
            }),
    {
        let count: usize = self.samples.len();
        if offset <= count {
            copy_range(&self.samples, offset, count)
        } else {
            Vec::new()
        }
    }

    /// Stops a recording and takes its samples out. The session is stopping until
    /// [`AudioStreamManager::finish_stop`], or idle at once where it has recorded nothing.
    pub fn stop_recording(&mut self) -> (r: Result<Vec<S>, AudioError>)
        ensures
            match r {
                Ok(samples) => stops(old(self)@, final(self)@, Ok(samples@)),
                Err(error) => stops(old(self)@, final(self)@, Err(error)),
            },
    {
        match self.stop_recording_inner(false) {
            Ok((samples, _)) => Ok(samples),
            Err(error) => Err(error),
        }
    }

    /// Stops a recording as [`AudioStreamManager::stop_recording`] does, with a copy of its samples.
    pub fn stop_recording_with_snapshot(&mut self) -> (r: Result<(Vec<S>, Vec<S>), AudioError>)
        ensures
            match r {
                Ok((samples, snapshot)) => stops(old(self)@, final(self)@, Ok(samples@))
                    && snapshot@ == samples@,
                Err(error) => stops(old(self)@, final(self)@, Err(error)),
            },
    {
        match self.stop_recording_inner(true) {
            Ok((samples, Some(snapshot))) => Ok((samples, snapshot)),
            Ok((samples, None)) => {
                let snapshot = copy_range(&samples, 0, samples.len());
                Ok((samples, snapshot))
            },
            Err(error) => Err(error),
        }
    }

    fn stop_recording_inner(&mut self, retain_snapshot: bool) -> (r: Result<
        (Vec<S>, Option<Vec<S>>),
        AudioError,
    >)
        ensures
            match r {
                Ok((samples, snapshot)) => {
                    &&& stops(old(self)@, final(self)@, Ok(samples@))
                    &&& snapshot is Some == retain_snapshot
                    &&& snapshot matches Some(copy) ==> copy@ == samples@
                },
                Err(error) => stops(old(self)@, final(self)@, Err(error)),
            },
    {
        match self.state {
            RecordingState::Idle => Err(AudioError::NotRecording),
            RecordingState::Stopping => Err(AudioError::AlreadyStopping),
            RecordingState::Recording => {
                self.state = RecordingState::Stopping;
                let taken = take_samples_with_snapshot(&mut self.samples, retain_snapshot);
                if taken.0.is_empty() {
                    self.state = RecordingState::Idle;
                    Err(AudioError::NoSamples)
                } else {
                    Ok(taken)
                }
            },
        }
    }

    /// The end of a stop: the session is idle, and the recording is what voice activity detection
    /// left of it, with the snapshot of the whole where one was taken.
    pub fn finish_stop(&mut self, output: VadOutput<S>, raw_snapshot: Option<Vec<S>>) -> (r: (
        RecordedAudio<S>,
        Option<FinalRecordingSnapshot<S>>,
    ))
        ensures
            final(self)@ == (SessionView { state: RecordingState::Idle, ..old(self)@ }),
            output.skipped ==> r.0 is NoSpeech,
            !output.skipped ==> (r.0 matches RecordedAudio::Speech(samples) && samples
                == output.samples),
            r.1 is Some == raw_snapshot is Some,
            r.1 matches Some(snapshot) ==> raw_snapshot == Some(snapshot.samples)
                && snapshot.speech_end == speech_end(output.speech_range),
    {
        self.state = RecordingState::Idle;
        let end: usize = match output.speech_range {
            Some(range) => range.end,
            None => 0,
        };
        let snapshot: Option<FinalRecordingSnapshot<S>> = match raw_snapshot {
            Some(samples) => Some(FinalRecordingSnapshot { samples, speech_end: end }),
            None => None,
        };
        (recorded_audio_from_vad(output), snapshot)
    }

    /// A stop that fails on the way leaves the session idle.
    pub fn abandon_stop(&mut self)
        ensures
            final(self)@ == (SessionView { state: RecordingState::Idle, ..old(self)@ }),
    {
        self.state = RecordingState::Idle;
    }

    /// Throws the recording away.
    pub fn cancel_recording(&mut self)
        ensures
            final(self)@ == (SessionView {
                state: RecordingState::Idle,
                samples: Seq::<S>::empty(),
                ..old(self)@
            }),
    {
        self.samples.clear();
        self.state = RecordingState::Idle;
    }
}

/// The samples per second of every recording.
pub const SAMPLE_RATE: u32 = 16_000;

/// The first input device that has the name.
pub open spec fn named(names: Seq<Option<String>>, name: Seq<char>) -> Option<int>
    decreases names.len(),
{
    if names.len() == 0 {
        None
    } else {
        match named(names.drop_last(), name) {
            Some(i) => Some(i),
            None => if names.last() matches Some(last) && last@ == name {
                Some(names.len() - 1)
            } else {
                None
            },
        }
    }
}

/// The input device that is configured, by its place among the devices; nothing stands for the
/// default one. The name `default`, a name that no device has and devices that cannot be listed
/// all lead to the default one. A device whose name cannot be read has none.
pub fn select_input_device(device_name: &str, names: Option<&Vec<Option<String>>>) -> (r: Option<
    usize,
>)
    ensures
        (match r {
            Some(i) => Some(i as int),
            None => None,
        }) == (match names {
            Some(names) if device_name@ != "default"@ => named(names@, device_name@),
            _ => None,
        }),
        r matches Some(i) ==> (names matches Some(names) && i < names@.len()),
{
    if str_eq(device_name, "default") {
        return None;
    }
    match names {
        None => None,
        Some(list) => {
            let mut i: usize = 0;
            assert(list@.take(0) =~= Seq::<Option<String>>::empty());
            while i < list.len()
                invariant
                    i <= list.len(),
                    names == Some(list),
                    device_name@ != "default"@,
                    named(list@.take(i as int), device_name@) is None,
                decreases list.len() - i,
            {
                proof {
                    assert(list@.take(i + 1).drop_last() == list@.take(i as int));
                    assert(list@.take(i + 1).last() == list@[i as int]);
                }
                if let Some(name) = &list[i] {
                    if str_eq(name.as_str(), device_name) {
                        proof {
                            lemma_named_stays(list@, device_name@, i + 1);
                        }
                        return Some(i);
                    }
                }
                i += 1;
            }
            assert(list@.take(i as int) == list@);
            None
        },
    }
}

proof fn lemma_named_stays(names: Seq<Option<String>>, name: Seq<char>, n: int)
    requires
        0 <= n <= names.len(),
        named(names.take(n), name) is Some,
    ensures
        named(names, name) == named(names.take(n), name),
    decreases names.len(),
{
    if n < names.len() {
        assert(names.drop_last().take(n) == names.take(n));
        lemma_named_stays(names.drop_last(), name, n);
    } else {
        assert(names.take(n) == names);
    }
}

/// Law: it does not matter in what pieces a stream hands out its samples.
pub proof fn law_pieces_do_not_matter<S>(before: SessionView<S>, a: Seq<S>, b: Seq<S>)
    ensures
        pushed(pushed(before, a), b) == pushed(before, a + b),
{
    assert((before.samples + a) + b =~= before.samples + (a + b));
}

/// Law: a stop hands out every sample that the stream gave since the start, and no other one.
pub proof fn law_a_stop_hands_out_the_recording<S>(
    started: SessionView<S>,
    data: Seq<S>,
    after: SessionView<S>,
    r: Result<Seq<S>, AudioError>,
)
    requires
        started.state == RecordingState::Recording,
        started.samples == Seq::<S>::empty(),
        stops(pushed(started, data), after, r),
    ensures
        data.len() > 0 ==> r == Ok::<Seq<S>, AudioError>(data) && after.state
            == RecordingState::Stopping,
        data.len() == 0 ==> r == Err::<Seq<S>, AudioError>(AudioError::NoSamples) && after.state
            == RecordingState::Idle,
        after.samples == Seq::<S>::empty(),
{
    assert(started.samples + data =~= data);
}

/// Law: the input device that is found is the first one of that name, and one is found wherever a
/// device has it.
pub proof fn law_the_first_device_of_the_name_is_found(names: Seq<Option<String>>, name: Seq<char>)
    ensures
        match named(names, name) {
            Some(i) => {
                &&& 0 <= i < names.len()
                &&& names[i] matches Some(found) && found@ == name
                &&& forall|k: int|
                    0 <= k < i ==> !(#[trigger] names[k] matches Some(other) && other@ == name)
            },
            None => forall|k: int|
                0 <= k < names.len() ==> !(#[trigger] names[k] matches Some(other) && other@
                    == name),
        },
    decreases names.len(),
{
    if names.len() > 0 {
        let front = names.drop_last();
        law_the_first_device_of_the_name_is_found(front, name);
        match named(front, name) {
            Some(i) => {
                assert(names[i] == front[i]);
                assert forall|k: int| 0 <= k < i implies !(#[trigger] names[k] matches Some(other)
                    && other@ == name) by {
                    assert(front[k] == names[k]);
                }
            },
            None => {
                assert forall|k: int| 0 <= k < names.len() - 1 implies !(
                #[trigger] names[k] matches Some(other) && other@ == name) by {
                    assert(front[k] == names[k]);
                }
                assert(names.last() == names[names.len() - 1]);
            },
        }
    }
}

/// Law: only a recording that runs can be stopped. A stop of any other session fails and changes
/// nothing.
pub proof fn law_only_a_running_recording_stops<S>(
    before: SessionView<S>,
    after: SessionView<S>,
    r: Result<Seq<S>, AudioError>,
)
    requires
        stops(before, after, r),
        before.state != RecordingState::Recording,
    ensures
        after == before,
        before.state == RecordingState::Idle ==> r == Err::<Seq<S>, AudioError>(
            AudioError::NotRecording,
        ),
        before.state == RecordingState::Stopping ==> r == Err::<Seq<S>, AudioError>(
            AudioError::AlreadyStopping,
        ),
{
}

/// Law: samples are taken in at the end of the recording, none is lost, and the session remembers
/// that there were some.
pub proof fn law_samples_are_taken_in<S>(before: SessionView<S>, data: Seq<S>)
    ensures
        pushed(before, data).samples == before.samples + data,
        pushed(before, data).state == before.state,
        data.len() > 0 ==> pushed(before, data).first_sample_seen,
        data.len() == 0 ==> pushed(before, data).first_sample_seen == before.first_sample_seen,
{
}

/// Law: what is told of a recording that could not be started or stopped.
pub proof fn law_a_refused_recording_says_why(error: AudioError)
    ensures
        error == AudioError::AlreadyRecording ==> error.text() == "Recording already in progress"@,
        error == AudioError::StillStopping ==> error.text() == "Previous recording still stopping"@,
        error == AudioError::NotRecording ==> error.text() == "No recording in progress"@,
        error == AudioError::AlreadyStopping ==> error.text() == "Recording already stopping"@,
        error == AudioError::NoSamples ==> error.text() == "No audio samples recorded"@,
{
}

} // verus!
