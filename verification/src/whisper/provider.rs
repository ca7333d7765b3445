//! What every speech-to-text provider offers, and how one is run on samples.

use crate::commands::{Place, PlacePath};
use vstd::prelude::*;

verus! {

/// What becomes of an audio file once it was transcribed.
#[derive(Clone, Copy, Debug, PartialEq, Eq, Structural)]
pub enum AudioFileRetention {
    Delete,
    Keep,
}

/// What a provider tells of its model.
#[derive(Debug, PartialEq, Eq)]
pub struct ModelStatusSnapshot {
    pub provider: &'static str,
    pub state: &'static str,
    pub error: Option<String>,
}

/// Why a provider could not be set up or did not do what was asked.
#[derive(Debug, PartialEq, Eq)]
pub struct ProviderError {
    pub message: String,
}

impl ProviderError {
    pub fn new(message: &str) -> (r: Self)
        ensures
            r.message@ == message@,
    {
        ProviderError { message: message.to_owned() }
    }
}

impl ModelStatusSnapshot {
    pub open spec fn says(self, status: ModelStatus) -> bool {
        &&& self.provider@ == status.provider
        &&& self.state@ == status.state
        &&& match (self.error, status.error) {
            (Some(error), Some(message)) => error@ == message,
            (None, None) => true,
            _ => false,
        }
    }
}

/// What a provider tells of its model, by view.
pub struct ModelStatus {
    pub provider: Seq<char>,
    pub state: Seq<char>,
    pub error: Option<Seq<char>>,
}

/// A speech-to-text provider, as far as it is set up and asked without running it. Moments are
/// given in nanoseconds since some fixed moment.
pub trait TranscriptionProvider: Sized {
    /// The provider's name.
    spec fn title(&self) -> Seq<char>;

    /// The path that exists where the provider can be used; none where nothing is needed.
    spec fn needs_path(&self) -> Option<Place>;

    /// The provider can transcribe a recording while it goes on.
    spec fn chunks(&self) -> bool;

    /// The provider at a moment: a model that was kept too long without use is given up.
    spec fn aged(&self, now: u128) -> Self;

    /// What the provider tells of its model.
    spec fn status(&self) -> Option<ModelStatus>;

    /// The provider after its model was unloaded: the same where it keeps none in memory.
    spec fn unloaded(&self) -> Self;

    /// The provider after a recording is complete.
    spec fn completed(&self) -> Self;

    /// The provider once it is asked to prepare, and the path of the model that it then has to
    /// load.
    spec fn preparing(&self, now: u128) -> (Self, Option<Seq<char>>);

    /// The provider after its model was loaded, or could not be.
    spec fn prepared(&self, result: Result<(), String>, now: u128) -> Self;

    fn name(&self) -> (r: &'static str)
        ensures
            r@ == self.title(),
    ;

    fn required_path(&self) -> (r: Option<PlacePath<'_>>)
        ensures
            match (r, self.needs_path()) {
                (Some(path), Some(place)) => path.is(place),
                (None, None) => true,
                _ => false,
            },
    ;

    fn supports_chunking(&self) -> (r: bool)
        ensures
            r == self.chunks(),
    ;

    fn model_status(&mut self, now: u128) -> (r: Option<ModelStatusSnapshot>)
        ensures
            *final(self) == old(self).aged(now),
            match (r, old(self).aged(now).status()) {
                (Some(snapshot), Some(status)) => snapshot.says(status),
                (None, None) => true,
                _ => false,
            },
    ;

    fn unload_model(&mut self) -> (r: Result<(), ProviderError>)
        ensures
            r is Ok,
            *final(self) == old(self).unloaded(),
    ;

    fn recording_complete(&mut self) -> (r: Result<(), ProviderError>)
        ensures
            r is Ok,
            *final(self) == old(self).completed(),
    ;

    /// Asks the provider to prepare. It names the model that is to be loaded, if one is.
    fn prepare(&mut self, now: u128) -> (r: Option<String>)
        ensures
            *final(self) == old(self).preparing(now).0,
            (match r {
                Some(path) => Some(path@),
                None => None,
            }) == old(self).preparing(now).1,
    ;

    /// The model that the provider named was loaded, or could not be.
    fn finish_prepare(&mut self, result: Result<(), String>, now: u128)
        ensures
            *final(self) == old(self).prepared(result, now),
    ;
}

/// An argument that a provider's program is run with.
#[derive(Debug, PartialEq, Eq)]
pub enum Argument<A, T> {
    /// The path of the audio file, as the system holds it.
    Audio(A),
    Text(T),
}

impl<A> View for Argument<A, String> {
    type V = Argument<A, Seq<char>>;

    open spec fn view(&self) -> Argument<A, Seq<char>> {
        match *self {
            Argument::Audio(path) => Argument::Audio(path),
            Argument::Text(text) => Argument::Text(text@),
        }
    }
}

/// The views of arguments.
pub open spec fn argument_views<A>(args: Seq<Argument<A, String>>) -> Seq<Argument<A, Seq<char>>> {
    Seq::new(args.len(), |i: int| args[i]@)
}

/// Texts as arguments.
pub open spec fn texts<A>(ts: Seq<Seq<char>>) -> Seq<Argument<A, Seq<char>>> {
    Seq::new(ts.len(), |i: int| Argument::Text(ts[i]))
}

/// Where the transcription of samples through an audio file stands.
pub enum SampleState<T> {
    Begin,
    Writing,
    Transcribing,
    /// The file is being removed, and then this is the result.
    Removing { result: Result<T, T> },
    Finished,
}

/// What is to be done to transcribe samples through an audio file.
#[derive(Debug, PartialEq, Eq)]
pub enum SampleAction<T> {
    /// Write the samples to a new file.
    WriteFile,
    /// Transcribe the file.
    TranscribeFile,
    /// Remove the file.
    RemoveFile,
    /// The transcription is over; this is its text, or the message of what failed.
    Finish { result: Result<T, T> },
}

/// What came of it.
#[derive(Debug, PartialEq, Eq)]
pub enum SampleEvent<T> {
    Done,
    /// The file could not be written.
    WriteFailed { error: T },
    Transcribed { result: Result<T, T> },
}

/// The text or the message of a result, by view.
pub open spec fn result_view(r: Result<String, String>) -> Result<Seq<char>, Seq<char>> {
    match r {
        Ok(text) => Ok(text@),
        Err(error) => Err(error@),
    }
}

impl View for SampleState<String> {
    type V = SampleState<Seq<char>>;

    open spec fn view(&self) -> SampleState<Seq<char>> {
        match *self {
            SampleState::Begin => SampleState::Begin,
            SampleState::Writing => SampleState::Writing,
            SampleState::Transcribing => SampleState::Transcribing,
            SampleState::Removing { result } => SampleState::Removing {
                result: result_view(result),
            },
            SampleState::Finished => SampleState::Finished,
        }
    }
}

impl View for SampleAction<String> {
    type V = SampleAction<Seq<char>>;

    open spec fn view(&self) -> SampleAction<Seq<char>> {
        match *self {
            SampleAction::WriteFile => SampleAction::WriteFile,
            SampleAction::TranscribeFile => SampleAction::TranscribeFile,
            SampleAction::RemoveFile => SampleAction::RemoveFile,
            SampleAction::Finish { result } => SampleAction::Finish {
                result: result_view(result),
            },
        }
    }
}

impl View for SampleEvent<String> {
    type V = SampleEvent<Seq<char>>;

    open spec fn view(&self) -> SampleEvent<Seq<char>> {
        match *self {
            SampleEvent::Done => SampleEvent::Done,
            SampleEvent::WriteFailed { error } => SampleEvent::WriteFailed { error: error@ },
            SampleEvent::Transcribed { result } => SampleEvent::Transcribed {
                result: result_view(result),
            },
        }
    }
}

/// The event is one that the state waits for.
pub open spec fn sample_expects(state: SampleState<Seq<char>>, event: SampleEvent<Seq<char>>) -> bool {
    match state {
        SampleState::Writing => event is Done || event is WriteFailed,
        SampleState::Transcribing => event is Transcribed,
        SampleState::Finished => false,
        _ => event is Done,
    }
}

/// The end: the file goes unless it is to be kept.
pub open spec fn sample_end(retention: AudioFileRetention, result: Result<Seq<char>, Seq<char>>) -> (
    SampleState<Seq<char>>,
    SampleAction<Seq<char>>,
) {
    match retention {
        AudioFileRetention::Delete => (SampleState::Removing { result }, SampleAction::RemoveFile),
        AudioFileRetention::Keep => (SampleState::Finished, SampleAction::Finish { result }),
    }
}

/// One step of the transcription of samples through an audio file.
pub open spec fn sample_step(
    retention: AudioFileRetention,
    state: SampleState<Seq<char>>,
    event: SampleEvent<Seq<char>>,
) -> (SampleState<Seq<char>>, SampleAction<Seq<char>>) {
    match (state, event) {
        (SampleState::Begin, _) => (SampleState::Writing, SampleAction::WriteFile),
        (SampleState::Writing, SampleEvent::WriteFailed { error }) => sample_end(
            retention,
            Err(error),
        ),
        (SampleState::Writing, _) => (SampleState::Transcribing, SampleAction::TranscribeFile),
        (SampleState::Transcribing, SampleEvent::Transcribed { result }) => sample_end(
            retention,
            result,
        ),
        (SampleState::Removing { result }, _) => (
            SampleState::Finished,
            SampleAction::Finish { result },
        ),
        _ => (SampleState::Finished, SampleAction::Finish { result: Err(Seq::empty()) }),
    }
}

/// The transcription of samples through an audio file, for providers that read files.
pub struct SampleFlow {
    retention: AudioFileRetention,
    state: SampleState<String>,
}

impl SampleFlow {
    pub closed spec fn retention(&self) -> AudioFileRetention {
        self.retention
    }

    pub closed spec fn state(&self) -> SampleState<Seq<char>> {
        self.state@
    }

    pub fn new(retention: AudioFileRetention) -> (r: Self)
        ensures
            r.retention() == retention,
            r.state() == SampleState::<Seq<char>>::Begin,
    {
        SampleFlow { retention, state: SampleState::Begin }
    }

    fn end(retention: AudioFileRetention, result: Result<String, String>) -> (r: (
        Self,
        SampleAction<String>,
    ))
        ensures
            r.0.retention() == retention,
            (r.0.state(), r.1@) == sample_end(retention, result_view(result)),
    {
        match retention {
            AudioFileRetention::Delete => (
                SampleFlow { retention, state: SampleState::Removing { result } },
                SampleAction::RemoveFile,
            ),
            AudioFileRetention::Keep => (
                SampleFlow { retention, state: SampleState::Finished },
                SampleAction::Finish { result },
            ),
        }
    }

    /// The next step.
    pub fn step(self, event: SampleEvent<String>) -> (r: (Self, SampleAction<String>))
        requires
            sample_expects(self.state(), event@),
        ensures
            (r.0.state(), r.1@) == sample_step(self.retention(), self.state(), event@),
            r.0.retention() == self.retention(),
    {
        let SampleFlow { retention, state } = self;
        match (state, event) {
            (SampleState::Begin, _) => (
                SampleFlow { retention, state: SampleState::Writing },
                SampleAction::WriteFile,
            ),
            (SampleState::Writing, SampleEvent::WriteFailed { error }) => SampleFlow::end(
                retention,
                Err(error),
            ),
            (SampleState::Writing, _) => (
                SampleFlow { retention, state: SampleState::Transcribing },
                SampleAction::TranscribeFile,
            ),
            (SampleState::Transcribing, SampleEvent::Transcribed { result }) => SampleFlow::end(
                retention,
                result,
            ),
            (SampleState::Removing { result }, _) => (
                SampleFlow { retention, state: SampleState::Finished },
                SampleAction::Finish { result },
            ),
            _ => {
                let none = String::new();
                assert(none@ =~= Seq::empty());
                (
                    SampleFlow { retention, state: SampleState::Finished },
                    SampleAction::Finish { result: Err(none) },
                )
            },
        }
    }
}

/// Law: a file that is not to be kept is removed before the transcription ends, whether it
/// succeeded or not and whether or not the file could be written, and one that is to be kept is
/// never removed. The result is the transcription's own.
pub proof fn law_files_are_kept_or_removed(
    retention: AudioFileRetention,
    state: SampleState<Seq<char>>,
    event: SampleEvent<Seq<char>>,
)
    requires
        sample_expects(state, event),
    ensures
        ({
            let (next, action) = sample_step(retention, state, event);
            &&& retention == AudioFileRetention::Keep ==> !(action is RemoveFile)
            &&& retention == AudioFileRetention::Delete ==> (action is Finish <==> state
                is Removing)
            &&& next is Removing <==> action is RemoveFile
            &&& state matches SampleState::Removing { result } ==> action == (SampleAction::<
                Seq<char>,
            >::Finish { result })
            &&& event matches SampleEvent::Transcribed { result } ==> next == (SampleState::<
                Seq<char>,
            >::Removing { result }) || action == (SampleAction::<Seq<char>>::Finish { result })
        }),
{
}

/// Law: samples are transcribed through a file. The file is written, then transcribed, and the
/// result of that, or the message of a file that could not be written, is the result.
pub proof fn law_samples_go_through_a_file(
    retention: AudioFileRetention,
    result: Result<Seq<char>, Seq<char>>,
    error: Seq<char>,
)
    ensures
        ({
            let (writing, first) = sample_step(
                retention,
                SampleState::Begin,
                SampleEvent::<Seq<char>>::Done,
            );
            let (transcribing, second) = sample_step(retention, writing, SampleEvent::Done);
            let (after, third) = sample_step(
                retention,
                transcribing,
                SampleEvent::Transcribed { result },
            );
            let (unwritten, failed) = sample_step(
                retention,
                writing,
                SampleEvent::WriteFailed { error },
            );
            &&& first is WriteFile
            &&& second is TranscribeFile
            &&& retention == AudioFileRetention::Keep ==> third == (SampleAction::Finish { result })
                && failed == (SampleAction::<Seq<char>>::Finish { result: Err(error) })
            &&& retention == AudioFileRetention::Delete ==> third is RemoveFile && failed
                is RemoveFile && sample_step(retention, after, SampleEvent::Done).1 == (
            SampleAction::Finish { result }) && sample_step(
                retention,
                unwritten,
                SampleEvent::Done,
            ).1 == (SampleAction::<Seq<char>>::Finish { result: Err(error) })
        }),
{
}

} // verus!
