//! What the daemon does with a command: the order of its steps, what it does when one of them
//! fails, and where a cancellation takes effect.
//!
//! Each kind of command has a flow. Its driver performs the action that the flow asks for, reports
//! what came of it as an event, and gets the next action, until there is nothing left to do. The
//! types are generic in the text that they carry: the flows work on `String`, their specifications
//! on sequences of characters.

use crate::api::{processed, released, ApiCommandSource, AppLifecycle, ProcessingResetGuard};
use crate::cancellation::{committed, CancellationToken, SessionStates, TokenState};
use crate::whisper::provider::AudioFileRetention;
use vstd::prelude::*;

verus! {

/// The part of the work that failed, as traces name it.
#[derive(Clone, Copy, Debug, PartialEq, Eq, Structural)]
pub enum ErrorPhase {
    AudioStart,
    AudioStop,
    Transcription,
}

impl ErrorPhase {
    pub open spec fn name(self) -> Seq<char> {
        match self {
            ErrorPhase::AudioStart => "audio_start"@,
            ErrorPhase::AudioStop => "audio_stop"@,
            ErrorPhase::Transcription => "transcription"@,
        }
    }

    pub fn as_str(self) -> (r: &'static str)
        ensures
            r@ == self.name(),
    {
        match self {
            ErrorPhase::AudioStart => "audio_start",
            ErrorPhase::AudioStop => "audio_stop",
            ErrorPhase::Transcription => "transcription",
        }
    }
}

/// A failure that is traced: the part of the work and its message.
#[derive(Debug, PartialEq, Eq)]
pub struct Failure<T> {
    pub phase: ErrorPhase,
    pub cause: T,
}

/// What a stopped recording holds.
#[derive(Debug, PartialEq, Eq)]
pub enum StoppedAudio<T> {
    Speech,
    NoSpeech,
    Failed { error: T },
}

/// What the driver of a flow is to do.
#[derive(Debug, PartialEq, Eq)]
pub enum DaemonAction<T> {
    /// Show that the daemon records.
    ShowRecording,
    /// Start the recording.
    StartAudio,
    /// Let the provider load its model.
    PrepareProvider,
    /// Start to transcribe in chunks.
    StartChunking,
    /// Say that the provider cannot transcribe in chunks.
    WarnChunkingUnsupported,
    /// Stop the recording, with a snapshot of all of it or without one.
    StopAudio { snapshot: bool },
    /// Throw the recording away.
    CancelAudio,
    /// End the transcription in chunks without its text.
    CancelChunking,
    /// Show that the recording is processed.
    ShowProcessing,
    /// Finish the transcription in chunks.
    FinishChunking,
    /// Transcribe the recording as a whole.
    Transcribe { retention: AudioFileRetention },
    /// Trace that there was nothing to transcribe.
    TraceNoSpeech,
    /// Put the text where the user types.
    Inject { text: T },
    /// Show that the work is done.
    ShowComplete { text: T },
    /// Show an error, and trace the failure behind it.
    ShowError { message: T, failure: Option<Failure<T>> },
    /// Show that the utterance was cancelled.
    ShowCancelled,
    /// There is nothing left to do.
    Finish,
}

/// What came of an action.
#[derive(Debug, PartialEq, Eq)]
pub enum DaemonEvent<T> {
    /// It was performed.
    Done,
    /// It failed.
    Failed { error: T },
    /// The recording was stopped.
    Stopped { audio: StoppedAudio<T> },
    /// It gave a text.
    Text { text: T },
}

impl View for Failure<String> {
    type V = Failure<Seq<char>>;

    open spec fn view(&self) -> Failure<Seq<char>> {
        Failure { phase: self.phase, cause: self.cause@ }
    }
}

impl View for StoppedAudio<String> {
    type V = StoppedAudio<Seq<char>>;

    open spec fn view(&self) -> StoppedAudio<Seq<char>> {
        match *self {
            StoppedAudio::Speech => StoppedAudio::Speech,
            StoppedAudio::NoSpeech => StoppedAudio::NoSpeech,
            StoppedAudio::Failed { error } => StoppedAudio::Failed { error: error@ },
        }
    }
}

impl View for DaemonAction<String> {
    type V = DaemonAction<Seq<char>>;

    open spec fn view(&self) -> DaemonAction<Seq<char>> {
        match *self {
            DaemonAction::ShowRecording => DaemonAction::ShowRecording,
            DaemonAction::StartAudio => DaemonAction::StartAudio,
            DaemonAction::PrepareProvider => DaemonAction::PrepareProvider,
            DaemonAction::StartChunking => DaemonAction::StartChunking,
            DaemonAction::WarnChunkingUnsupported => DaemonAction::WarnChunkingUnsupported,
            DaemonAction::StopAudio { snapshot } => DaemonAction::StopAudio { snapshot },
            DaemonAction::CancelAudio => DaemonAction::CancelAudio,
            DaemonAction::CancelChunking => DaemonAction::CancelChunking,
            DaemonAction::ShowProcessing => DaemonAction::ShowProcessing,
            DaemonAction::FinishChunking => DaemonAction::FinishChunking,
            DaemonAction::Transcribe { retention } => DaemonAction::Transcribe { retention },
            DaemonAction::TraceNoSpeech => DaemonAction::TraceNoSpeech,
            DaemonAction::Inject { text } => DaemonAction::Inject { text: text@ },
            DaemonAction::ShowComplete { text } => DaemonAction::ShowComplete { text: text@ },
            DaemonAction::ShowError { message, failure } => DaemonAction::ShowError {
                message: message@,
                failure: match failure {
                    Some(failure) => Some(failure@),
                    None => None,
                },
            },
            DaemonAction::ShowCancelled => DaemonAction::ShowCancelled,
            DaemonAction::Finish => DaemonAction::Finish,
        }
    }
}

impl View for DaemonEvent<String> {
    type V = DaemonEvent<Seq<char>>;

    open spec fn view(&self) -> DaemonEvent<Seq<char>> {
        match *self {
            DaemonEvent::Done => DaemonEvent::Done,
            DaemonEvent::Failed { error } => DaemonEvent::Failed { error: error@ },
            DaemonEvent::Stopped { audio } => DaemonEvent::Stopped { audio: audio@ },
            DaemonEvent::Text { text } => DaemonEvent::Text { text: text@ },
        }
    }
}

/// Where the flow of a stop stands: the action that it waits for.
pub enum StopState<T> {
    Begin,
    /// The chunking session of a cancelled utterance is being ended; the recording is next.
    CancellingChunks,
    /// The recording of a cancelled utterance is being thrown away.
    CancellingAudio,
    StoppingAudio,
    /// The chunking session is being ended after the recording was cancelled on the way.
    AbandoningChunks,
    ShowingProcessing,
    FinishingChunks,
    Transcribing,
    /// The chunking session is being ended, and then it is told that there was no speech.
    DroppingChunks,
    /// It is traced that there was no speech.
    TracingNoSpeech,
    /// The chunking session is being ended, and then a failure is told.
    DroppingChunksAfter { error: T },
    Injecting { text: T },
    TellingInjectionFailed { text: T },
    Completing,
    Telling,
    TellingCancelled,
    Finished,
}

impl View for StopState<String> {
    type V = StopState<Seq<char>>;

    open spec fn view(&self) -> StopState<Seq<char>> {
        match *self {
            StopState::Begin => StopState::Begin,
            StopState::CancellingChunks => StopState::CancellingChunks,
            StopState::CancellingAudio => StopState::CancellingAudio,
            StopState::StoppingAudio => StopState::StoppingAudio,
            StopState::AbandoningChunks => StopState::AbandoningChunks,
            StopState::ShowingProcessing => StopState::ShowingProcessing,
            StopState::FinishingChunks => StopState::FinishingChunks,
            StopState::Transcribing => StopState::Transcribing,
            StopState::DroppingChunks => StopState::DroppingChunks,
            StopState::TracingNoSpeech => StopState::TracingNoSpeech,
            StopState::DroppingChunksAfter { error } => StopState::DroppingChunksAfter {
                error: error@,
            },
            StopState::Injecting { text } => StopState::Injecting { text: text@ },
            StopState::TellingInjectionFailed { text } => StopState::TellingInjectionFailed {
                text: text@,
            },
            StopState::Completing => StopState::Completing,
            StopState::Telling => StopState::Telling,
            StopState::TellingCancelled => StopState::TellingCancelled,
            StopState::Finished => StopState::Finished,
        }
    }
}

/// The flow of a stop by view.
pub struct StopView {
    pub token: CancellationToken,
    pub auto_paste: bool,
    pub retention: AudioFileRetention,
    /// A chunking session is open.
    pub chunking: bool,
    pub state: StopState<Seq<char>>,
}

pub type Text = Seq<char>;

/// The flow in another state.
pub open spec fn to(f: StopView, state: StopState<Text>) -> StopView {
    StopView { state, ..f }
}

/// The flow once its chunking session is closed, in another state.
pub open spec fn closing(f: StopView, state: StopState<Text>) -> StopView {
    StopView { state, chunking: false, ..f }
}

/// The end of an utterance that was cancelled.
pub open spec fn tell_cancelled(f: StopView) -> (StopView, DaemonAction<Text>) {
    (to(f, StopState::TellingCancelled), DaemonAction::ShowCancelled)
}

/// The end of an utterance without a text: its message, unless it was cancelled.
pub open spec fn tell(
    f: StopView,
    cancelled: bool,
    message: Text,
    failure: Option<Failure<Text>>,
) -> (StopView, DaemonAction<Text>) {
    if cancelled {
        tell_cancelled(f)
    } else {
        (to(f, StopState::Telling), DaemonAction::ShowError { message, failure })
    }
}

pub open spec fn no_speech_message() -> Text {
    "No speech detected"@
}

pub open spec fn stop_failed(f: StopView, cancelled: bool, error: Text) -> (
    StopView,
    DaemonAction<Text>,
) {
    tell(
        f,
        cancelled,
        "Failed to stop recording: "@ + error,
        Some(Failure { phase: ErrorPhase::AudioStop, cause: error }),
    )
}

/// What follows the text of an utterance. Where the text is not empty and the session could be
/// committed (`active`), it is delivered.
pub open spec fn deliver(f: StopView, text: Text, active: bool, cancelled: bool) -> (
    StopView,
    DaemonAction<Text>,
) {
    if text.len() == 0 {
        tell(f, cancelled, no_speech_message(), None)
    } else if !active {
        tell_cancelled(f)
    } else if f.auto_paste {
        (to(f, StopState::Injecting { text }), DaemonAction::Inject { text })
    } else {
        (to(f, StopState::Completing), DaemonAction::ShowComplete { text })
    }
}

/// The event is one that the state waits for.
pub open spec fn stop_expects(state: StopState<Text>, event: DaemonEvent<Text>) -> bool {
    match state {
        StopState::StoppingAudio => event is Stopped,
        StopState::FinishingChunks => event is Text || event is Failed,
        StopState::Transcribing => event is Text || event is Failed,
        StopState::Injecting { .. } => event is Done || event is Failed,
        StopState::Finished => false,
        _ => event is Done,
    }
}

/// The step commits the session: a text that is not empty has come.
pub open spec fn commits(f: StopView, event: DaemonEvent<Text>) -> bool {
    match (f.state, event) {
        (StopState::FinishingChunks, DaemonEvent::Text { text }) => text.len() > 0,
        (StopState::Transcribing, DaemonEvent::Text { text }) => text.len() > 0,
        _ => false,
    }
}

/// One step of a stop, where `session` is what has become of the utterance.
pub open spec fn stop_step(f: StopView, session: TokenState, event: DaemonEvent<Text>) -> (
    StopView,
    DaemonAction<Text>,
) {
    let cancelled = session == TokenState::Cancelled;
    let active = session == TokenState::Active;
    match (f.state, event) {
        (StopState::Begin, _) => if cancelled {
            if f.chunking {
                (closing(f, StopState::CancellingChunks), DaemonAction::CancelChunking)
            } else {
                (to(f, StopState::CancellingAudio), DaemonAction::CancelAudio)
            }
        } else {
            (to(f, StopState::StoppingAudio), DaemonAction::StopAudio { snapshot: f.chunking })
        },
        (StopState::CancellingChunks, _) => (
            to(f, StopState::CancellingAudio),
            DaemonAction::CancelAudio,
        ),
        (StopState::CancellingAudio, _) => tell_cancelled(f),
        (StopState::StoppingAudio, DaemonEvent::Stopped { audio }) => if cancelled {
            if f.chunking {
                (closing(f, StopState::AbandoningChunks), DaemonAction::CancelChunking)
            } else {
                tell_cancelled(f)
            }
        } else {
            match audio {
                StoppedAudio::Speech => (
                    to(f, StopState::ShowingProcessing),
                    DaemonAction::ShowProcessing,
                ),
                StoppedAudio::NoSpeech => if f.chunking {
                    (closing(f, StopState::DroppingChunks), DaemonAction::CancelChunking)
                } else {
                    (to(f, StopState::TracingNoSpeech), DaemonAction::TraceNoSpeech)
                },
                StoppedAudio::Failed { error } => if f.chunking {
                    (
                        closing(f, StopState::DroppingChunksAfter { error }),
                        DaemonAction::CancelChunking,
                    )
                } else {
                    stop_failed(f, cancelled, error)
                },
            }
        },
        (StopState::AbandoningChunks, _) => tell_cancelled(f),
        (StopState::ShowingProcessing, _) => if f.chunking {
            (closing(f, StopState::FinishingChunks), DaemonAction::FinishChunking)
        } else {
            (
                to(f, StopState::Transcribing),
                DaemonAction::Transcribe { retention: f.retention },
            )
        },
        (StopState::FinishingChunks, DaemonEvent::Text { text }) => deliver(
            f,
            text,
            active,
            cancelled,
        ),
        (StopState::FinishingChunks, _) => (
            to(f, StopState::Transcribing),
            DaemonAction::Transcribe { retention: f.retention },
        ),
        (StopState::Transcribing, DaemonEvent::Text { text }) => deliver(
            f,
            text,
            active,
            cancelled,
        ),
        (StopState::Transcribing, DaemonEvent::Failed { error }) => tell(
            f,
            cancelled,
            "Transcription failed: "@ + error,
            Some(Failure { phase: ErrorPhase::Transcription, cause: error }),
        ),
        (StopState::DroppingChunks, _) => (
            to(f, StopState::TracingNoSpeech),
            DaemonAction::TraceNoSpeech,
        ),
        (StopState::TracingNoSpeech, _) => tell(f, cancelled, no_speech_message(), None),
        (StopState::DroppingChunksAfter { error }, _) => stop_failed(f, cancelled, error),
        (StopState::Injecting { text }, DaemonEvent::Failed { error }) => (
            to(f, StopState::TellingInjectionFailed { text }),
            DaemonAction::ShowError {
                message: "Text injection failed: "@ + error
                    + ". Transcript may be on clipboard if paste fallback copied it."@,
                failure: None,
            },
        ),
        (StopState::Injecting { text }, _) => (
            to(f, StopState::Completing),
            DaemonAction::ShowComplete { text },
        ),
        (StopState::TellingInjectionFailed { text }, _) => (
            to(f, StopState::Completing),
            DaemonAction::ShowComplete { text },
        ),
        (StopState::Telling, _) => if cancelled {
            tell_cancelled(f)
        } else {
            (to(f, StopState::Finished), DaemonAction::Finish)
        },
        _ => (to(f, StopState::Finished), DaemonAction::Finish),
    }
}

/// The flow of a stop.
pub struct StopFlow {
    token: CancellationToken,
    auto_paste: bool,
    retention: AudioFileRetention,
    chunking: bool,
    state: StopState<String>,
}

impl View for StopFlow {
    type V = StopView;

    closed spec fn view(&self) -> StopView {
        StopView {
            token: self.token,
            auto_paste: self.auto_paste,
            retention: self.retention,
            chunking: self.chunking,
            state: self.state@,
        }
    }
}

/// What becomes of audio files: they are kept where they are not deleted.
pub fn retention_for(delete_audio_files: bool) -> (r: AudioFileRetention)
    ensures
        r == (if delete_audio_files {
            AudioFileRetention::Delete
        } else {
            AudioFileRetention::Keep
        }),
{
    if delete_audio_files {
        AudioFileRetention::Delete
    } else {
        AudioFileRetention::Keep
    }
}

fn two(first: &str, second: &str) -> (r: String)
    ensures
        r@ == first@ + second@,
{
    let mut out = first.to_owned();
    out.append(second);
    out
}

impl StopFlow {
    /// The flow of a stop; `chunking` says whether a chunking session is open.
    pub fn new(
        token: CancellationToken,
        auto_paste: bool,
        delete_audio_files: bool,
        chunking: bool,
    ) -> (r: Self)
        ensures
            r@ == (StopView {
                token,
                auto_paste,
                retention: if delete_audio_files {
                    AudioFileRetention::Delete
                } else {
                    AudioFileRetention::Keep
                },
                chunking,
                state: StopState::Begin,
            }),
    {
        StopFlow {
            token,
            auto_paste,
            retention: retention_for(delete_audio_files),
            chunking,
            state: StopState::Begin,
        }
    }

    fn to(self, state: StopState<String>) -> (r: Self)
        ensures
            r@ == to(self@, state@),
    {
        StopFlow { state, ..self }
    }

    fn closing(self, state: StopState<String>) -> (r: Self)
        ensures
            r@ == closing(self@, state@),
    {
        StopFlow { state, chunking: false, ..self }
    }

    fn tell_cancelled(self) -> (r: (Self, DaemonAction<String>))
        ensures
            (r.0@, r.1@) == tell_cancelled(self@),
    {
        (self.to(StopState::TellingCancelled), DaemonAction::ShowCancelled)
    }

    fn tell(self, cancelled: bool, message: String, failure: Option<Failure<String>>) -> (r: (
        Self,
        DaemonAction<String>,
    ))
        ensures
            (r.0@, r.1@) == tell(
                self@,
                cancelled,
                message@,
                match failure {
                    Some(failure) => Some(failure@),
                    None => None,
                },
            ),
    {
        if cancelled {
            self.tell_cancelled()
        } else {
            (self.to(StopState::Telling), DaemonAction::ShowError { message, failure })
        }
    }

    fn stop_failed(self, cancelled: bool, error: String) -> (r: (Self, DaemonAction<String>))
        ensures
            (r.0@, r.1@) == stop_failed(self@, cancelled, error@),
    {
        let message = two("Failed to stop recording: ", error.as_str());
        self.tell(
            cancelled,
            message,
            Some(Failure { phase: ErrorPhase::AudioStop, cause: error }),
        )
    }

    fn transcribe(self) -> (r: (Self, DaemonAction<String>))
        ensures
            (r.0@, r.1@) == (
                to(self@, StopState::Transcribing),
                DaemonAction::<Text>::Transcribe { retention: self@.retention },
            ),
    {
        let retention = self.retention;
        (self.to(StopState::Transcribing), DaemonAction::Transcribe { retention })
    }

    fn deliver(self, sessions: &mut SessionStates, text: String) -> (r: (
        Self,
        DaemonAction<String>,
    ))
        requires
            self@.token.known(old(sessions)@),
        ensures
            (r.0@, r.1@) == deliver(
                self@,
                text@,
                old(sessions)@[self@.token.id()] == TokenState::Active,
                old(sessions)@[self@.token.id()] == TokenState::Cancelled,
            ),
            final(sessions)@ == (if text@.len() > 0 {
                committed(old(sessions)@, self@.token.id())
            } else {
                old(sessions)@
            }),
    {
        if text.as_str().is_empty() {
            let cancelled = self.token.is_cancelled(sessions);
            return self.tell(cancelled, "No speech detected".to_owned(), None);
        }
        if !self.token.try_commit(sessions) {
            return self.tell_cancelled();
        }
        if self.auto_paste {
            let copy = text.clone();
            (self.to(StopState::Injecting { text: copy }), DaemonAction::Inject { text })
        } else {
            (self.to(StopState::Completing), DaemonAction::ShowComplete { text })
        }
    }

    /// The next step. A text that is not empty commits the session, so that from then on it can no
    /// longer be cancelled; if it was cancelled before, the text is dropped.
    pub fn step(self, sessions: &mut SessionStates, event: DaemonEvent<String>) -> (r: (
        Self,
        DaemonAction<String>,
    ))
        requires
            self@.token.known(old(sessions)@),
            stop_expects(self@.state, event@),
        ensures
            (r.0@, r.1@) == stop_step(self@, old(sessions)@[self@.token.id()], event@),
            final(sessions)@ == (if commits(self@, event@) {
                committed(old(sessions)@, self@.token.id())
            } else {
                old(sessions)@
            }),
    {
        let cancelled = self.token.is_cancelled(sessions);
        let StopFlow { token, auto_paste, retention, chunking, state } = self;
        let flow = StopFlow { token, auto_paste, retention, chunking, state: StopState::Begin };
        match (state, event) {
            (StopState::Begin, _) => {
                if cancelled {
                    if chunking {
                        (flow.closing(StopState::CancellingChunks), DaemonAction::CancelChunking)
                    } else {
                        (flow.to(StopState::CancellingAudio), DaemonAction::CancelAudio)
                    }
                } else {
                    (
                        flow.to(StopState::StoppingAudio),
                        DaemonAction::StopAudio { snapshot: chunking },
                    )
                }
            },
            (StopState::CancellingChunks, _) => (
                flow.to(StopState::CancellingAudio),
                DaemonAction::CancelAudio,
            ),
            (StopState::CancellingAudio, _) => flow.tell_cancelled(),
            (StopState::StoppingAudio, DaemonEvent::Stopped { audio }) => {
                if cancelled {
                    if chunking {
                        (flow.closing(StopState::AbandoningChunks), DaemonAction::CancelChunking)
                    } else {
                        flow.tell_cancelled()
                    }
                } else {
                    match audio {
                        StoppedAudio::Speech => (
                            flow.to(StopState::ShowingProcessing),
                            DaemonAction::ShowProcessing,
                        ),
                        StoppedAudio::NoSpeech => {
                            if chunking {
                                (
                                    flow.closing(StopState::DroppingChunks),
                                    DaemonAction::CancelChunking,
                                )
                            } else {
                                (flow.to(StopState::TracingNoSpeech), DaemonAction::TraceNoSpeech)
                            }
                        },
                        StoppedAudio::Failed { error } => {
                            if chunking {
                                (
                                    flow.closing(StopState::DroppingChunksAfter { error }),
                                    DaemonAction::CancelChunking,
                                )
                            } else {
                                flow.stop_failed(cancelled, error)
                            }
                        },
                    }
                }
            },
            (StopState::AbandoningChunks, _) => flow.tell_cancelled(),
            (StopState::ShowingProcessing, _) => {
                if chunking {
                    (flow.closing(StopState::FinishingChunks), DaemonAction::FinishChunking)
                } else {
                    flow.transcribe()
                }
            },
            (StopState::FinishingChunks, DaemonEvent::Text { text }) => flow.deliver(
                sessions,
                text,
            ),
            (StopState::FinishingChunks, _) => flow.transcribe(),
            (StopState::Transcribing, DaemonEvent::Text { text }) => flow.deliver(sessions, text),
            (StopState::Transcribing, DaemonEvent::Failed { error }) => {
                let message = two("Transcription failed: ", error.as_str());
                flow.tell(
                    cancelled,
                    message,
                    Some(Failure { phase: ErrorPhase::Transcription, cause: error }),
                )
            },
            (StopState::DroppingChunks, _) => (
                flow.to(StopState::TracingNoSpeech),
                DaemonAction::TraceNoSpeech,
            ),
            (StopState::TracingNoSpeech, _) => flow.tell(
                cancelled,
                "No speech detected".to_owned(),
                None,
            ),
            (StopState::DroppingChunksAfter { error }, _) => flow.stop_failed(cancelled, error),
            (StopState::Injecting { text }, DaemonEvent::Failed { error }) => {
                let mut message = two("Text injection failed: ", error.as_str());
                message.append(". Transcript may be on clipboard if paste fallback copied it.");
                (
                    flow.to(StopState::TellingInjectionFailed { text }),
                    DaemonAction::ShowError { message, failure: None },
                )
            },
            (StopState::Injecting { text }, _) => (
                flow.to(StopState::Completing),
                DaemonAction::ShowComplete { text },
            ),
            (StopState::TellingInjectionFailed { text }, _) => (
                flow.to(StopState::Completing),
                DaemonAction::ShowComplete { text },
            ),
            (StopState::Telling, _) => {
                if cancelled {
                    flow.tell_cancelled()
                } else {
                    (flow.to(StopState::Finished), DaemonAction::Finish)
                }
            },
            _ => (flow.to(StopState::Finished), DaemonAction::Finish),
        }
    }
}

/// The text of the utterance is being delivered, or was.
pub open spec fn delivering(state: StopState<Text>) -> bool {
    match state {
        StopState::Injecting { .. } => true,
        StopState::TellingInjectionFailed { .. } => true,
        StopState::Completing => true,
        _ => false,
    }
}

/// The chunking session may still be open.
pub open spec fn before_chunks_close(state: StopState<Text>) -> bool {
    state is Begin || state is StoppingAudio || state is ShowingProcessing
}

/// What holds of a flow between two steps: it delivers only a committed session, and once it is
/// past the recording it has closed the chunking session.
pub open spec fn stop_invariant(f: StopView, session: TokenState) -> bool {
    &&& delivering(f.state) ==> session == TokenState::Committed
    &&& f.chunking ==> before_chunks_close(f.state)
}

/// What becomes of a session in a step.
pub open spec fn session_after(f: StopView, session: TokenState, event: DaemonEvent<Text>) -> TokenState {
    if commits(f, event) && session == TokenState::Active {
        TokenState::Committed
    } else {
        session
    }
}

/// Law: every step keeps what holds of a flow, and so does whatever happens to the session between
/// two steps, as a committed session stays committed.
pub proof fn law_stop_keeps_its_invariant(
    f: StopView,
    session: TokenState,
    event: DaemonEvent<Text>,
    later: TokenState,
)
    requires
        stop_invariant(f, session),
        stop_expects(f.state, event),
        session_after(f, session, event) == TokenState::Committed ==> later
            == TokenState::Committed,
    ensures
        stop_invariant(stop_step(f, session, event).0, session_after(f, session, event)),
        stop_invariant(stop_step(f, session, event).0, later),
{
}

/// Law: cancelled text is never delivered. A step that hands out text to insert or to show does so
/// for a session that is committed, and no other step does.
pub proof fn law_cancelled_text_is_never_delivered(
    f: StopView,
    session: TokenState,
    event: DaemonEvent<Text>,
)
    requires
        stop_invariant(f, session),
        stop_expects(f.state, event),
        ({
            let action = stop_step(f, session, event).1;
            action is Inject || action is ShowComplete
        }),
    ensures
        session != TokenState::Cancelled,
        session_after(f, session, event) == TokenState::Committed,
{
}

/// The flow will not transcribe and will not deliver any more.
pub open spec fn given_up(state: StopState<Text>) -> bool {
    match state {
        StopState::CancellingChunks => true,
        StopState::CancellingAudio => true,
        StopState::AbandoningChunks => true,
        StopState::DroppingChunks => true,
        StopState::TracingNoSpeech => true,
        StopState::DroppingChunksAfter { .. } => true,
        StopState::Telling => true,
        StopState::TellingCancelled => true,
        StopState::Finished => true,
        _ => false,
    }
}

/// The action transcribes or delivers.
pub open spec fn uses_provider(action: DaemonAction<Text>) -> bool {
    action is FinishChunking || action is Transcribe || action is Inject || action is ShowComplete
}

/// Law: a recording without speech, one that could not be stopped, and one that was cancelled
/// before or while it was stopped are never transcribed, and nothing is delivered of them.
pub proof fn law_no_speech_is_not_transcribed(
    f: StopView,
    session: TokenState,
    event: DaemonEvent<Text>,
)
    requires
        stop_expects(f.state, event),
        given_up(f.state) || (f.state is Begin && session == TokenState::Cancelled) || (
        f.state is StoppingAudio && (session == TokenState::Cancelled || !(event->audio is Speech))),
    ensures
        given_up(stop_step(f, session, event).0.state),
        !uses_provider(stop_step(f, session, event).1),
{
}

/// Law: a flow ends with its chunking session closed.
pub proof fn law_no_chunking_session_is_left_open(
    f: StopView,
    session: TokenState,
    event: DaemonEvent<Text>,
)
    requires
        stop_invariant(f, session),
        stop_expects(f.state, event),
        stop_step(f, session, event).1 is Finish,
    ensures
        !stop_step(f, session, event).0.chunking,
        stop_step(f, session, event).0.state is Finished,
{
}

/// Law: a chunking session is closed once. The action that ends or finishes it is only handed out
/// while it is open, and then it is not.
pub proof fn law_chunking_is_closed_once(f: StopView, session: TokenState, event: DaemonEvent<Text>)
    requires
        stop_invariant(f, session),
        stop_expects(f.state, event),
    ensures
        ({
            let (next, action) = stop_step(f, session, event);
            (f.chunking && !next.chunking) <==> (action is CancelChunking
                || action is FinishChunking)
        }),
{
}

/// The most actions that a flow can still take.
pub open spec fn steps_left(state: StopState<Text>) -> nat {
    match state {
        StopState::Begin => 8,
        StopState::StoppingAudio => 7,
        StopState::ShowingProcessing => 6,
        StopState::FinishingChunks => 5,
        StopState::Transcribing => 4,
        StopState::CancellingChunks => 3,
        StopState::DroppingChunks => 4,
        StopState::TracingNoSpeech => 3,
        StopState::DroppingChunksAfter { .. } => 3,
        StopState::Injecting { .. } => 3,
        StopState::TellingInjectionFailed { .. } => 2,
        StopState::CancellingAudio => 2,
        StopState::AbandoningChunks => 2,
        StopState::Telling => 2,
        StopState::Completing => 1,
        StopState::TellingCancelled => 1,
        StopState::Finished => 0,
    }
}

/// A run of a flow: what had become of the session before each step, and the event of the step.
pub open spec fn stop_run(f: StopView, steps: Seq<(TokenState, DaemonEvent<Text>)>) -> StopView
    decreases steps.len(),
{
    if steps.len() == 0 {
        f
    } else {
        stop_run(stop_step(f, steps[0].0, steps[0].1).0, steps.drop_first())
    }
}

/// Every event of the run is one that the flow waits for.
pub open spec fn fits(f: StopView, steps: Seq<(TokenState, DaemonEvent<Text>)>) -> bool
    decreases steps.len(),
{
    steps.len() == 0 || (stop_expects(f.state, steps[0].1) && fits(
        stop_step(f, steps[0].0, steps[0].1).0,
        steps.drop_first(),
    ))
}

/// What had become of the session before each step fits what the steps and others did to it: a
/// session that is committed or cancelled stays so.
pub open spec fn settled(f: StopView, steps: Seq<(TokenState, DaemonEvent<Text>)>) -> bool
    decreases steps.len(),
{
    steps.len() <= 1 || ({
        let after = session_after(f, steps[0].0, steps[0].1);
        &&& after != TokenState::Active ==> steps[1].0 == after
        &&& settled(stop_step(f, steps[0].0, steps[0].1).0, steps.drop_first())
    })
}

/// The action of a step of the run.
pub open spec fn action_at(
    f: StopView,
    steps: Seq<(TokenState, DaemonEvent<Text>)>,
    i: int,
) -> DaemonAction<Text>
    decreases steps.len(),
{
    if i <= 0 || steps.len() == 0 {
        stop_step(f, steps[0].0, steps[0].1).1
    } else {
        action_at(stop_step(f, steps[0].0, steps[0].1).0, steps.drop_first(), i - 1)
    }
}

/// Law: in a whole run, nothing is inserted or shown of an utterance that is cancelled, however far
/// the run has come and whatever its other steps came to.
pub proof fn law_a_cancelled_run_delivers_nothing(
    f: StopView,
    steps: Seq<(TokenState, DaemonEvent<Text>)>,
    i: int,
)
    requires
        0 <= i < steps.len(),
        fits(f, steps),
        settled(f, steps),
        stop_invariant(f, steps[0].0),
        steps[i].0 == TokenState::Cancelled,
    ensures
        !(action_at(f, steps, i) is Inject),
        !(action_at(f, steps, i) is ShowComplete),
    decreases steps.len(),
{
    if i > 0 {
        let next = stop_step(f, steps[0].0, steps[0].1).0;
        let rest = steps.drop_first();
        assert(rest[0] == steps[1]);
        assert(rest[i - 1] == steps[i]);
        law_stop_keeps_its_invariant(f, steps[0].0, steps[0].1, steps[1].0);
        law_a_cancelled_run_delivers_nothing(next, rest, i - 1);
    }
}

proof fn lemma_no_second_insertion(
    f: StopView,
    steps: Seq<(TokenState, DaemonEvent<Text>)>,
    i: int,
)
    requires
        0 <= i < steps.len(),
        fits(f, steps),
        delivering(f.state),
    ensures
        !(action_at(f, steps, i) is Inject),
    decreases steps.len(),
{
    if i > 0 {
        let next = stop_step(f, steps[0].0, steps[0].1).0;
        let rest = steps.drop_first();
        assert(fits(next, rest));
        assert(stop_expects(next.state, rest[0].1));
        lemma_no_second_insertion(next, rest, i - 1);
    }
}

/// Law: a run inserts text at most once. So there is never part of a text and then the rest.
pub proof fn law_text_is_inserted_once(
    f: StopView,
    steps: Seq<(TokenState, DaemonEvent<Text>)>,
    i: int,
    j: int,
)
    requires
        0 <= i < j < steps.len(),
        fits(f, steps),
        action_at(f, steps, i) is Inject,
    ensures
        !(action_at(f, steps, j) is Inject),
    decreases steps.len(),
{
    let next = stop_step(f, steps[0].0, steps[0].1).0;
    let rest = steps.drop_first();
    if i == 0 {
        lemma_no_second_insertion(next, rest, j - 1);
    } else {
        law_text_is_inserted_once(next, rest, i - 1, j - 1);
    }
}

/// Law: a stop ends. However its actions turn out and whenever it is cancelled, it takes no more
/// than eight of them.
pub proof fn law_a_stop_ends(f: StopView, steps: Seq<(TokenState, DaemonEvent<Text>)>)
    requires
        fits(f, steps),
    ensures
        steps.len() + steps_left(stop_run(f, steps).state) <= steps_left(f.state) <= 8,
    decreases steps.len(),
{
    if steps.len() > 0 {
        law_a_stop_ends(stop_step(f, steps[0].0, steps[0].1).0, steps.drop_first());
    }
}

/// Law: the text of an active session is delivered. When a text that is not empty comes from the
/// transcription in chunks or from that of the whole recording, and the session was not cancelled,
/// just that text is inserted where the daemon pastes by itself, and else it is shown as complete.
pub proof fn law_an_active_text_is_delivered(
    f: StopView,
    session: TokenState,
    event: DaemonEvent<Text>,
    text: Text,
)
    requires
        stop_expects(f.state, event),
        ({
            let action = stop_step(f, session, event).1;
            action is FinishChunking || action is Transcribe
        }),
        text.len() > 0,
    ensures
        ({
            let waiting = stop_step(f, session, event).0;
            stop_step(waiting, TokenState::Active, DaemonEvent::Text { text }).1 == (
            if f.auto_paste {
                DaemonAction::Inject { text }
            } else {
                DaemonAction::ShowComplete { text }
            })
        }),
{
}

/// Law: no step changes what a flow was made with: whose session it is, whether the daemon pastes by
/// itself, and what becomes of audio files.
pub proof fn law_a_step_keeps_the_settings(
    f: StopView,
    session: TokenState,
    event: DaemonEvent<Text>,
)
    ensures
        stop_step(f, session, event).0.auto_paste == f.auto_paste,
        stop_step(f, session, event).0.retention == f.retention,
        stop_step(f, session, event).0.token == f.token,
{
}

/// Law: however far a run has come, it has the settings that it started with.
pub proof fn law_a_run_keeps_the_settings(f: StopView, steps: Seq<(TokenState, DaemonEvent<Text>)>)
    ensures
        stop_run(f, steps).auto_paste == f.auto_paste,
        stop_run(f, steps).retention == f.retention,
        stop_run(f, steps).token == f.token,
    decreases steps.len(),
{
    if steps.len() > 0 {
        law_a_step_keeps_the_settings(f, steps[0].0, steps[0].1);
        law_a_run_keeps_the_settings(stop_step(f, steps[0].0, steps[0].1).0, steps.drop_first());
    }
}

/// Law: a recording that was stopped and holds speech is transcribed. It is shown as being
/// processed, and then the transcription in chunks is finished where one is open, and else the
/// recording is transcribed as a whole, its audio file treated as was set.
pub proof fn law_speech_is_transcribed(
    f: StopView,
    session: TokenState,
    later: TokenState,
    last: TokenState,
)
    requires
        f.state is Begin,
        session != TokenState::Cancelled,
        later != TokenState::Cancelled,
    ensures
        ({
            let (stopping, first) = stop_step(f, session, DaemonEvent::Done);
            let (showing, second) = stop_step(
                stopping,
                later,
                DaemonEvent::Stopped { audio: StoppedAudio::Speech },
            );
            let (waiting, third) = stop_step(showing, last, DaemonEvent::Done);
            &&& first == (DaemonAction::<Text>::StopAudio { snapshot: f.chunking })
            &&& second == DaemonAction::<Text>::ShowProcessing
            &&& third == (if f.chunking {
                DaemonAction::<Text>::FinishChunking
            } else {
                DaemonAction::<Text>::Transcribe { retention: f.retention }
            })
        }),
{
}

/// Law: where the transcription in chunks fails, the recording is transcribed as a whole.
pub proof fn law_failed_chunking_falls_back(
    f: StopView,
    session: TokenState,
    event: DaemonEvent<Text>,
    later: TokenState,
    error: Text,
)
    requires
        stop_expects(f.state, event),
        stop_step(f, session, event).1 is FinishChunking,
    ensures
        stop_step(stop_step(f, session, event).0, later, DaemonEvent::Failed { error }).1 == (
        DaemonAction::<Text>::Transcribe { retention: f.retention }),
{
}

/// Law: what went wrong is told. Unless the session was cancelled, a transcription that failed, and
/// one that gave no text, end with a message that says so.
pub proof fn law_a_failed_transcription_is_told(
    f: StopView,
    session: TokenState,
    event: DaemonEvent<Text>,
    later: TokenState,
    error: Text,
)
    requires
        stop_expects(f.state, event),
        stop_step(f, session, event).1 is Transcribe,
        later != TokenState::Cancelled,
    ensures
        ({
            let waiting = stop_step(f, session, event).0;
            &&& stop_step(waiting, later, DaemonEvent::Failed { error }).1 == (
            DaemonAction::ShowError {
                message: "Transcription failed: "@ + error,
                failure: Some(Failure { phase: ErrorPhase::Transcription, cause: error }),
            })
            &&& stop_step(waiting, later, DaemonEvent::Text { text: Seq::empty() }).1 == (
            DaemonAction::ShowError { message: "No speech detected"@, failure: None })
            &&& stop_step(waiting, TokenState::Cancelled, DaemonEvent::Failed { error }).1
                == DaemonAction::<Text>::ShowCancelled
            &&& stop_step(
                waiting,
                TokenState::Cancelled,
                DaemonEvent::Text { text: error },
            ).1 == DaemonAction::<Text>::ShowCancelled
        }),
{
}

/// Law: a text that was to be inserted is shown as complete in the end, also where it could not be
/// inserted; then the failure is told first.
pub proof fn law_an_inserted_text_is_shown(
    f: StopView,
    session: TokenState,
    event: DaemonEvent<Text>,
    later: TokenState,
    text: Text,
    error: Text,
)
    requires
        stop_expects(f.state, event),
        stop_step(f, session, event).1 == (DaemonAction::<Text>::Inject { text }),
    ensures
        ({
            let injecting = stop_step(f, session, event).0;
            let (telling, told) = stop_step(injecting, later, DaemonEvent::Failed { error });
            &&& stop_step(injecting, later, DaemonEvent::Done).1 == (
            DaemonAction::<Text>::ShowComplete { text })
            &&& told == (DaemonAction::ShowError {
                message: "Text injection failed: "@ + error
                    + ". Transcript may be on clipboard if paste fallback copied it."@,
                failure: None,
            })
            &&& stop_step(telling, later, DaemonEvent::Done).1 == (
            DaemonAction::<Text>::ShowComplete { text })
        }),
{
}

/// Law: a recording that could not be stopped, or that holds no speech, is told of as such, after
/// its chunking session was ended where one was open.
pub proof fn law_a_recording_without_speech_is_told(
    f: StopView,
    session: TokenState,
    later: TokenState,
    error: Text,
)
    requires
        f.state is Begin,
        session != TokenState::Cancelled,
        later != TokenState::Cancelled,
    ensures
        ({
            let stopping = stop_step(f, session, DaemonEvent::Done).0;
            let (quiet, silent) = stop_step(
                stopping,
                later,
                DaemonEvent::Stopped { audio: StoppedAudio::NoSpeech },
            );
            let (broken, failed) = stop_step(
                stopping,
                later,
                DaemonEvent::Stopped { audio: StoppedAudio::Failed { error } },
            );
            let (traced, trace) = if f.chunking {
                stop_step(quiet, later, DaemonEvent::Done)
            } else {
                (quiet, silent)
            };
            let told = if f.chunking {
                stop_step(broken, later, DaemonEvent::Done).1
            } else {
                failed
            };
            &&& f.chunking ==> silent == DaemonAction::<Text>::CancelChunking && failed
                == DaemonAction::<Text>::CancelChunking
            &&& trace == DaemonAction::<Text>::TraceNoSpeech
            &&& stop_step(traced, later, DaemonEvent::Done).1 == (DaemonAction::ShowError {
                message: "No speech detected"@,
                failure: None,
            })
            &&& told == (DaemonAction::ShowError {
                message: "Failed to stop recording: "@ + error,
                failure: Some(Failure { phase: ErrorPhase::AudioStop, cause: error }),
            })
        }),
{
}

/// Law: an utterance that is cancelled before its recording is stopped ends its chunking session,
/// where one is open, throws its recording away and says that it was cancelled.
pub proof fn law_a_cancelled_stop_cleans_up(f: StopView, later: TokenState)
    requires
        f.state is Begin,
    ensures
        ({
            let (one, first) = stop_step(f, TokenState::Cancelled, DaemonEvent::Done);
            let (two, second) = stop_step(one, later, DaemonEvent::Done);
            let (three, third) = stop_step(two, later, DaemonEvent::Done);
            &&& f.chunking ==> first == DaemonAction::<Text>::CancelChunking && second
                == DaemonAction::<Text>::CancelAudio && third
                == DaemonAction::<Text>::ShowCancelled
            &&& !f.chunking ==> first == DaemonAction::<Text>::CancelAudio && second
                == DaemonAction::<Text>::ShowCancelled
        }),
{
}

/// Law: a session is committed just when a text that is not empty comes from a transcription, so
/// that what is delivered can no longer be cancelled, and nothing else commits it.
pub proof fn law_a_text_commits_its_session(
    f: StopView,
    session: TokenState,
    event: DaemonEvent<Text>,
    answer: DaemonEvent<Text>,
)
    requires
        stop_expects(f.state, event),
        stop_expects(stop_step(f, session, event).0.state, answer),
    ensures
        commits(stop_step(f, session, event).0, answer) <==> {
            let action = stop_step(f, session, event).1;
            &&& action is FinishChunking || action is Transcribe
            &&& answer matches DaemonEvent::Text { text } && text.len() > 0
        },
{
}

/// Law: a cancellation that comes late is still told. One that comes while the recording is stopped
/// ends the chunking session where one is open and says so, and one that comes while a message is
/// shown says so after it; without one the message is the end.
pub proof fn law_a_late_cancellation_is_told(
    f: StopView,
    session: TokenState,
    event: DaemonEvent<Text>,
    audio: StoppedAudio<Text>,
    later: TokenState,
)
    requires
        stop_expects(f.state, event),
    ensures
        ({
            let (next, action) = stop_step(f, session, event);
            let (end, answer) = stop_step(
                next,
                TokenState::Cancelled,
                DaemonEvent::Stopped { audio },
            );
            &&& action is StopAudio && f.chunking ==> answer == DaemonAction::<
                Text,
            >::CancelChunking && stop_step(end, later, DaemonEvent::Done).1 == DaemonAction::<
                Text,
            >::ShowCancelled
            &&& action is StopAudio && !f.chunking ==> answer == DaemonAction::<Text>::ShowCancelled
            &&& action is ShowError && !(event is Failed && f.state is Injecting) ==> stop_step(
                next,
                TokenState::Cancelled,
                DaemonEvent::Done,
            ).1 == DaemonAction::<Text>::ShowCancelled && (later != TokenState::Cancelled
                ==> stop_step(next, later, DaemonEvent::Done).1 == DaemonAction::<Text>::Finish)
        }),
{
}

/// Law: once the text was shown as complete, or the utterance as cancelled, the stop is over.
pub proof fn law_the_last_notice_ends_the_stop(
    f: StopView,
    session: TokenState,
    event: DaemonEvent<Text>,
    later: TokenState,
)
    requires
        stop_expects(f.state, event),
        ({
            let action = stop_step(f, session, event).1;
            action is ShowComplete || action is ShowCancelled
        }),
    ensures
        stop_step(stop_step(f, session, event).0, later, DaemonEvent::Done) == (
            StopView {
                state: StopState::Finished,
                ..stop_step(f, session, event).0
            },
            DaemonAction::<Text>::Finish,
        ),
{
}

/// Law: a text that is empty is told of as no speech, whichever transcription it comes from, and a
/// text of a session that was committed before is not delivered again.
pub proof fn law_no_text_is_told(
    f: StopView,
    session: TokenState,
    event: DaemonEvent<Text>,
    later: TokenState,
    text: Text,
)
    requires
        stop_expects(f.state, event),
        ({
            let action = stop_step(f, session, event).1;
            action is FinishChunking || action is Transcribe
        }),
    ensures
        ({
            let waiting = stop_step(f, session, event).0;
            let empty = DaemonEvent::<Text>::Text { text: Seq::empty() };
            &&& later != TokenState::Cancelled ==> stop_step(waiting, later, empty).1 == (
            DaemonAction::ShowError { message: "No speech detected"@, failure: None })
            &&& stop_step(waiting, TokenState::Cancelled, DaemonEvent::Text { text }).1
                == DaemonAction::<Text>::ShowCancelled
            &&& text.len() > 0 ==> stop_step(
                waiting,
                TokenState::Committed,
                DaemonEvent::Text { text },
            ).1 == DaemonAction::<Text>::ShowCancelled
        }),
{
}

/// Where the flow of a start stands.
#[derive(Clone, Copy, Debug, PartialEq, Eq, Structural)]
pub enum StartState {
    Begin,
    ShowingRecording,
    StartingAudio,
    Preparing,
    /// The last action is being performed.
    Ending,
    Finished,
}

/// The flow of a start by view.
pub struct StartView {
    pub token: CancellationToken,
    pub chunking_enabled: bool,
    pub supports_chunking: bool,
    pub state: StartState,
}

/// The event is one that the state waits for.
pub open spec fn start_expects(state: StartState, event: DaemonEvent<Text>) -> bool {
    match state {
        StartState::StartingAudio => event is Done || event is Failed,
        StartState::Finished => false,
        _ => event is Done,
    }
}

/// One step of a start. A session that was cancelled is not recorded, or not chunked; a provider
/// that fails to load its model stops nothing.
pub open spec fn start_step(f: StartView, session: TokenState, event: DaemonEvent<Text>) -> (
    StartState,
    DaemonAction<Text>,
) {
    let cancelled = session == TokenState::Cancelled;
    match (f.state, event) {
        (StartState::Begin, _) => if cancelled {
            (StartState::Finished, DaemonAction::Finish)
        } else {
            (StartState::ShowingRecording, DaemonAction::ShowRecording)
        },
        (StartState::ShowingRecording, _) => (StartState::StartingAudio, DaemonAction::StartAudio),
        (StartState::StartingAudio, DaemonEvent::Failed { error }) => (
            StartState::Ending,
            DaemonAction::ShowError {
                message: "Recording failed: "@ + error,
                failure: Some(Failure { phase: ErrorPhase::AudioStart, cause: error }),
            },
        ),
        (StartState::StartingAudio, _) => (StartState::Preparing, DaemonAction::PrepareProvider),
        (StartState::Preparing, _) => if cancelled || !f.chunking_enabled {
            (StartState::Finished, DaemonAction::Finish)
        } else if f.supports_chunking {
            (StartState::Ending, DaemonAction::StartChunking)
        } else {
            (StartState::Ending, DaemonAction::WarnChunkingUnsupported)
        },
        _ => (StartState::Finished, DaemonAction::Finish),
    }
}

/// The step gives the reservation of the recording back.
pub open spec fn gives_back(f: StartView, event: DaemonEvent<Text>) -> bool {
    f.state == StartState::StartingAudio && event is Failed
}

/// The flow of a start.
pub struct StartFlow {
    token: CancellationToken,
    chunking_enabled: bool,
    supports_chunking: bool,
    state: StartState,
}

impl View for StartFlow {
    type V = StartView;

    closed spec fn view(&self) -> StartView {
        StartView {
            token: self.token,
            chunking_enabled: self.chunking_enabled,
            supports_chunking: self.supports_chunking,
            state: self.state,
        }
    }
}

impl StartFlow {
    pub fn new(
        token: CancellationToken,
        chunking_enabled: bool,
        supports_chunking: bool,
    ) -> (r: Self)
        ensures
            r@ == (StartView {
                token,
                chunking_enabled,
                supports_chunking,
                state: StartState::Begin,
            }),
    {
        StartFlow { token, chunking_enabled, supports_chunking, state: StartState::Begin }
    }

    /// The next step. A recording that could not be started gives its reservation back, unless
    /// another session has taken its place.
    pub fn step(
        &mut self,
        lifecycle: &mut AppLifecycle,
        sessions: &SessionStates,
        event: DaemonEvent<String>,
    ) -> (r: DaemonAction<String>)
        requires
            old(self)@.token.known(sessions@),
            start_expects(old(self)@.state, event@),
        ensures
            (final(self)@.state, r@) == start_step(
                old(self)@,
                sessions@[old(self)@.token.id()],
                event@,
            ),
            final(self)@ == (StartView { state: final(self)@.state, ..old(self)@ }),
            *final(lifecycle) == (if gives_back(old(self)@, event@) {
                released(*old(lifecycle), old(self)@.token)
            } else {
                *old(lifecycle)
            }),
    {
        let cancelled = self.token.is_cancelled(sessions);
        match (self.state, event) {
            (StartState::Begin, _) => {
                if cancelled {
                    self.state = StartState::Finished;
                    DaemonAction::Finish
                } else {
                    self.state = StartState::ShowingRecording;
                    DaemonAction::ShowRecording
                }
            },
            (StartState::ShowingRecording, _) => {
                self.state = StartState::StartingAudio;
                DaemonAction::StartAudio
            },
            (StartState::StartingAudio, DaemonEvent::Failed { error }) => {
                crate::api::release_recording_reservation(lifecycle, &self.token);
                self.state = StartState::Ending;
                let message = two("Recording failed: ", error.as_str());
                DaemonAction::ShowError {
                    message,
                    failure: Some(Failure { phase: ErrorPhase::AudioStart, cause: error }),
                }
            },
            (StartState::StartingAudio, _) => {
                self.state = StartState::Preparing;
                DaemonAction::PrepareProvider
            },
            (StartState::Preparing, _) => {
                if cancelled || !self.chunking_enabled {
                    self.state = StartState::Finished;
                    DaemonAction::Finish
                } else if self.supports_chunking {
                    self.state = StartState::Ending;
                    DaemonAction::StartChunking
                } else {
                    self.state = StartState::Ending;
                    DaemonAction::WarnChunkingUnsupported
                }
            },
            _ => {
                self.state = StartState::Finished;
                DaemonAction::Finish
            },
        }
    }
}

/// Law: a session that was cancelled before its start was taken up is not recorded, and one that
/// was cancelled while the provider was prepared is not chunked.
pub proof fn law_a_cancelled_start_does_nothing(f: StartView, event: DaemonEvent<Text>)
    requires
        f.state == StartState::Begin || f.state == StartState::Preparing,
        start_expects(f.state, event),
    ensures
        start_step(f, TokenState::Cancelled, event) == (
            StartState::Finished,
            DaemonAction::<Text>::Finish,
        ),
{
}

/// Law: a start records. Where the session is not cancelled, it is shown that the daemon records,
/// the recording is started, the provider is prepared, and then, where chunking is on, the
/// transcription in chunks is started if the provider can do it, and else there is a warning. A
/// cancellation in between does not keep the recording from being started.
pub proof fn law_a_start_records(
    f: StartView,
    session: TokenState,
    later: TokenState,
    last: TokenState,
)
    requires
        f.state == StartState::Begin,
        session != TokenState::Cancelled,
        last != TokenState::Cancelled,
    ensures
        ({
            let done = DaemonEvent::<Text>::Done;
            let (one, first) = start_step(f, session, done);
            let (two, second) = start_step(StartView { state: one, ..f }, later, done);
            let (three, third) = start_step(StartView { state: two, ..f }, later, done);
            let (four, fourth) = start_step(StartView { state: three, ..f }, last, done);
            &&& first == DaemonAction::<Text>::ShowRecording
            &&& second == DaemonAction::<Text>::StartAudio
            &&& third == DaemonAction::<Text>::PrepareProvider
            &&& fourth == (if !f.chunking_enabled {
                DaemonAction::<Text>::Finish
            } else if f.supports_chunking {
                DaemonAction::<Text>::StartChunking
            } else {
                DaemonAction::<Text>::WarnChunkingUnsupported
            })
            &&& fourth != DaemonAction::<Text>::Finish ==> start_step(
                StartView { state: four, ..f },
                later,
                done,
            ).1 == DaemonAction::<Text>::Finish
        }),
{
}

/// Law: a recording that could not be started is told of, and nothing more is done; its reservation
/// is given back, and no other answer gives one back.
pub proof fn law_a_failed_start_is_told(
    f: StartView,
    session: TokenState,
    event: DaemonEvent<Text>,
    later: TokenState,
    error: Text,
    answer: DaemonEvent<Text>,
)
    requires
        start_expects(f.state, event),
    ensures
        ({
            let (next, action) = start_step(f, session, event);
            let waiting = StartView { state: next, ..f };
            let failed = DaemonEvent::<Text>::Failed { error };
            let (end, told) = start_step(waiting, later, failed);
            &&& action is StartAudio ==> told == (DaemonAction::ShowError {
                message: "Recording failed: "@ + error,
                failure: Some(Failure { phase: ErrorPhase::AudioStart, cause: error }),
            }) && start_step(StartView { state: end, ..f }, later, DaemonEvent::Done).1
                == DaemonAction::<Text>::Finish
            &&& gives_back(waiting, answer) <==> action is StartAudio && answer is Failed
        }),
{
}

/// Where the flow of a cancellation stands.
#[derive(Clone, Copy, Debug, PartialEq, Eq, Structural)]
pub enum CancelState {
    Begin,
    CancellingChunks,
    CancellingAudio,
    Telling,
    Finished,
}

/// One step of a cancellation: the chunking session, where there is one, then the recording, then
/// the message.
pub open spec fn cancel_step(state: CancelState, chunking: bool) -> (
    CancelState,
    DaemonAction<Text>,
) {
    match state {
        CancelState::Begin => if chunking {
            (CancelState::CancellingChunks, DaemonAction::CancelChunking)
        } else {
            (CancelState::CancellingAudio, DaemonAction::CancelAudio)
        },
        CancelState::CancellingChunks => (CancelState::CancellingAudio, DaemonAction::CancelAudio),
        CancelState::CancellingAudio => (CancelState::Telling, DaemonAction::ShowCancelled),
        _ => (CancelState::Finished, DaemonAction::Finish),
    }
}

/// The flow of a cancellation.
pub struct CancelFlow {
    pub state: CancelState,
    pub chunking: bool,
}

impl CancelFlow {
    pub fn new(chunking: bool) -> (r: Self)
        ensures
            r.state == CancelState::Begin,
            r.chunking == chunking,
    {
        CancelFlow { state: CancelState::Begin, chunking }
    }

    /// The next step.
    pub fn step(&mut self) -> (r: DaemonAction<String>)
        ensures
            (final(self).state, r@) == cancel_step(old(self).state, old(self).chunking),
            final(self).chunking == old(self).chunking,
    {
        match self.state {
            CancelState::Begin => {
                if self.chunking {
                    self.state = CancelState::CancellingChunks;
                    DaemonAction::CancelChunking
                } else {
                    self.state = CancelState::CancellingAudio;
                    DaemonAction::CancelAudio
                }
            },
            CancelState::CancellingChunks => {
                self.state = CancelState::CancellingAudio;
                DaemonAction::CancelAudio
            },
            CancelState::CancellingAudio => {
                self.state = CancelState::Telling;
                DaemonAction::ShowCancelled
            },
            _ => {
                self.state = CancelState::Finished;
                DaemonAction::Finish
            },
        }
    }
}

/// Law: a cancellation ends the chunking session where there is one, throws the recording away, says
/// so, and is over.
pub proof fn law_a_cancellation_cleans_up(chunking: bool)
    ensures
        ({
            let begin = if chunking {
                cancel_step(CancelState::Begin, chunking).0
            } else {
                CancelState::Begin
            };
            let (audio, first) = cancel_step(begin, chunking);
            let (telling, second) = cancel_step(audio, chunking);
            let (end, third) = cancel_step(telling, chunking);
            &&& chunking ==> cancel_step(CancelState::Begin, chunking).1
                == DaemonAction::<Text>::CancelChunking
            &&& first == DaemonAction::<Text>::CancelAudio
            &&& second == DaemonAction::<Text>::ShowCancelled
            &&& third == DaemonAction::<Text>::Finish
        }),
{
}

/// How a piece of work ended.
#[derive(Debug, PartialEq, Eq)]
pub enum WorkOutcome<T> {
    Done,
    Failed { error: T },
    Panicked,
}

impl View for WorkOutcome<String> {
    type V = WorkOutcome<Text>;

    open spec fn view(&self) -> WorkOutcome<Text> {
        match *self {
            WorkOutcome::Done => WorkOutcome::Done,
            WorkOutcome::Failed { error } => WorkOutcome::Failed { error: error@ },
            WorkOutcome::Panicked => WorkOutcome::Panicked,
        }
    }
}

/// What is to be done around the work of a stop or a cancellation.
#[derive(Clone, Copy, Debug, PartialEq, Eq, Structural)]
pub enum RecoveryAction {
    /// Do the work of the stop or the cancellation.
    RunWork,
    /// Tell the provider that the recording is complete.
    CompleteRecording,
    /// There is nothing left to do.
    Finish,
}

/// Where the recovery around a piece of work stands.
#[derive(Clone, Copy, Debug, PartialEq, Eq, Structural)]
pub enum RecoveryState {
    Begin,
    Working,
    Completing,
    Finished,
}

/// What is logged of a piece of work that did not go well.
pub open spec fn recovery_log(state: RecoveryState, outcome: WorkOutcome<Text>) -> Option<Text> {
    match (state, outcome) {
        (RecoveryState::Working, WorkOutcome::Failed { error }) => Some(
            "Stop recording handling failed: "@ + error,
        ),
        (RecoveryState::Working, WorkOutcome::Panicked) => Some(
            "Stop recording handling panicked"@,
        ),
        (RecoveryState::Completing, WorkOutcome::Failed { error }) => Some(
            "Failed to complete transcription provider lifecycle: "@ + error,
        ),
        (RecoveryState::Completing, WorkOutcome::Panicked) => Some(
            "Transcription provider lifecycle panicked"@,
        ),
        _ => None,
    }
}

/// One step of the recovery: whatever comes of the work, the provider is told once that the
/// recording is complete.
pub open spec fn recovery_step(state: RecoveryState) -> (RecoveryState, RecoveryAction) {
    match state {
        RecoveryState::Begin => (RecoveryState::Working, RecoveryAction::RunWork),
        RecoveryState::Working => (RecoveryState::Completing, RecoveryAction::CompleteRecording),
        _ => (RecoveryState::Finished, RecoveryAction::Finish),
    }
}

/// Runs the work of a stop or a cancellation so that neither an error nor a panic in it, or in the
/// provider, leaves the daemon processing for ever.
pub struct RecoveryFlow {
    guard: ProcessingResetGuard,
    state: RecoveryState,
}

impl RecoveryFlow {
    pub closed spec fn token(&self) -> CancellationToken {
        self.guard.token()
    }

    pub closed spec fn state(&self) -> RecoveryState {
        self.state
    }

    pub fn new(cancellation: CancellationToken) -> (r: Self)
        ensures
            r.token() == cancellation,
            r.state() == RecoveryState::Begin,
    {
        RecoveryFlow {
            guard: ProcessingResetGuard::new(cancellation),
            state: RecoveryState::Begin,
        }
    }

    /// The next step, after a piece of work ended, with what is to be logged of it. The last step
    /// makes the daemon idle if it still processes this session.
    pub fn step(&mut self, lifecycle: &mut AppLifecycle, outcome: WorkOutcome<String>) -> (r: (
        RecoveryAction,
        Option<String>,
    ))
        ensures
            (final(self).state(), r.0) == recovery_step(old(self).state()),
            final(self).token() == old(self).token(),
            (match r.1 {
                Some(message) => Some(message@),
                None => None,
            }) == recovery_log(old(self).state(), outcome@),
            *final(lifecycle) == (if r.0 == RecoveryAction::Finish {
                processed(*old(lifecycle), old(self).token())
            } else {
                *old(lifecycle)
            }),
    {
        match self.state {
            RecoveryState::Begin => {
                self.state = RecoveryState::Working;
                (RecoveryAction::RunWork, None)
            },
            RecoveryState::Working => {
                self.state = RecoveryState::Completing;
                let log = match outcome {
                    WorkOutcome::Done => None,
                    WorkOutcome::Failed { error } => Some(
                        two("Stop recording handling failed: ", error.as_str()),
                    ),
                    WorkOutcome::Panicked => Some("Stop recording handling panicked".to_owned()),
                };
                (RecoveryAction::CompleteRecording, log)
            },
            RecoveryState::Completing => {
                self.state = RecoveryState::Finished;
                self.guard.reset(lifecycle);
                let log = match outcome {
                    WorkOutcome::Done => None,
                    WorkOutcome::Failed { error } => Some(
                        two(
                            "Failed to complete transcription provider lifecycle: ",
                            error.as_str(),
                        ),
                    ),
                    WorkOutcome::Panicked => Some(
                        "Transcription provider lifecycle panicked".to_owned(),
                    ),
                };
                (RecoveryAction::Finish, log)
            },
            RecoveryState::Finished => {
                self.guard.reset(lifecycle);
                (RecoveryAction::Finish, None)
            },
        }
    }
}

/// Law: whatever comes of the work and of the provider's part, the work is done once, the provider
/// is told once, and then the daemon is idle, unless another session has taken its place.
pub proof fn law_recovery_always_ends_idle(token: CancellationToken)
    ensures
        ({
            let (working, first) = recovery_step(RecoveryState::Begin);
            let (completing, second) = recovery_step(working);
            let (end, third) = recovery_step(completing);
            &&& first == RecoveryAction::RunWork
            &&& second == RecoveryAction::CompleteRecording
            &&& third == RecoveryAction::Finish
            &&& end == RecoveryState::Finished
        }),
        processed(AppLifecycle::Processing(token), token) == AppLifecycle::Idle,
{
}

/// The trace event of a command that is taken up.
pub open spec fn dequeue_event(source: ApiCommandSource) -> Text {
    match source {
        ApiCommandSource::Start => "main_start_dequeued"@,
        ApiCommandSource::Stop => "main_stop_dequeued"@,
        ApiCommandSource::Toggle => "main_toggle_dequeued"@,
    }
}

/// The trace event of a command that is taken up.
pub fn emit_dequeue_event(source: ApiCommandSource) -> (r: &'static str)
    ensures
        r@ == dequeue_event(source),
{
    match source {
        ApiCommandSource::Start => "main_start_dequeued",
        ApiCommandSource::Stop => "main_stop_dequeued",
        ApiCommandSource::Toggle => "main_toggle_dequeued",
    }
}

/// Law: what is logged of work that did not go well, and nothing of work that did.
pub proof fn law_failed_work_is_logged(state: RecoveryState, error: Text)
    ensures
        recovery_log(state, WorkOutcome::Done) is None,
        recovery_log(RecoveryState::Working, WorkOutcome::Failed { error }) == Some(
            "Stop recording handling failed: "@ + error,
        ),
        recovery_log(RecoveryState::Working, WorkOutcome::Panicked) == Some(
            "Stop recording handling panicked"@,
        ),
        recovery_log(RecoveryState::Completing, WorkOutcome::Failed { error }) == Some(
            "Failed to complete transcription provider lifecycle: "@ + error,
        ),
        recovery_log(RecoveryState::Completing, WorkOutcome::Panicked) == Some(
            "Transcription provider lifecycle panicked"@,
        ),
{
}

/// Law: the names under which commands and failures are traced.
pub proof fn law_the_names_in_traces(source: ApiCommandSource, phase: ErrorPhase)
    ensures
        source == ApiCommandSource::Start ==> dequeue_event(source) == "main_start_dequeued"@,
        source == ApiCommandSource::Stop ==> dequeue_event(source) == "main_stop_dequeued"@,
        source == ApiCommandSource::Toggle ==> dequeue_event(source) == "main_toggle_dequeued"@,
        phase == ErrorPhase::AudioStart ==> phase.name() == "audio_start"@,
        phase == ErrorPhase::AudioStop ==> phase.name() == "audio_stop"@,
        phase == ErrorPhase::Transcription ==> phase.name() == "transcription"@,
{
}

} // verus!
