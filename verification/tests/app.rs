use smoltalk::api::{
    reserve_recording_command, ApiCommandSource, AppLifecycle, RecordingCommand, RecordingRequest,
};
use smoltalk::app::{
    emit_dequeue_event, retention_for, CancelFlow, DaemonAction, DaemonEvent, ErrorPhase, Failure,
    RecoveryAction, RecoveryFlow, StartFlow, StopFlow, StoppedAudio, WorkOutcome,
};
use smoltalk::cancellation::{CancellationToken, SessionStates};
use smoltalk::whisper::provider::AudioFileRetention;

type Action = DaemonAction<String>;
type Event = DaemonEvent<String>;

fn text(s: &str) -> Event {
    DaemonEvent::Text { text: s.to_string() }
}

fn failed(s: &str) -> Event {
    DaemonEvent::Failed { error: s.to_string() }
}

fn speech() -> Event {
    DaemonEvent::Stopped { audio: StoppedAudio::Speech }
}

/// Runs a stop on a script of events and collects its actions.
fn run_stop(flow: StopFlow, sessions: &mut SessionStates, events: Vec<Event>) -> Vec<Action> {
    let mut flow = flow;
    let mut actions = Vec::new();
    for event in events {
        let (next, action) = flow.step(sessions, event);
        flow = next;
        actions.push(action);
    }
    actions
}

fn recover(
    lifecycle: &mut AppLifecycle,
    token: CancellationToken,
    work: WorkOutcome<String>,
    complete: WorkOutcome<String>,
) -> (usize, Vec<String>) {
    let mut flow = RecoveryFlow::new(token);
    let mut completions: usize = 0;
    let mut logs = Vec::new();
    let (action, _) = flow.step(lifecycle, WorkOutcome::Done);
    assert_eq!(action, RecoveryAction::RunWork);
    let (action, log) = flow.step(lifecycle, work);
    logs.extend(log);
    if action == RecoveryAction::CompleteRecording {
        completions += 1;
    }
    let (action, log) = flow.step(lifecycle, complete);
    logs.extend(log);
    assert_eq!(action, RecoveryAction::Finish);
    (completions, logs)
}

#[test]
fn mid_stop_error_resets_status_and_accepts_next_start() {
    let mut sessions = SessionStates::new();
    let cancellation = CancellationToken::new(&mut sessions);
    let mut lifecycle = AppLifecycle::Processing(cancellation);

    let (completions, logs) = recover(
        &mut lifecycle,
        cancellation,
        WorkOutcome::Failed { error: "injected stop failure".to_string() },
        WorkOutcome::Done,
    );

    assert_eq!(completions, 1);
    assert_eq!(logs, vec!["Stop recording handling failed: injected stop failure"]);
    assert_eq!(lifecycle, AppLifecycle::Idle);

    let reservation =
        reserve_recording_command(&mut lifecycle, &mut sessions, RecordingRequest::Start);
    assert!(matches!(lifecycle, AppLifecycle::Recording(_)));
    assert!(matches!(
        reservation.command,
        Some(RecordingCommand::Start(ApiCommandSource::Start, _))
    ));
}

#[test]
fn mid_stop_panic_resets_status_and_accepts_next_toggle() {
    let mut sessions = SessionStates::new();
    let cancellation = CancellationToken::new(&mut sessions);
    let mut lifecycle = AppLifecycle::Processing(cancellation);

    let (completions, logs) = recover(
        &mut lifecycle,
        cancellation,
        WorkOutcome::Panicked,
        WorkOutcome::Panicked,
    );

    assert_eq!(completions, 1);
    assert_eq!(
        logs,
        vec![
            "Stop recording handling panicked",
            "Transcription provider lifecycle panicked",
        ]
    );
    assert_eq!(lifecycle, AppLifecycle::Idle);

    let reservation =
        reserve_recording_command(&mut lifecycle, &mut sessions, RecordingRequest::Toggle);
    assert!(matches!(lifecycle, AppLifecycle::Recording(_)));
    assert!(matches!(
        reservation.command,
        Some(RecordingCommand::Start(ApiCommandSource::Toggle, _))
    ));
}

#[test]
fn recording_complete_failure_cannot_block_idle_reset() {
    let mut sessions = SessionStates::new();
    let cancellation = CancellationToken::new(&mut sessions);
    let mut lifecycle = AppLifecycle::Processing(cancellation);

    let (completions, logs) = recover(
        &mut lifecycle,
        cancellation,
        WorkOutcome::Done,
        WorkOutcome::Failed { error: "injected recording_complete failure".to_string() },
    );

    assert_eq!(completions, 1);
    assert_eq!(
        logs,
        vec!["Failed to complete transcription provider lifecycle: injected recording_complete failure"]
    );
    assert_eq!(lifecycle, AppLifecycle::Idle);
}

#[test]
fn chunk_failure_falls_back_to_the_retained_trimmed_samples() {
    let mut sessions = SessionStates::new();
    let token = CancellationToken::new(&mut sessions);

    let actions = run_stop(
        StopFlow::new(token, true, true, true),
        &mut sessions,
        vec![
            DaemonEvent::Done,
            speech(),
            DaemonEvent::Done,
            failed("injected chunk failure"),
            text("full fallback transcript"),
            DaemonEvent::Done,
            DaemonEvent::Done,
        ],
    );

    assert_eq!(
        actions,
        vec![
            DaemonAction::StopAudio { snapshot: true },
            DaemonAction::ShowProcessing,
            DaemonAction::FinishChunking,
            DaemonAction::Transcribe { retention: AudioFileRetention::Delete },
            DaemonAction::Inject { text: "full fallback transcript".to_string() },
            DaemonAction::ShowComplete { text: "full fallback transcript".to_string() },
            DaemonAction::Finish,
        ]
    );
}

#[test]
fn cancelled_transcript_does_not_run_delivery() {
    let mut sessions = SessionStates::new();
    let token = CancellationToken::new(&mut sessions);
    let mut flow = StopFlow::new(token, true, true, false);
    for event in vec![DaemonEvent::Done, speech(), DaemonEvent::Done] {
        flow = flow.step(&mut sessions, event).0;
    }
    token.cancel(&mut sessions);

    let actions = run_stop(flow, &mut sessions, vec![text("never seen"), DaemonEvent::Done]);

    assert_eq!(actions, vec![DaemonAction::ShowCancelled, DaemonAction::Finish]);
}

#[test]
fn cancellation_overrides_terminal_feedback_that_is_already_running() {
    let mut sessions = SessionStates::new();
    let token = CancellationToken::new(&mut sessions);
    let mut flow = StopFlow::new(token, true, true, false);
    let no_speech = DaemonEvent::Stopped { audio: StoppedAudio::NoSpeech };
    let mut actions = Vec::new();
    for event in vec![DaemonEvent::Done, no_speech, DaemonEvent::Done] {
        let (next, action) = flow.step(&mut sessions, event);
        flow = next;
        actions.push(action);
    }
    token.cancel(&mut sessions);
    actions.extend(run_stop(flow, &mut sessions, vec![DaemonEvent::Done, DaemonEvent::Done]));

    assert_eq!(
        actions,
        vec![
            DaemonAction::StopAudio { snapshot: false },
            DaemonAction::TraceNoSpeech,
            DaemonAction::ShowError { message: "No speech detected".to_string(), failure: None },
            DaemonAction::ShowCancelled,
            DaemonAction::Finish,
        ]
    );
}

#[test]
fn delivery_that_has_begun_cannot_be_cancelled() {
    let mut sessions = SessionStates::new();
    let token = CancellationToken::new(&mut sessions);
    let mut flow = StopFlow::new(token, true, false, false);
    for event in vec![DaemonEvent::Done, speech(), DaemonEvent::Done] {
        flow = flow.step(&mut sessions, event).0;
    }
    let (flow, action) = flow.step(&mut sessions, text("hello"));
    assert_eq!(action, DaemonAction::Inject { text: "hello".to_string() });

    assert!(!token.cancel(&mut sessions));
    let actions = run_stop(
        flow,
        &mut sessions,
        vec![failed("no tool"), DaemonEvent::Done, DaemonEvent::Done],
    );

    assert_eq!(
        actions,
        vec![
            DaemonAction::ShowError {
                message: "Text injection failed: no tool. Transcript may be on clipboard if paste fallback copied it.".to_string(),
                failure: None,
            },
            DaemonAction::ShowComplete { text: "hello".to_string() },
            DaemonAction::Finish,
        ]
    );
}

#[test]
fn a_stop_that_was_cancelled_throws_the_recording_away() {
    let mut sessions = SessionStates::new();
    let token = CancellationToken::new(&mut sessions);
    token.cancel(&mut sessions);

    let actions = run_stop(
        StopFlow::new(token, true, true, true),
        &mut sessions,
        vec![DaemonEvent::Done, DaemonEvent::Done, DaemonEvent::Done, DaemonEvent::Done],
    );

    assert_eq!(
        actions,
        vec![
            DaemonAction::CancelChunking,
            DaemonAction::CancelAudio,
            DaemonAction::ShowCancelled,
            DaemonAction::Finish,
        ]
    );
}

#[test]
fn a_stop_that_fails_ends_the_chunking_session() {
    let mut sessions = SessionStates::new();
    let token = CancellationToken::new(&mut sessions);

    let actions = run_stop(
        StopFlow::new(token, true, true, true),
        &mut sessions,
        vec![
            DaemonEvent::Done,
            DaemonEvent::Stopped { audio: StoppedAudio::Failed { error: "gone".to_string() } },
            DaemonEvent::Done,
            DaemonEvent::Done,
        ],
    );

    assert_eq!(
        actions,
        vec![
            DaemonAction::StopAudio { snapshot: true },
            DaemonAction::CancelChunking,
            DaemonAction::ShowError {
                message: "Failed to stop recording: gone".to_string(),
                failure: Some(Failure {
                    phase: ErrorPhase::AudioStop,
                    cause: "gone".to_string(),
                }),
            },
            DaemonAction::Finish,
        ]
    );
}

#[test]
fn an_empty_text_is_no_speech_and_a_failure_is_told() {
    let mut sessions = SessionStates::new();
    let token = CancellationToken::new(&mut sessions);
    let actions = run_stop(
        StopFlow::new(token, true, true, false),
        &mut sessions,
        vec![DaemonEvent::Done, speech(), DaemonEvent::Done, text("")],
    );
    assert_eq!(
        actions[3],
        DaemonAction::ShowError { message: "No speech detected".to_string(), failure: None }
    );

    let token = CancellationToken::new(&mut sessions);
    let actions = run_stop(
        StopFlow::new(token, true, true, false),
        &mut sessions,
        vec![DaemonEvent::Done, speech(), DaemonEvent::Done, failed("model")],
    );
    assert_eq!(
        actions[3],
        DaemonAction::ShowError {
            message: "Transcription failed: model".to_string(),
            failure: Some(Failure {
                phase: ErrorPhase::Transcription,
                cause: "model".to_string(),
            }),
        }
    );
}

#[test]
fn without_auto_paste_the_text_is_only_shown() {
    let mut sessions = SessionStates::new();
    let token = CancellationToken::new(&mut sessions);

    let actions = run_stop(
        StopFlow::new(token, false, false, false),
        &mut sessions,
        vec![DaemonEvent::Done, speech(), DaemonEvent::Done, text("hello"), DaemonEvent::Done],
    );

    assert_eq!(
        actions[2..],
        [
            DaemonAction::Transcribe { retention: AudioFileRetention::Keep },
            DaemonAction::ShowComplete { text: "hello".to_string() },
            DaemonAction::Finish,
        ]
    );
}

#[test]
fn a_start_records_prepares_and_chunks() {
    let mut sessions = SessionStates::new();
    let token = CancellationToken::new(&mut sessions);
    let mut lifecycle = AppLifecycle::Recording(token);
    let mut flow = StartFlow::new(token, true, true);

    let mut actions = Vec::new();
    for _ in 0..5 {
        actions.push(flow.step(&mut lifecycle, &sessions, DaemonEvent::Done));
    }

    assert_eq!(
        actions,
        vec![
            DaemonAction::ShowRecording,
            DaemonAction::StartAudio,
            DaemonAction::PrepareProvider,
            DaemonAction::StartChunking,
            DaemonAction::Finish,
        ]
    );
    assert_eq!(lifecycle, AppLifecycle::Recording(token));
}

#[test]
fn a_start_that_fails_gives_the_reservation_back() {
    let mut sessions = SessionStates::new();
    let token = CancellationToken::new(&mut sessions);
    let mut lifecycle = AppLifecycle::Recording(token);
    let mut flow = StartFlow::new(token, false, false);
    flow.step(&mut lifecycle, &sessions, DaemonEvent::Done);
    flow.step(&mut lifecycle, &sessions, DaemonEvent::Done);

    let action = flow.step(&mut lifecycle, &sessions, failed("no device"));

    assert_eq!(
        action,
        DaemonAction::ShowError {
            message: "Recording failed: no device".to_string(),
            failure: Some(Failure {
                phase: ErrorPhase::AudioStart,
                cause: "no device".to_string(),
            }),
        }
    );
    assert_eq!(lifecycle, AppLifecycle::Idle);
    assert_eq!(
        flow.step(&mut lifecycle, &sessions, DaemonEvent::Done),
        DaemonAction::Finish
    );
}

#[test]
fn a_cancelled_start_is_skipped_and_unsupported_chunking_is_told() {
    let mut sessions = SessionStates::new();
    let token = CancellationToken::new(&mut sessions);
    let mut lifecycle = AppLifecycle::Idle;
    token.cancel(&mut sessions);
    let mut flow = StartFlow::new(token, true, true);
    assert_eq!(
        flow.step(&mut lifecycle, &sessions, DaemonEvent::Done),
        DaemonAction::Finish
    );

    let token = CancellationToken::new(&mut sessions);
    let mut flow = StartFlow::new(token, true, false);
    for _ in 0..3 {
        flow.step(&mut lifecycle, &sessions, DaemonEvent::Done);
    }
    assert_eq!(
        flow.step(&mut lifecycle, &sessions, DaemonEvent::Done),
        DaemonAction::WarnChunkingUnsupported
    );
}

#[test]
fn a_cancellation_ends_chunks_then_audio() {
    let mut flow = CancelFlow::new(true);
    assert_eq!(flow.step(), DaemonAction::CancelChunking);
    assert_eq!(flow.step(), DaemonAction::CancelAudio);
    assert_eq!(flow.step(), DaemonAction::ShowCancelled);
    assert_eq!(flow.step(), DaemonAction::Finish);

    let mut flow = CancelFlow::new(false);
    assert_eq!(flow.step(), DaemonAction::CancelAudio);
}

#[test]
fn names_of_phases_and_events() {
    assert_eq!(ErrorPhase::AudioStart.as_str(), "audio_start");
    assert_eq!(ErrorPhase::AudioStop.as_str(), "audio_stop");
    assert_eq!(ErrorPhase::Transcription.as_str(), "transcription");
    assert_eq!(emit_dequeue_event(ApiCommandSource::Start), "main_start_dequeued");
    assert_eq!(emit_dequeue_event(ApiCommandSource::Stop), "main_stop_dequeued");
    assert_eq!(emit_dequeue_event(ApiCommandSource::Toggle), "main_toggle_dequeued");
    assert_eq!(retention_for(true), AudioFileRetention::Delete);
    assert_eq!(retention_for(false), AudioFileRetention::Keep);
}
