use smoltalk::api::{
    answered_status, generate_waybar_response, release_recording_reservation,
    reserve_cancel_command, reserve_recording_command, settle_cancel_command,
    settle_recording_command, wants_waybar, ApiCommandSource, AppLifecycle, AppStatus,
    ProcessingResetGuard, RecordingCommand, RecordingRequest, ReservationOutcome, Unavailable,
};
use smoltalk::cancellation::{CancellationToken, SessionStates};
use smoltalk::config::WaybarConfig;

/// A daemon's shared state: its lifecycle, its sessions and a command queue of limited size.
struct Shared {
    lifecycle: AppLifecycle,
    sessions: SessionStates,
    queue: Vec<RecordingCommand>,
    capacity: usize,
}

impl Shared {
    fn new(capacity: usize) -> Shared {
        Shared {
            lifecycle: AppLifecycle::Idle,
            sessions: SessionStates::new(),
            queue: Vec::new(),
            capacity,
        }
    }

    fn recording(capacity: usize) -> (Shared, CancellationToken) {
        let mut shared = Shared::new(capacity);
        let token = CancellationToken::new(&mut shared.sessions);
        shared.lifecycle = AppLifecycle::Recording(token);
        (shared, token)
    }

    fn processing(capacity: usize) -> (Shared, CancellationToken) {
        let (mut shared, token) = Shared::recording(capacity);
        shared.lifecycle = AppLifecycle::Processing(token);
        (shared, token)
    }

    fn try_send(&mut self, command: RecordingCommand) -> bool {
        if self.queue.len() < self.capacity {
            self.queue.push(command);
            true
        } else {
            false
        }
    }

    fn request(&mut self, request: RecordingRequest) -> Result<ReservationOutcome, Unavailable> {
        let reservation =
            reserve_recording_command(&mut self.lifecycle, &mut self.sessions, request);
        let queued = match reservation.command {
            Some(command) => self.try_send(command),
            None => false,
        };
        settle_recording_command(&mut self.lifecycle, request, reservation, queued)
    }

    fn cancel(&mut self) -> Result<ReservationOutcome, Unavailable> {
        let queued = match reserve_cancel_command(&self.lifecycle) {
            Some(command) => self.try_send(command),
            None => false,
        };
        settle_cancel_command(&mut self.lifecycle, &mut self.sessions, queued)
    }
}

fn lifecycle_token(lifecycle: &AppLifecycle) -> Option<CancellationToken> {
    match lifecycle {
        AppLifecycle::Idle => None,
        AppLifecycle::Recording(token) | AppLifecycle::Processing(token) => Some(*token),
    }
}

#[test]
fn recording_lifecycle_owns_its_utterance_token() {
    let mut sessions = SessionStates::new();
    let cancellation = CancellationToken::new(&mut sessions);
    let lifecycle = AppLifecycle::Recording(cancellation);

    assert_eq!(lifecycle.status(), AppStatus::Recording);
    assert!(lifecycle_token(&lifecycle).unwrap().same_session(&cancellation));
}

#[test]
fn waybar_response_reports_processing_state() {
    let config = WaybarConfig::default();

    let response = generate_waybar_response(AppStatus::Processing, &config);

    assert_eq!(response.text, config.processing_text);
    assert_eq!(response.class, "chezwizper-processing");
    assert_eq!(response.tooltip, config.processing_tooltip);
}

#[test]
fn waybar_response_reports_every_state() {
    let config = WaybarConfig::default();

    let idle = generate_waybar_response(AppStatus::Idle, &config);
    assert_eq!(idle.text, config.idle_text);
    assert_eq!(idle.class, "chezwizper-idle");
    assert_eq!(idle.tooltip, "Press Super+R to record");
    let recording = generate_waybar_response(AppStatus::Recording, &config);
    assert_eq!(recording.text, config.recording_text);
    assert_eq!(recording.class, "chezwizper-recording");
    assert_eq!(recording.tooltip, "Recording... Press Super+R to stop");
}

#[test]
fn processing_reset_guard_restores_idle() {
    let (mut shared, cancellation) = Shared::processing(1);

    let guard = ProcessingResetGuard::new(cancellation);
    assert!(guard.reset(&mut shared.lifecycle));

    assert_eq!(shared.lifecycle, AppLifecycle::Idle);
}

#[test]
fn processing_reset_guard_does_not_overwrite_a_new_recording() {
    let (mut shared, old) = Shared::processing(1);
    let replacement = CancellationToken::new(&mut shared.sessions);

    let guard = ProcessingResetGuard::new(old);
    shared.lifecycle = AppLifecycle::Recording(replacement);
    assert!(!guard.reset(&mut shared.lifecycle));

    assert_eq!(shared.lifecycle, AppLifecycle::Recording(replacement));
}

#[test]
fn processing_reset_guard_does_not_overwrite_new_processing_session() {
    let (mut shared, old) = Shared::processing(1);
    let replacement = CancellationToken::new(&mut shared.sessions);

    let guard = ProcessingResetGuard::new(old);
    shared.lifecycle = AppLifecycle::Processing(replacement);
    assert!(!guard.reset(&mut shared.lifecycle));

    assert_eq!(shared.lifecycle, AppLifecycle::Processing(replacement));
}

#[test]
fn start_from_idle_reserves_recording_and_enqueues_start() {
    let mut shared = Shared::new(1);

    let outcome = shared.request(RecordingRequest::Start).expect("start should enqueue");

    assert_eq!(outcome.status, AppStatus::Recording);
    assert!(outcome.success);
    assert_eq!(outcome.message, "Recording started");
    let cancellation = lifecycle_token(&shared.lifecycle).unwrap();
    assert_eq!(shared.lifecycle.status(), AppStatus::Recording);
    assert_eq!(
        shared.queue,
        vec![RecordingCommand::Start(ApiCommandSource::Start, cancellation)]
    );
}

#[test]
fn start_from_recording_is_idempotent_without_enqueue() {
    let (mut shared, _) = Shared::recording(1);

    let outcome = shared
        .request(RecordingRequest::Start)
        .expect("duplicate start should be accepted");

    assert_eq!(outcome.status, AppStatus::Recording);
    assert_eq!(shared.lifecycle.status(), AppStatus::Recording);
    assert!(shared.queue.is_empty());
}

#[test]
fn start_from_processing_is_idempotent_without_enqueue() {
    let (mut shared, _) = Shared::processing(1);

    let outcome = shared
        .request(RecordingRequest::Start)
        .expect("start during processing should be accepted as a no-op");

    assert_eq!(outcome.status, AppStatus::Processing);
    assert_eq!(shared.lifecycle.status(), AppStatus::Processing);
    assert!(shared.queue.is_empty());
}

#[test]
fn stop_from_recording_reserves_processing_and_enqueues_stop() {
    let (mut shared, cancellation) = Shared::recording(1);

    let outcome = shared.request(RecordingRequest::Stop).expect("stop should enqueue");

    assert_eq!(outcome.status, AppStatus::Processing);
    assert_eq!(outcome.message, "Recording stopped");
    assert_eq!(shared.lifecycle.status(), AppStatus::Processing);
    assert_eq!(
        shared.queue,
        vec![RecordingCommand::Stop(ApiCommandSource::Stop, cancellation)]
    );
}

#[test]
fn stop_from_idle_is_idempotent_without_enqueue() {
    let mut shared = Shared::new(1);

    let outcome = shared
        .request(RecordingRequest::Stop)
        .expect("stop from idle should be accepted as a no-op");

    assert_eq!(outcome.status, AppStatus::Idle);
    assert_eq!(shared.lifecycle, AppLifecycle::Idle);
    assert!(shared.queue.is_empty());
}

#[test]
fn stop_from_processing_is_idempotent_without_enqueue() {
    let (mut shared, _) = Shared::processing(1);

    let outcome = shared
        .request(RecordingRequest::Stop)
        .expect("stop during processing should be accepted as a no-op");

    assert_eq!(outcome.status, AppStatus::Processing);
    assert_eq!(shared.lifecycle.status(), AppStatus::Processing);
    assert!(shared.queue.is_empty());
}

#[test]
fn toggle_from_idle_uses_start_reservation() {
    let mut shared = Shared::new(1);

    let outcome = shared
        .request(RecordingRequest::Toggle)
        .expect("toggle from idle should enqueue start");

    assert_eq!(outcome.status, AppStatus::Recording);
    assert_eq!(outcome.message, "Recording toggled");
    assert_eq!(answered_status(RecordingRequest::Toggle, &outcome), None);
    let cancellation = lifecycle_token(&shared.lifecycle).unwrap();
    assert_eq!(
        shared.queue,
        vec![RecordingCommand::Start(ApiCommandSource::Toggle, cancellation)]
    );
}

#[test]
fn toggle_from_recording_uses_stop_reservation() {
    let (mut shared, cancellation) = Shared::recording(1);

    let outcome = shared
        .request(RecordingRequest::Toggle)
        .expect("toggle from recording should enqueue stop");

    assert!(outcome.success);
    assert_eq!(outcome.message, "Recording toggled");
    assert_eq!(answered_status(RecordingRequest::Toggle, &outcome), None);
    assert_eq!(outcome.status, AppStatus::Processing);
    assert_eq!(shared.lifecycle.status(), AppStatus::Processing);
    assert_eq!(
        shared.queue,
        vec![RecordingCommand::Stop(ApiCommandSource::Toggle, cancellation)]
    );
}

#[test]
fn toggle_from_processing_preserves_existing_no_enqueue_response() {
    let (mut shared, _) = Shared::processing(1);

    let outcome = shared
        .request(RecordingRequest::Toggle)
        .expect("toggle during processing should return the existing API response");

    assert!(!outcome.success);
    assert_eq!(outcome.message, "Previous recording is still processing");
    assert_eq!(outcome.status, AppStatus::Processing);
    assert_eq!(
        answered_status(RecordingRequest::Toggle, &outcome),
        Some("processing")
    );
    assert_eq!(shared.lifecycle.status(), AppStatus::Processing);
    assert!(shared.queue.is_empty());
}

#[test]
fn fast_start_then_stop_preserves_queue_order() {
    let mut shared = Shared::new(2);

    shared.request(RecordingRequest::Start).expect("start should enqueue");
    shared
        .request(RecordingRequest::Stop)
        .expect("stop should enqueue before start is consumed");

    assert_eq!(shared.lifecycle.status(), AppStatus::Processing);
    let cancellation = lifecycle_token(&shared.lifecycle).unwrap();
    assert_eq!(
        shared.queue,
        vec![
            RecordingCommand::Start(ApiCommandSource::Start, cancellation),
            RecordingCommand::Stop(ApiCommandSource::Stop, cancellation),
        ]
    );
}

#[test]
fn channel_full_on_start_rolls_status_back_to_idle() {
    let mut shared = Shared::new(1);
    let queued = CancellationToken::new(&mut shared.sessions);
    assert!(shared.try_send(RecordingCommand::Stop(ApiCommandSource::Stop, queued)));

    let result = shared.request(RecordingRequest::Start);

    assert!(matches!(result, Err(Unavailable)));
    assert_eq!(shared.lifecycle, AppLifecycle::Idle);
    assert_eq!(
        shared.queue,
        vec![RecordingCommand::Stop(ApiCommandSource::Stop, queued)]
    );
}

#[test]
fn channel_full_on_stop_rolls_status_back_to_recording() {
    let (mut shared, cancellation) = Shared::recording(1);
    let queued = CancellationToken::new(&mut shared.sessions);
    assert!(shared.try_send(RecordingCommand::Start(ApiCommandSource::Start, queued)));

    let result = shared.request(RecordingRequest::Stop);

    assert!(matches!(result, Err(Unavailable)));
    assert_eq!(shared.lifecycle, AppLifecycle::Recording(cancellation));
    assert_eq!(shared.lifecycle.status(), AppStatus::Recording);
    assert_eq!(
        shared.queue,
        vec![RecordingCommand::Start(ApiCommandSource::Start, queued)]
    );
}

#[test]
fn channel_full_on_cancel_leaves_the_recording_alone() {
    let (mut shared, cancellation) = Shared::recording(0);

    let result = shared.cancel();

    assert!(matches!(result, Err(Unavailable)));
    assert_eq!(shared.lifecycle, AppLifecycle::Recording(cancellation));
    assert!(!cancellation.is_cancelled(&shared.sessions));
}

#[test]
fn cancel_from_recording_invalidates_utterance_and_enqueues_teardown() {
    let (mut shared, cancellation) = Shared::recording(1);

    let outcome = shared.cancel().expect("cancel should enqueue");

    assert!(outcome.success);
    assert_eq!(outcome.message, "Recording cancelled");
    assert_eq!(outcome.status, AppStatus::Idle);
    assert_eq!(shared.lifecycle, AppLifecycle::Idle);
    assert!(cancellation.is_cancelled(&shared.sessions));
    assert_eq!(shared.queue, vec![RecordingCommand::Cancel(cancellation)]);
}

#[test]
fn cancel_from_processing_invalidates_utterance_without_queueing_work() {
    let (mut shared, cancellation) = Shared::processing(1);

    let outcome = shared.cancel().expect("cancel should be accepted");

    assert_eq!(outcome.status, AppStatus::Idle);
    assert_eq!(shared.lifecycle, AppLifecycle::Idle);
    assert!(cancellation.is_cancelled(&shared.sessions));
    assert!(shared.queue.is_empty());
}

#[test]
fn cancel_after_commit_reports_too_late() {
    let (mut shared, cancellation) = Shared::processing(1);
    assert!(cancellation.try_commit(&mut shared.sessions));

    let outcome = shared
        .cancel()
        .expect("late cancellation should return a response");

    assert!(!outcome.success);
    assert_eq!(outcome.message, "Text insertion has already started");
    assert_eq!(outcome.status, AppStatus::Processing);
    assert!(shared.queue.is_empty());
}

#[test]
fn failed_old_start_does_not_release_new_recording_reservation() {
    let mut shared = Shared::new(1);
    let old = CancellationToken::new(&mut shared.sessions);
    let replacement = CancellationToken::new(&mut shared.sessions);
    shared.lifecycle = AppLifecycle::Recording(replacement);

    assert!(!release_recording_reservation(&mut shared.lifecycle, &old));

    assert_eq!(shared.lifecycle, AppLifecycle::Recording(replacement));
    assert!(release_recording_reservation(&mut shared.lifecycle, &replacement));
    assert_eq!(shared.lifecycle, AppLifecycle::Idle);
}

#[test]
fn processing_cancellation_allows_immediate_replacement_start() {
    let mut shared = Shared::new(3);

    shared.request(RecordingRequest::Start).unwrap();
    let cancelled = lifecycle_token(&shared.lifecycle).unwrap();
    shared.request(RecordingRequest::Stop).unwrap();
    shared.cancel().unwrap();
    shared.request(RecordingRequest::Start).unwrap();

    let replacement = lifecycle_token(&shared.lifecycle).unwrap();
    assert_eq!(shared.lifecycle.status(), AppStatus::Recording);
    assert!(cancelled.is_cancelled(&shared.sessions));
    assert!(!replacement.is_cancelled(&shared.sessions));
    assert!(!replacement.same_session(&cancelled));
    assert_eq!(
        shared.queue,
        vec![
            RecordingCommand::Start(ApiCommandSource::Start, cancelled),
            RecordingCommand::Stop(ApiCommandSource::Stop, cancelled),
            RecordingCommand::Start(ApiCommandSource::Start, replacement),
        ]
    );
}

#[test]
fn cancel_from_idle_is_an_idempotent_no_op() {
    let mut shared = Shared::new(1);

    let outcome = shared.cancel().unwrap();

    assert!(outcome.success);
    assert_eq!(outcome.status, AppStatus::Idle);
    assert!(shared.queue.is_empty());
}

#[test]
fn statuses_have_names() {
    assert_eq!(AppStatus::Idle.as_str(), "idle");
    assert_eq!(AppStatus::Recording.as_str(), "recording");
    assert_eq!(AppStatus::Processing.as_str(), "processing");
}

#[test]
fn the_waybar_style_is_asked_for_by_name() {
    assert!(wants_waybar(Some("waybar")));
    assert!(!wants_waybar(Some("Waybar")));
    assert!(!wants_waybar(None));
}
