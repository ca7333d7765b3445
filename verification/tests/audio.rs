use smoltalk::audio::{
    recorded_audio_from_vad, select_input_device, take_samples_with_snapshot, AudioError,
    AudioStreamManager, RecordedAudio, RecordingBuffer, RecordingState,
};
use smoltalk::chunking::Segment;
use smoltalk::vad::VadOutput;

#[test]
fn take_samples_moves_recorded_samples_out_of_shared_buffer() {
    let mut samples = vec![0.1, 0.2, 0.3];

    let (taken, snapshot) = take_samples_with_snapshot(&mut samples, false);

    assert_eq!(taken, vec![0.1, 0.2, 0.3]);
    assert_eq!(snapshot, None);
    assert!(samples.is_empty());
}

#[test]
fn recording_buffer_reads_new_samples_without_consuming_them() {
    let buffer = RecordingBuffer::new(vec![0.1, 0.2, 0.3, 0.4]);

    assert_eq!(buffer.read_from(2), vec![0.3, 0.4]);
    assert_eq!(buffer.samples, vec![0.1, 0.2, 0.3, 0.4]);
    assert_eq!(buffer.read_from(4), Vec::<f64>::new());
    assert_eq!(buffer.read_from(9), Vec::<f64>::new());
}

#[test]
fn taking_samples_can_retain_a_final_chunking_snapshot() {
    let mut samples = vec![0.1, 0.2, 0.3];

    let (taken, snapshot) = take_samples_with_snapshot(&mut samples, true);

    assert_eq!(taken, vec![0.1, 0.2, 0.3]);
    assert_eq!(snapshot, Some(vec![0.1, 0.2, 0.3]));
    assert!(samples.is_empty());
}

#[test]
fn vad_speech_result_owns_trimmed_samples() {
    let trimmed = vec![0.25, -0.5, 0.75];
    let output = VadOutput {
        samples: trimmed.clone(),
        speech_range: Some(Segment { start: 4, end: 7 }),
        input_samples: 11,
        output_samples: trimmed.len(),
        skipped: false,
        engine: "test",
    };

    match recorded_audio_from_vad(output) {
        RecordedAudio::Speech(samples) => assert_eq!(samples, trimmed),
        RecordedAudio::NoSpeech => panic!("speech samples should not be discarded"),
    }
}

#[test]
fn skipped_vad_result_returns_no_speech_without_creating_a_wav() {
    let directory = tempfile::tempdir().unwrap();
    let unexpected_wav = directory.path().join("unexpected.wav");
    let output: VadOutput<f32> = VadOutput {
        samples: Vec::new(),
        speech_range: None,
        input_samples: 100,
        output_samples: 0,
        skipped: true,
        engine: "test",
    };

    assert!(matches!(
        recorded_audio_from_vad(output),
        RecordedAudio::NoSpeech
    ));
    assert!(!unexpected_wav.exists());
}

#[test]
fn discard_recording_drops_samples_and_restores_idle() {
    let mut manager = AudioStreamManager::new();
    manager.start_recording().unwrap();
    manager.stream_started();
    manager.push_samples(&vec![0.1, 0.2, 0.3]);

    manager.cancel_recording();

    assert_eq!(manager.state(), RecordingState::Idle);
    assert!(manager.read_from(0).is_empty());
}

#[test]
fn a_stop_that_is_abandoned_leaves_the_session_idle() {
    let mut manager = AudioStreamManager::new();
    manager.start_recording().unwrap();
    manager.stream_started();
    manager.push_samples(&vec![0.5]);
    manager.stop_recording().unwrap();
    assert_eq!(manager.state(), RecordingState::Stopping);
    assert_eq!(manager.start_recording(), Err(AudioError::StillStopping));
    assert_eq!(manager.stop_recording(), Err(AudioError::AlreadyStopping));

    manager.abandon_stop();

    assert_eq!(manager.state(), RecordingState::Idle);
    assert_eq!(manager.start_recording(), Ok(()));
}

#[test]
fn a_recording_hands_out_what_the_stream_gave() {
    let mut manager = AudioStreamManager::new();
    assert_eq!(manager.stop_recording(), Err(AudioError::NotRecording));
    manager.start_recording().unwrap();
    manager.stream_started();
    assert_eq!(manager.start_recording(), Err(AudioError::AlreadyRecording));
    assert!(!manager.push_samples(&Vec::new()));
    assert!(manager.push_samples(&vec![1, 2]));
    assert!(!manager.push_samples(&vec![3]));
    assert_eq!(manager.read_from(1), vec![2, 3]);

    let (samples, snapshot) = manager.stop_recording_with_snapshot().unwrap();
    assert_eq!(samples, vec![1, 2, 3]);
    assert_eq!(snapshot, vec![1, 2, 3]);

    let output = VadOutput {
        samples: vec![2],
        speech_range: Some(Segment { start: 1, end: 2 }),
        input_samples: 3,
        output_samples: 1,
        skipped: false,
        engine: "amplitude",
    };
    let (audio, snapshot) = manager.finish_stop(output, Some(snapshot));
    assert!(matches!(audio, RecordedAudio::Speech(samples) if samples == vec![2]));
    let snapshot = snapshot.unwrap();
    assert_eq!(snapshot.samples, vec![1, 2, 3]);
    assert_eq!(snapshot.speech_end, 2);
    assert_eq!(manager.state(), RecordingState::Idle);
}

#[test]
fn a_recording_without_samples_cannot_be_stopped() {
    let mut manager: AudioStreamManager<u8> = AudioStreamManager::new();
    manager.start_recording().unwrap();
    manager.stream_started();

    assert_eq!(manager.stop_recording(), Err(AudioError::NoSamples));
    assert_eq!(manager.state(), RecordingState::Idle);
}

#[test]
fn audio_errors_have_messages() {
    assert_eq!(AudioError::AlreadyRecording.message(), "Recording already in progress");
    assert_eq!(AudioError::StillStopping.message(), "Previous recording still stopping");
    assert_eq!(AudioError::NotRecording.message(), "No recording in progress");
    assert_eq!(AudioError::AlreadyStopping.message(), "Recording already stopping");
    assert_eq!(AudioError::NoSamples.message(), "No audio samples recorded");
}

#[test]
fn a_configured_device_is_found_by_its_name() {
    let names = vec![Some("mic".to_string()), None, Some("usb".to_string())];

    assert_eq!(select_input_device("usb", Some(&names)), Some(2));
    assert_eq!(select_input_device("mic", Some(&names)), Some(0));
    assert_eq!(select_input_device("gone", Some(&names)), None);
    assert_eq!(select_input_device("default", Some(&names)), None);
    assert_eq!(select_input_device("usb", None), None);
}
