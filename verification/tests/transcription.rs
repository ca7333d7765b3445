use smoltalk::cancellation::{CancellationToken, SessionStates};
use smoltalk::commands::Program;
use smoltalk::transcription::TranscriptionService;
use smoltalk::whisper::providers::openai_cli::OpenAIWhisperCliProvider;
use smoltalk::whisper::providers::whisper_cpp::{WhisperCppOptions, WhisperCppProvider};
use smoltalk::whisper::WhisperTranscriber;

fn service() -> TranscriptionService<WhisperCppProvider> {
    let provider = WhisperCppProvider {
        command_path: Program::Given("/usr/bin/whisper-cli".to_string()),
        model_path: None,
        model: "base".to_string(),
        options: WhisperCppOptions::default(),
    };
    TranscriptionService::new(WhisperTranscriber::from_provider(provider, "en")).unwrap()
}

fn raw() -> Result<String, String> {
    Ok("[00:00:00.000 --> 00:00:01.000] hello [BLANK_AUDIO] world".to_string())
}

#[test]
fn sample_pipeline_normalizes_provider_output() {
    let mut sessions = SessionStates::new();
    let cancellation = CancellationToken::new(&mut sessions);

    let text = service().finish_transcription(raw(), &cancellation, &sessions).unwrap();

    assert_eq!(text, "hello world");
}

#[test]
fn cancelled_sample_pipeline_does_not_return_a_transcript() {
    let mut sessions = SessionStates::new();
    let cancellation = CancellationToken::new(&mut sessions);
    cancellation.cancel(&mut sessions);

    let result = service().finish_transcription(raw(), &cancellation, &sessions);

    assert_eq!(result, Err("transcription cancelled".to_string()));
}

#[test]
fn provider_failures_are_handed_on() {
    let mut sessions = SessionStates::new();
    let cancellation = CancellationToken::new(&mut sessions);

    assert_eq!(
        service().finish_transcription(Err("boom".to_string()), &cancellation, &sessions),
        Err("boom".to_string())
    );
    let mut service = service();
    assert!(!service.supports_chunking());
    assert_eq!(service.prepare(0), None);
    assert!(service.model_status(0).is_none());
    assert!(service.recording_complete().is_ok());
    assert!(service.unload_model().is_ok());
    assert!(matches!(service.reload_model(0), Ok(None)));
    assert_eq!(
        service.whisper.provider.command_path,
        Program::Given("/usr/bin/whisper-cli".to_string())
    );
}

#[test]
fn openai_output_keeps_its_brackets() {
    let provider = OpenAIWhisperCliProvider {
        command_path: Program::Given("/usr/bin/whisper".to_string()),
        model: "base".to_string(),
    };
    let whisper = WhisperTranscriber::from_provider(provider, "en");
    assert!(whisper.is_openai_whisper());
    let service = TranscriptionService::new(whisper).unwrap();
    let mut sessions = SessionStates::new();
    let cancellation = CancellationToken::new(&mut sessions);

    let text = service.finish_transcription(raw(), &cancellation, &sessions).unwrap();

    assert_eq!(text, "[00:00:00.000 --> 00:00:01.000] hello world");
}
