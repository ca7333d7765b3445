use smoltalk::commands::{PlacePath, Program};
use smoltalk::whisper::process::{Deadline, ProcessError};
use smoltalk::whisper::provider::{Argument, TranscriptionProvider};
use smoltalk::whisper::providers::openai_cli::CommandOutput;
use smoltalk::whisper::providers::whisper_cpp::{
    first_found, locate_whisper_cpp, whisper_cpp_programs, CppAction, CppEvent, CppFlow,
    WhisperCppOptions, WhisperCppProvider, WHISPER_CPP_DEADLINE,
};

fn words(args: Vec<Argument<&str, String>>) -> Vec<String> {
    args.into_iter()
        .map(|arg| match arg {
            Argument::Audio(path) => path.to_string(),
            Argument::Text(text) => text,
        })
        .collect()
}

fn ran(success: bool, stdout: &str) -> CppEvent<String> {
    CppEvent::Ran {
        output: CommandOutput {
            success,
            stdout: stdout.to_string(),
            stderr: String::new(),
        },
    }
}

#[test]
fn transcribe_passes_optional_performance_flags_to_primary_command() {
    let provider = WhisperCppProvider::new(
        Ok(Program::Given("/tmp/whisper-primary".to_string())),
        "base".to_string(),
        None,
        WhisperCppOptions {
            threads: Some(8),
            beam_size: Some(5),
            best_of: Some(3),
            no_fallback: Some(true),
            timeout_secs: Some(30),
        },
    )
    .unwrap();
    let mut flow = CppFlow::new(provider.options.timeout_secs);

    assert_eq!(flow.step(CppEvent::Begin), CppAction::RunPrimary);
    assert_eq!(
        flow.step(ran(true, "transcript\n")),
        CppAction::Finish { result: Ok("transcript".to_string()) }
    );
    assert_eq!(
        words(provider.primary_args("/tmp/audio.wav", "en")),
        vec![
            "-f",
            "/tmp/audio.wav",
            "-m",
            "models/ggml-base.bin",
            "-l",
            "en",
            "-nt",
            "-np",
            "-t",
            "8",
            "-bs",
            "5",
            "-bo",
            "3",
            "-nf",
        ]
    );
}

#[test]
fn transcribe_passes_optional_performance_flags_to_fallback_command() {
    let provider = WhisperCppProvider::new(
        Ok(Program::Given("/tmp/whisper-fallback".to_string())),
        "base".to_string(),
        Some("custom-model.bin".to_string()),
        WhisperCppOptions {
            threads: Some(4),
            beam_size: Some(2),
            best_of: Some(6),
            no_fallback: Some(true),
            timeout_secs: Some(30),
        },
    )
    .unwrap();
    let mut flow = CppFlow::new(provider.options.timeout_secs);

    flow.step(CppEvent::Begin);
    assert_eq!(flow.step(ran(false, "")), CppAction::RunFallback);
    assert_eq!(
        flow.step(ran(true, "fallback transcript\n")),
        CppAction::Finish { result: Ok("fallback transcript".to_string()) }
    );
    assert_eq!(
        words(provider.fallback_args("/tmp/audio.wav")),
        vec![
            "-f",
            "/tmp/audio.wav",
            "-m",
            "custom-model.bin",
            "-t",
            "4",
            "-bs",
            "2",
            "-bo",
            "6",
            "-nf",
        ]
    );
}

#[test]
fn transcribe_times_out_hung_command() {
    let mut flow = CppFlow::new(Some(0));

    flow.step(CppEvent::Begin);
    let action = flow.step(CppEvent::NotRun { error: ProcessError::TimedOut });

    assert_eq!(
        action,
        CppAction::Finish {
            result: Err("whisper.cpp command timed out after 0s".to_string()),
        }
    );
}

#[test]
fn two_failed_runs_fail_the_transcription() {
    let mut flow = CppFlow::new(None);
    flow.step(CppEvent::Begin);
    flow.step(ran(false, ""));
    assert_eq!(
        flow.step(ran(false, "")),
        CppAction::Finish { result: Err("Whisper.cpp transcription failed".to_string()) }
    );

    let mut flow = CppFlow::new(None);
    flow.step(CppEvent::Begin);
    assert_eq!(
        flow.step(CppEvent::NotRun { error: ProcessError::Cancelled }),
        CppAction::Finish { result: Err("transcription cancelled".to_string()) }
    );
}

#[test]
fn without_options_there_are_no_flags() {
    let provider = WhisperCppProvider::new(
        Ok(Program::Given("/w".to_string())),
        "tiny".to_string(),
        None,
        WhisperCppOptions::default(),
    )
    .unwrap();

    assert_eq!(words(provider.fallback_args("a.wav")), vec!["-f", "a.wav"]);
    assert_eq!(provider.name(), "whisper.cpp");
    assert_eq!(provider.required_path(), Some(PlacePath::Text("/w")));
    assert!(!provider.supports_chunking());
}

#[test]
fn the_program_is_looked_for_under_two_names() {
    let found = which::which("whisper-cli").is_ok() || which::which("whisper").is_ok();

    assert_eq!(locate_whisper_cpp(None, false).is_ok(), found);
    assert_eq!(
        locate_whisper_cpp(Some("/missing".to_string()), false).unwrap_err().message,
        "Custom whisper path does not exist: \"/missing\""
    );
}

#[test]
fn the_preferred_program_is_looked_for_first() {
    assert_eq!(whisper_cpp_programs(), ("whisper-cli", "whisper"));
    let cli = || Some("/usr/bin/whisper-cli".to_string());
    let other = || Some("/usr/bin/whisper".to_string());
    assert_eq!(first_found(cli(), other()), cli());
    assert_eq!(first_found(cli(), None), cli());
    assert_eq!(first_found(None, other()), other());
    assert_eq!(first_found::<String>(None, None), None);
    assert_eq!(WHISPER_CPP_DEADLINE, Deadline::AfterExit);
}
