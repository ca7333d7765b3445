use smoltalk::commands::{FoundProgram, PlacePath, Program};
use smoltalk::config::WhisperConfig;
use smoltalk::whisper::audio_ctx::{
    audio_ctx_from_i64, audio_ctx_from_str, audio_ctx_from_u32, audio_ctx_from_u64, parse_number,
    AudioCtxError, WrittenAudioCtx,
};
use smoltalk::whisper::process::{
    deadline_passed, terminate_outcome, Deadline, ProcessAction, ProcessError, ProcessEvent, ProcessFlow,
};
use smoltalk::whisper::provider::{
    Argument, AudioFileRetention, ProviderError, SampleAction, SampleEvent, SampleFlow,
    TranscriptionProvider,
};
use smoltalk::whisper::providers::openai_cli::{
    choose_command, contains, locate_openai, openai_program, output_path, output_path_for, CliAction, CliEvent, CliFlow, CommandOutput, OpenAIWhisperCliProvider,
    OPENAI_DEADLINE,
};
use smoltalk::whisper::transcriber::{preloads, provider_config};
use smoltalk::whisper::{
    combined_initial_prompt, AnyProvider, AudioCtxConfig, Environment, ProviderConfig,
    WhisperTranscriber,
};

const OPENAI_HELP: &str = "usage: whisper [--output_dir DIR] [--output_format {txt,json}]";

fn words(args: Vec<Argument<&str, String>>) -> Vec<String> {
    args.into_iter()
        .map(|arg| match arg {
            Argument::Audio(path) => path.to_string(),
            Argument::Text(text) => text,
        })
        .collect()
}

fn given(path: &str) -> Program {
    Program::Given(path.to_string())
}

fn found(path: &str) -> FoundProgram {
    let path = std::path::PathBuf::from(path);
    let file = path.file_name().unwrap().to_str().unwrap().to_string();
    FoundProgram { path, file }
}

fn bare_environment() -> Environment {
    Environment {
        openai_command: Err(ProviderError::new("no openai")),
        openai_help: None,
        openai_available: false,
        cpp_command: Err(ProviderError::new("no cpp")),
        cpp_available: false,
        data_dir: None,
        models_present: Vec::new(),
    }
}

fn full_environment() -> Environment {
    Environment {
        openai_command: Ok(given("/usr/bin/whisper")),
        openai_help: Some(OPENAI_HELP.to_string()),
        openai_available: true,
        cpp_command: Ok(given("/usr/bin/whisper-cli")),
        cpp_available: true,
        data_dir: Some("/home/me/.local/share".to_string()),
        models_present: vec![false, true, true],
    }
}

fn error_of(result: Result<WhisperTranscriber<AnyProvider>, ProviderError>) -> String {
    match result {
        Ok(_) => panic!("expected an error"),
        Err(error) => error.message,
    }
}

#[test]
fn combines_initial_prompt_and_coding_vocabulary() {
    let prompt = combined_initial_prompt(Some("Prefer concise text."), Some("Rust, Tokio"));

    assert_eq!(
        prompt,
        Some("Prefer concise text.\nRust, Tokio".to_string())
    );
}

#[test]
fn a_prompt_or_a_vocabulary_alone_is_kept() {
    assert_eq!(combined_initial_prompt(Some("a"), None), Some("a".to_string()));
    assert_eq!(combined_initial_prompt(None, Some("b")), Some("b".to_string()));
    assert_eq!(combined_initial_prompt(None, None), None);
}

#[test]
fn provider_config_defaults_to_releasing_the_model_between_recordings() {
    assert_eq!(ProviderConfig::default().keep_warm_for_secs, Some(0));
}

#[test]
fn provider_config_preserves_explicit_positive_keep_warm_duration() {
    let config = ProviderConfig {
        keep_warm_for_secs: Some(300),
        ..Default::default()
    };

    assert_eq!(config.whisper_rs_options().keep_warm_for_secs, Some(300));
}

/// The audio context in a file of settings.
fn audio_ctx_in(settings: &str) -> Result<AudioCtxConfig, AudioCtxError> {
    let table: toml::Table = toml::from_str(settings).unwrap();
    match &table["audio_ctx"] {
        toml::Value::String(text) => audio_ctx_from_str(text),
        toml::Value::Integer(value) => audio_ctx_from_i64(*value),
        _ => panic!("neither a text nor a number"),
    }
}

#[test]
fn audio_ctx_config_parses_auto() {
    assert_eq!(audio_ctx_in("audio_ctx = \"auto\""), Ok(AudioCtxConfig::Auto));
}

#[test]
fn audio_ctx_config_parses_fixed_integer() {
    assert_eq!(audio_ctx_in("audio_ctx = 256"), Ok(AudioCtxConfig::Fixed(256)));
}

#[test]
fn audio_ctx_config_parses_zero_as_full_context() {
    assert_eq!(audio_ctx_in("audio_ctx = 0"), Ok(AudioCtxConfig::Full));
}

#[test]
fn audio_ctx_config_parses_off_as_full_context() {
    assert_eq!(audio_ctx_in("audio_ctx = \"off\""), Ok(AudioCtxConfig::Full));
}

#[test]
fn audio_ctx_texts_are_parsed_as_numbers_are() {
    assert_eq!(audio_ctx_from_str("  FULL "), Ok(AudioCtxConfig::Full));
    assert_eq!(audio_ctx_from_str("Auto"), Ok(AudioCtxConfig::Auto));
    assert_eq!(audio_ctx_from_str("+0007"), Ok(AudioCtxConfig::Fixed(7)));
    for text in ["", "+", "-", "-5", "12x", "4294967295", "4294967296", "99999999999x", "x1", "++1"] {
        let expected = match text.parse::<u32>() {
            Ok(0) => Ok(AudioCtxConfig::Full),
            Ok(value) => Ok(AudioCtxConfig::Fixed(value)),
            Err(error) => Err(error.to_string()),
        };
        assert_eq!(
            audio_ctx_from_str(text).map_err(|error| error.message().to_string()),
            expected
        );
    }
    assert_eq!(audio_ctx_from_str(""), Err(AudioCtxError::Empty));
    assert_eq!(audio_ctx_from_str("?"), Err(AudioCtxError::InvalidDigit));
    assert_eq!(audio_ctx_from_str("5000000000"), Err(AudioCtxError::TooLarge));
}

#[test]
fn audio_ctx_numbers_have_32_bits() {
    assert_eq!(audio_ctx_from_u64(u64::from(u32::MAX)), Ok(AudioCtxConfig::Fixed(u32::MAX)));
    assert_eq!(audio_ctx_from_u64(1 << 32), Err(AudioCtxError::OutOfRange));
    assert_eq!(audio_ctx_from_i64(-1), Err(AudioCtxError::OutOfRange));
    assert_eq!(
        AudioCtxError::OutOfRange.message(),
        u32::try_from(-1_i64).unwrap_err().to_string()
    );
}

#[test]
fn audio_ctx_is_read_back_as_it_was_written() {
    for config in [AudioCtxConfig::Auto, AudioCtxConfig::Fixed(640), AudioCtxConfig::Full] {
        let read = match config.to_written() {
            WrittenAudioCtx::Auto => audio_ctx_from_str("auto"),
            WrittenAudioCtx::Number(value) => audio_ctx_from_u64(u64::from(value)),
        };
        assert_eq!(read, Ok(config));
    }
}

#[test]
fn transcriber_reports_pause_chunking_capability() {
    let transcriber = WhisperTranscriber::with_provider(
        "whisper-rs",
        ProviderConfig {
            model_path: Some("/tmp/missing-whisper-model.bin".to_string()),
            ..Default::default()
        },
        bare_environment(),
    )
    .unwrap_or_else(|error| panic!("{}", error.message));

    assert!(transcriber.supports_chunking());
    assert_eq!(transcriber.language, "en");
}

#[test]
fn providers_are_chosen_by_name() {
    let config = ProviderConfig {
        api_key: Some("SECRET-REDACTED".to_string()),
        language: Some("de".to_string()),
        ..Default::default()
    };
    let api = WhisperTranscriber::with_provider("openai-api", config, bare_environment());
    match api.map(|t| (t.provider, t.language)) {
        Ok((AnyProvider::OpenAIApi(provider), language)) => {
            assert_eq!(provider.model, "whisper-1");
            assert_eq!(language, "de");
        }
        _ => panic!("expected the API provider"),
    }
    let cli = WhisperTranscriber::with_provider(
        "openai-cli",
        ProviderConfig::default(),
        full_environment(),
    );
    match cli.map(|t| t.provider) {
        Ok(AnyProvider::OpenAICli(provider)) => {
            assert_eq!(provider.command_path, given("/usr/bin/whisper"));
            assert_eq!(provider.model, "base");
        }
        _ => panic!("expected OpenAI's program"),
    }
    let cpp = WhisperTranscriber::with_provider(
        "whisper-cpp",
        ProviderConfig { threads: Some(3), ..Default::default() },
        full_environment(),
    );
    match cpp.map(|t| t.provider) {
        Ok(AnyProvider::WhisperCpp(provider)) => {
            assert_eq!(provider.command_path, given("/usr/bin/whisper-cli"));
            assert_eq!(provider.options.threads, Some(3));
        }
        _ => panic!("expected whisper.cpp"),
    }
    let rs = WhisperTranscriber::with_provider(
        "whisper-rs",
        ProviderConfig::default(),
        full_environment(),
    );
    match rs.map(|t| t.provider) {
        Ok(AnyProvider::WhisperRs(provider)) => assert_eq!(
            provider.model_path,
            "/home/me/.local/share/chezwizper/whisper/models/ggml-base.en.bin"
        ),
        _ => panic!("expected whisper-rs"),
    }
}

#[test]
fn providers_that_cannot_be_set_up_say_why() {
    let config = ProviderConfig::default;
    assert_eq!(
        error_of(WhisperTranscriber::with_provider("openai-api", config(), full_environment())),
        "api_key is required for OpenAI API provider"
    );
    assert_eq!(
        error_of(WhisperTranscriber::with_provider("openai-cli", config(), bare_environment())),
        "no openai"
    );
    let mut other = full_environment();
    other.openai_help = Some("whisper.cpp".to_string());
    assert_eq!(
        error_of(WhisperTranscriber::with_provider("openai-cli", config(), other)),
        "Detected whisper CLI is not OpenAI Whisper"
    );
    assert_eq!(
        error_of(WhisperTranscriber::with_provider("whisper-cpp", config(), bare_environment())),
        "no cpp"
    );
    assert_eq!(
        error_of(WhisperTranscriber::with_provider("whisper-rs", config(), bare_environment())),
        "failed to determine data directory"
    );
    assert_eq!(
        error_of(WhisperTranscriber::with_provider("unknown", config(), bare_environment())),
        "No transcription provider available. Install whisper-cpp, openai-whisper, or configure OpenAI API with api_key"
    );
}

#[test]
fn detection_prefers_openai_then_whisper_cpp() {
    let first =
        WhisperTranscriber::auto_detect(ProviderConfig::default(), full_environment()).unwrap();
    assert_eq!(first.provider.name(), "OpenAI Whisper CLI");
    assert!(first.is_openai_whisper());

    let mut other = full_environment();
    other.openai_available = false;
    let second = WhisperTranscriber::auto_detect(ProviderConfig::default(), other).unwrap();
    assert_eq!(second.provider.name(), "whisper.cpp");
    assert!(!second.is_openai_whisper());

    assert!(
        WhisperTranscriber::auto_detect(ProviderConfig::default(), bare_environment()).is_err()
    );
}

#[test]
fn only_whisper_rs_has_a_model_to_unload() {
    let mut cli =
        WhisperTranscriber::auto_detect(ProviderConfig::default(), full_environment()).unwrap();
    assert!(cli.unload_model().is_ok());
    assert_eq!(cli.provider.name(), "OpenAI Whisper CLI");
    assert!(matches!(cli.reload_model(0), Ok(None)));
    assert!(cli.model_status(0).is_none());
    assert!(cli.recording_complete().is_ok());
    assert_eq!(cli.prepare(0), None);

    let config = ProviderConfig {
        model_path: Some("/m.bin".to_string()),
        ..Default::default()
    };
    let mut rs = WhisperTranscriber::with_provider("whisper-rs", config, bare_environment())
        .unwrap();
    assert_eq!(rs.prepare(0), Some("/m.bin".to_string()));
    rs.finish_prepare(Ok(()), 1);
    assert_eq!(rs.prepare(2), None);
    assert_eq!(rs.model_status(2).unwrap().state, "warm");
    assert_eq!(rs.reload_model(3).unwrap(), Some("/m.bin".to_string()));
    rs.finish_prepare(Err("no memory".to_string()), 4);
    let status = rs.model_status(5).unwrap();
    assert_eq!((status.provider, status.state), ("whisper-rs", "error"));
    assert_eq!(status.error, Some("no memory".to_string()));
    assert!(rs.unload_model().is_ok());
    assert_eq!(rs.model_status(6).unwrap().state, "cold");
}

#[test]
fn settings_reach_the_provider() {
    let config = WhisperConfig {
        command_path: Some("/c".to_string()),
        beam_size: Some(2),
        timeout_secs: Some(9),
        ..Default::default()
    };

    let provider = provider_config(&config);

    assert_eq!(provider.model, Some("base".to_string()));
    assert_eq!(provider.language, Some("en".to_string()));
    assert_eq!(provider.command_path, Some("/c".to_string()));
    assert_eq!(provider.whisper_cpp_options().beam_size, Some(2));
    assert_eq!(provider.whisper_cpp_options().timeout_secs, Some(9));
    assert!(!preloads(&config));
    assert!(preloads(&WhisperConfig { keep_warm_for_secs: Some(1), ..Default::default() }));
    assert!(preloads(&WhisperConfig { keep_warm_for_secs: None, ..Default::default() }));
}

#[test]
fn a_command_path_has_to_exist() {
    assert_eq!(
        locate_openai(Some("/usr/bin/my \"whisper\"".to_string()), false)
            .unwrap_err()
            .message,
        "Custom whisper path does not exist: \"/usr/bin/my \\\"whisper\\\"\""
    );
    assert_eq!(
        locate_openai(Some("/usr/bin/whisper".to_string()), true),
        Ok(given("/usr/bin/whisper"))
    );
    assert_eq!(
        choose_command(None, false, None, "not here").unwrap_err().message,
        "not here"
    );
    assert_eq!(
        choose_command(None, false, Some(found("/bin/whisper")), "not here"),
        Ok(Program::Found(found("/bin/whisper")))
    );
    assert_eq!(
        locate_openai(None, false).is_ok(),
        which::which("whisper").is_ok()
    );
}

#[test]
fn openai_help_is_recognised() {
    for (whole, part) in [("", ""), ("abc", "bc"), ("abc", "cb"), ("aab", "ab"), ("a", "ab")] {
        assert_eq!(contains(whole, part), whole.contains(part));
    }
    let provider = OpenAIWhisperCliProvider::new(
        Ok(given("/w")),
        Some(OPENAI_HELP),
        "tiny".to_string(),
    )
    .unwrap_or_else(|error| panic!("{}", error.message));
    assert_eq!(
        words(provider.args("/tmp/a.wav", "de")),
        vec![
            "/tmp/a.wav",
            "--model",
            "tiny",
            "--language",
            "de",
            "--output_format",
            "txt",
            "--output_dir",
            "/tmp",
        ]
    );
    assert_eq!(provider.required_path(), Some(PlacePath::Text("/w")));
    assert_eq!(output_path("a"), "/tmp/a.txt");
    assert!(OpenAIWhisperCliProvider::new(Ok(given("/w")), None, String::new()).is_err());
}

fn run_cli(events: Vec<CliEvent<String>>) -> Vec<CliAction<String>> {
    let mut flow = CliFlow::new();
    let mut actions = Vec::new();
    for event in events {
        let (next, action) = flow.step(event);
        flow = next;
        actions.push(action);
    }
    actions
}

#[test]
fn openai_output_is_read_and_removed() {
    let output = CommandOutput { success: true, stdout: String::new(), stderr: String::new() };
    assert_eq!(
        run_cli(vec![
            CliEvent::Done,
            CliEvent::Ran { output },
            CliEvent::Read { result: Ok(" text \n".to_string()) },
            CliEvent::Done,
        ]),
        vec![
            CliAction::Run,
            CliAction::ReadOutput,
            CliAction::RemoveOutput,
            CliAction::Finish { result: Ok("text".to_string()) },
        ]
    );
    let output = CommandOutput {
        success: false,
        stdout: String::new(),
        stderr: "bad model".to_string(),
    };
    assert_eq!(
        run_cli(vec![CliEvent::Done, CliEvent::Ran { output }, CliEvent::Done])[1..],
        [
            CliAction::RemoveOutput,
            CliAction::Finish {
                result: Err("Whisper transcription failed: bad model".to_string()),
            },
        ]
    );
    assert_eq!(
        run_cli(vec![
            CliEvent::Done,
            CliEvent::NotRun { error: "transcription cancelled".to_string() },
            CliEvent::Done,
        ])[1..],
        [
            CliAction::RemoveOutput,
            CliAction::Finish { result: Err("transcription cancelled".to_string()) },
        ]
    );
}

fn run_samples(
    retention: AudioFileRetention,
    events: Vec<SampleEvent<String>>,
) -> Vec<SampleAction<String>> {
    let mut flow = SampleFlow::new(retention);
    let mut actions = Vec::new();
    for event in events {
        let (next, action) = flow.step(event);
        flow = next;
        actions.push(action);
    }
    actions
}

#[test]
fn sample_files_are_kept_or_removed() {
    let result = Ok("text".to_string());
    assert_eq!(
        run_samples(
            AudioFileRetention::Delete,
            vec![
                SampleEvent::Done,
                SampleEvent::Done,
                SampleEvent::Transcribed { result: Err("boom".to_string()) },
                SampleEvent::Done,
            ]
        ),
        vec![
            SampleAction::WriteFile,
            SampleAction::TranscribeFile,
            SampleAction::RemoveFile,
            SampleAction::Finish { result: Err("boom".to_string()) },
        ]
    );
    assert_eq!(
        run_samples(
            AudioFileRetention::Keep,
            vec![
                SampleEvent::Done,
                SampleEvent::Done,
                SampleEvent::Transcribed { result: result.clone() },
            ]
        )[2],
        SampleAction::Finish { result }
    );
    assert_eq!(
        run_samples(
            AudioFileRetention::Delete,
            vec![
                SampleEvent::Done,
                SampleEvent::WriteFailed { error: "disk full".to_string() },
                SampleEvent::Done,
            ]
        )[1..],
        [
            SampleAction::RemoveFile,
            SampleAction::Finish { result: Err("disk full".to_string()) },
        ]
    );
}

#[test]
fn a_cancelled_program_is_killed_before_the_run_fails() {
    let mut flow = ProcessFlow::new(Deadline::BeforeExit);

    assert_eq!(
        flow.step(ProcessEvent::Polled { cancelled: false, timed_out: false, exited: None }),
        ProcessAction::Wait
    );
    assert_eq!(
        flow.step(ProcessEvent::Polled { cancelled: true, timed_out: true, exited: Some(Ok(())) }),
        ProcessAction::Terminate
    );
    assert_eq!(
        flow.step(ProcessEvent::Terminated { result: Ok(()) }),
        ProcessAction::DrainOutput
    );
    assert_eq!(
        flow.step(ProcessEvent::Drained),
        ProcessAction::Fail { error: ProcessError::Cancelled }
    );
}

#[test]
fn a_program_that_ends_gives_its_output() {
    let mut flow = ProcessFlow::new(Deadline::BeforeExit);
    assert_eq!(
        flow.step(ProcessEvent::Polled { cancelled: false, timed_out: false, exited: Some(Ok(())) }),
        ProcessAction::CollectOutput
    );
    assert_eq!(
        flow.step(ProcessEvent::Collected { result: Ok(()) }),
        ProcessAction::Succeed
    );
}

#[test]
fn a_program_can_run_out_of_time_or_fail() {
    let mut flow = ProcessFlow::new(Deadline::BeforeExit);
    flow.step(ProcessEvent::Polled { cancelled: false, timed_out: true, exited: None });
    flow.step(ProcessEvent::Terminated { result: Ok(()) });
    let action = flow.step(ProcessEvent::Drained);
    assert_eq!(action, ProcessAction::Fail { error: ProcessError::TimedOut });
    match action {
        ProcessAction::Fail { error } => assert_eq!(error.message(), "command timed out"),
        _ => unreachable!(),
    }
    let mut flow = ProcessFlow::new(Deadline::BeforeExit);
    assert_eq!(
        flow.step(ProcessEvent::Polled {
            cancelled: false,
            timed_out: false,
            exited: Some(Err("lost".to_string())),
        }),
        ProcessAction::Fail { error: ProcessError::Other { message: "lost".to_string() } }
    );
    let cancelled: ProcessError<String> = ProcessError::Cancelled;
    assert_eq!(cancelled.message(), "transcription cancelled");
}

#[test]
fn a_program_that_is_gone_counts_as_killed() {
    let kill = || Err("no such process".to_string());
    assert_eq!(terminate_outcome(Ok(()), Ok(false)), Ok(()));
    assert_eq!(terminate_outcome(kill(), Ok(true)), Ok(()));
    assert_eq!(terminate_outcome(kill(), Ok(false)), kill());
    assert_eq!(
        terminate_outcome(kill(), Err("wait".to_string())),
        Err("wait".to_string())
    );
    assert!(deadline_passed(0, Some(0)));
    assert!(!deadline_passed(999_999_999, Some(1)));
    assert!(deadline_passed(1_000_000_000, Some(1)));
    assert!(!deadline_passed(u128::MAX, None));
}

#[test]
fn numbers_are_parsed_as_the_standard_library_parses_them() {
    for n in [0_u32, 1, 640, u32::MAX] {
        assert_eq!(parse_number(&n.to_string()), Ok(n));
    }
    assert_eq!(audio_ctx_from_u32(0), AudioCtxConfig::Full);
    assert_eq!(audio_ctx_from_u32(7), AudioCtxConfig::Fixed(7));
}

#[test]
fn openai_is_looked_for_by_name() {
    assert_eq!(openai_program(), "whisper");
    match (locate_openai(None, true), which::which(openai_program())) {
        (Ok(Program::Found(program)), Ok(path)) => {
            assert_eq!(program.file, path.file_name().unwrap().to_string_lossy());
            assert_eq!(program.path, path);
        }
        (Err(error), Err(_)) => assert_eq!(
            error.message,
            "OpenAI Whisper CLI not found. Please install openai-whisper"
        ),
        _ => panic!("the search path was read in two ways"),
    }
}

#[test]
fn a_found_program_lies_where_it_was_found() {
    let program = Program::Found(found("/opt/bin/whisper"));
    let path = std::path::PathBuf::from("/opt/bin/whisper");
    assert_eq!(program.path(), PlacePath::System(&path));
    assert_eq!(given("/w").path(), PlacePath::Text("/w"));
}

#[test]
fn the_output_is_named_after_the_audio_file() {
    for (path, stem) in [
        ("/tmp/chezwizper-a1.wav", "chezwizper-a1"),
        ("a.b.wav", "a.b"),
        ("dir/plain", "plain"),
        ("dir/.hidden", ".hidden"),
        ("dir/.hidden.wav", ".hidden"),
        ("...", ".."),
        ("/tmp/ take 1.wav ", " take 1"),
        ("/tmp/\u{e9}t\u{e9} (a+b), @1.wav", "\u{e9}t\u{e9} (a+b), @1"),
        ("dir/", "dir"),
        ("dir.d//./", "dir"),
        ("dir/.", "dir"),
        ("//host/a.wav", "a"),
        ("c:\\a.wav", "c:\\a"),
        ("\u{1f3a4}.\u{2f}\u{1f3a4}.wav", "\u{1f3a4}"),
    ] {
        assert_eq!(output_path_for(path.as_bytes()), Ok(format!("/tmp/{stem}.txt")));
    }
    for path in ["", "/", "//", "/.", ".", "./", "./.", "..", "a/..", "a/../", "../."] {
        assert_eq!(output_path_for(path.as_bytes()), Err("Invalid audio path"));
    }
    assert_eq!(output_path_for(b"/tmp/\xff/a.wav"), Ok("/tmp/a.txt".to_string()));
    assert_eq!(output_path_for(b"/tmp/a.\xff"), Ok("/tmp/a.txt".to_string()));
    assert_eq!(output_path_for(b"/tmp/a\xff.wav"), Err("Invalid audio filename"));
    assert_eq!(output_path_for(b"/tmp/\xff/.."), Err("Invalid audio path"));
}

#[test]
fn the_settings_name_a_provider_or_leave_the_choice() {
    let named = WhisperTranscriber::from_settings(
        Some("whisper-cpp"),
        ProviderConfig::default(),
        full_environment(),
    )
    .unwrap_or_else(|error| panic!("{}", error.message));
    assert_eq!(named.provider.name(), "whisper.cpp");
    let detected = WhisperTranscriber::from_settings(
        None,
        ProviderConfig { language: Some("de".to_string()), ..Default::default() },
        full_environment(),
    )
    .unwrap_or_else(|error| panic!("{}", error.message));
    assert_eq!(detected.provider.name(), "OpenAI Whisper CLI");
    assert_eq!(detected.language, "de");
    assert_eq!(
        error_of(WhisperTranscriber::from_settings(
            Some("openai-cli"),
            ProviderConfig::default(),
            bare_environment(),
        )),
        "no openai"
    );
}

#[test]
fn a_time_limit_can_come_before_or_after_an_exit() {
    assert_eq!(OPENAI_DEADLINE, Deadline::BeforeExit);
    let both = || ProcessEvent::Polled { cancelled: false, timed_out: true, exited: Some(Ok(())) };
    let late = || ProcessEvent::Polled { cancelled: false, timed_out: true, exited: None };
    let stuck = || ProcessEvent::Terminated { result: Err("stuck".to_string()) };

    let mut flow = ProcessFlow::new(Deadline::BeforeExit);
    assert_eq!(flow.step(both()), ProcessAction::Terminate);
    assert_eq!(
        flow.step(stuck()),
        ProcessAction::Fail { error: ProcessError::Other { message: "stuck".to_string() } }
    );

    let mut flow = ProcessFlow::new(Deadline::AfterExit);
    assert_eq!(flow.step(both()), ProcessAction::CollectOutput);

    let mut flow = ProcessFlow::new(Deadline::AfterExit);
    assert_eq!(flow.step(late()), ProcessAction::Terminate);
    assert_eq!(flow.step(stuck()), ProcessAction::DrainOutput);
    assert_eq!(
        flow.step(ProcessEvent::Drained),
        ProcessAction::Fail { error: ProcessError::TimedOut }
    );

    let mut flow = ProcessFlow::new(Deadline::AfterExit);
    assert_eq!(
        flow.step(ProcessEvent::Polled {
            cancelled: true,
            timed_out: false,
            exited: Some(Ok(())),
        }),
        ProcessAction::Terminate
    );
}
