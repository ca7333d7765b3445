use smoltalk::whisper::audio_ctx::audio_ctx_for_sample_count;
use smoltalk::whisper::provider::TranscriptionProvider;
use smoltalk::whisper::providers::whisper_rs::{
    model_candidates, resolve_model_path, wav_reading, LoadStep, SampleFormat, Sampling,
    UnloadReason, WarmModelState, WavError, WavReading, WhisperRsModelStatus, WhisperRsOptions,
    WhisperRsProvider,
};
use smoltalk::whisper::AudioCtxConfig;

const WHISPER_SAMPLE_RATE: usize = 16_000;
const SECOND: u128 = 1_000_000_000;

fn provider(options: WhisperRsOptions) -> WhisperRsProvider {
    WhisperRsProvider::new(
        "base.en",
        Some("/tmp/missing-whisper-model.bin".to_string()),
        options,
        None,
        &Vec::new(),
    )
    .unwrap_or_else(|error| panic!("{}", error.message))
}

#[test]
fn state_machine_tracks_load_success_and_manual_unload() {
    let mut state = WarmModelState::new(Some(30));

    assert_eq!(state.status(), WhisperRsModelStatus::Cold);

    state.mark_loading();
    assert_eq!(state.status(), WhisperRsModelStatus::Loading);

    state.mark_warm_at(0);
    assert_eq!(state.status(), WhisperRsModelStatus::Warm);

    state.mark_unloaded(UnloadReason::Manual);
    assert_eq!(state.status(), WhisperRsModelStatus::Cold);
}

#[test]
fn state_machine_reports_idle_unloaded_after_idle_timer() {
    let mut state = WarmModelState::new(Some(5));
    state.mark_warm_at(0);

    state.mark_unloaded(UnloadReason::IdleTimer);

    assert_eq!(state.status(), WhisperRsModelStatus::IdleUnloaded);
}

#[test]
fn state_machine_reports_error_until_next_load_attempt() {
    let mut state = WarmModelState::new(None);

    state.mark_error("model load failed".to_string());
    assert_eq!(state.status(), WhisperRsModelStatus::Error);
    assert_eq!(state.error_message(), Some("model load failed"));

    state.mark_loading();
    assert_eq!(state.status(), WhisperRsModelStatus::Loading);
    assert_eq!(state.error_message(), None);
}

#[test]
fn idle_timer_only_expires_after_configured_warm_duration() {
    let mut state = WarmModelState::new(Some(10));
    let now: u128 = 77 * SECOND;

    state.mark_warm_at(now);

    assert!(!state.should_idle_unload(now + 9 * SECOND));
    assert!(state.should_idle_unload(now + 10 * SECOND));
}

#[test]
fn zero_duration_waits_for_recording_completion_to_unload() {
    let mut state = WarmModelState::new(Some(0));
    let now: u128 = 77 * SECOND;

    state.mark_warm_at(now);

    assert!(!state.should_idle_unload(now));
}

#[test]
fn disabled_idle_timer_never_expires() {
    let mut state = WarmModelState::new(None);
    let now: u128 = 77 * SECOND;

    state.mark_warm_at(now);

    assert!(!state.should_idle_unload(now + 3600 * SECOND));
}

#[test]
fn options_default_to_releasing_the_model_between_recordings() {
    assert_eq!(WhisperRsOptions::default().keep_warm_for_secs, Some(0));
}

#[test]
fn recording_completion_releases_the_default_cold_provider() {
    let mut provider = provider(WhisperRsOptions::default());
    provider.state.mark_warm_at(0);

    provider.recording_complete().unwrap();

    assert_eq!(provider.state.status(), WhisperRsModelStatus::Cold);
}

#[test]
fn recording_completion_retains_an_explicitly_warm_provider() {
    let mut provider = provider(WhisperRsOptions {
        keep_warm_for_secs: Some(300),
        ..Default::default()
    });
    provider.state.mark_warm_at(0);

    provider.recording_complete().unwrap();

    assert_eq!(provider.state.status(), WhisperRsModelStatus::Warm);
}

#[test]
fn audio_ctx_for_short_clip_uses_stability_floor() {
    assert_eq!(audio_ctx_for_sample_count(WHISPER_SAMPLE_RATE), 640);
}

#[test]
fn audio_ctx_for_exactly_30_seconds_clamps_to_full_context() {
    assert_eq!(audio_ctx_for_sample_count(WHISPER_SAMPLE_RATE * 30), 1500);
}

#[test]
fn audio_ctx_for_long_clip_clamps_to_full_context() {
    assert_eq!(audio_ctx_for_sample_count(WHISPER_SAMPLE_RATE * 45), 1500);
}

#[test]
fn audio_ctx_applies_safety_margin_above_raw_frame_count() {
    // 15s -> 750 raw frames + 128 margin, above the 640 floor
    assert_eq!(audio_ctx_for_sample_count(WHISPER_SAMPLE_RATE * 15), 878);
}

#[test]
fn audio_ctx_rounds_a_started_frame_up() {
    assert_eq!(audio_ctx_for_sample_count(600 * 320), 728);
    assert_eq!(audio_ctx_for_sample_count(600 * 320 + 1), 729);
}

#[test]
fn provider_supports_pause_chunking() {
    let provider = provider(WhisperRsOptions::default());

    assert!(provider.supports_chunking());
}

#[test]
fn a_model_is_loaded_kept_and_given_up() {
    let mut provider = provider(WhisperRsOptions {
        keep_warm_for_secs: Some(10),
        ..Default::default()
    });
    assert_eq!(provider.ensure_loaded(0), LoadStep::Load);
    assert_eq!(provider.state.status(), WhisperRsModelStatus::Loading);
    provider.finish_load(Ok(()), SECOND).unwrap();
    assert_eq!(provider.ensure_loaded(5 * SECOND), LoadStep::Ready);

    let status = provider.model_status(11 * SECOND).unwrap();

    assert_eq!(status.state, "idle-unloaded");
    assert!(!provider.loaded);
    assert_eq!(provider.ensure_loaded(12 * SECOND), LoadStep::Load);
    assert_eq!(
        provider.finish_load(Err("broken".to_string()), 13 * SECOND),
        Err("broken".to_string())
    );
    assert_eq!(provider.model_status(13 * SECOND).unwrap().error, Some("broken".to_string()));
}

#[test]
fn an_inference_needs_the_model_and_keeps_it_warm() {
    let mut provider = provider(WhisperRsOptions::default());
    assert_eq!(
        provider.finish_inference(Ok(Vec::new()), 0),
        Err("whisper-rs state is not available".to_string())
    );
    provider.finish_load(Ok(()), 0).unwrap();

    let text = provider.finish_inference(
        Ok(vec![" hello".to_string(), " world ".to_string()]),
        7,
    );

    assert_eq!(text, Ok("hello world".to_string()));
    assert_eq!(provider.state.last_used_at, Some(7));
    assert_eq!(
        provider.finish_inference(Err("bad audio".to_string()), 9),
        Err("bad audio".to_string())
    );
    assert_eq!(provider.state.last_used_at, Some(7));
}

#[test]
fn inference_params_follow_the_options() {
    let plain = provider(WhisperRsOptions::default()).full_params("en", WHISPER_SAMPLE_RATE);
    assert_eq!(plain.sampling, Sampling::Greedy { best_of: 1 });
    assert_eq!(plain.language, "en");
    assert_eq!(plain.threads, None);
    assert!(!plain.no_fallback);
    assert_eq!(plain.initial_prompt, None);
    assert_eq!(plain.audio_ctx, 640);

    let tuned = provider(WhisperRsOptions {
        threads: Some(0),
        beam_size: Some(5),
        best_of: Some(3),
        no_fallback: Some(true),
        initial_prompt: Some("Rust".to_string()),
        audio_ctx: AudioCtxConfig::Fixed(2_000),
        ..Default::default()
    })
    .full_params("de", 1);
    assert_eq!(tuned.sampling, Sampling::BeamSearch { beam_size: 5 });
    assert_eq!(tuned.threads, Some(1));
    assert!(tuned.no_fallback);
    assert_eq!(tuned.initial_prompt, Some("Rust".to_string()));
    assert_eq!(tuned.audio_ctx, 2_000);

    let full = provider(WhisperRsOptions {
        best_of: Some(0),
        audio_ctx: AudioCtxConfig::Full,
        ..Default::default()
    })
    .full_params("en", 1);
    assert_eq!(full.sampling, Sampling::Greedy { best_of: 1 });
    assert_eq!(full.audio_ctx, 0);
    assert_eq!(AudioCtxConfig::Fixed(100).context(1), 100);
    assert_eq!(AudioCtxConfig::Fixed(700).context(1), 700);

    let small = provider(WhisperRsOptions {
        audio_ctx: AudioCtxConfig::Fixed(256),
        ..Default::default()
    });
    assert_eq!(small.full_params("en", 16_000).audio_ctx, 256);
    assert_eq!(small.full_params("en", 480_000).audio_ctx, 256);
    let largest = provider(WhisperRsOptions {
        audio_ctx: AudioCtxConfig::Fixed(u32::MAX),
        ..Default::default()
    });
    assert_eq!(largest.full_params("en", 16_000).audio_ctx, i32::MAX);
}

#[test]
fn models_are_looked_for_below_the_data_directory() {
    let base = "/d/chezwizper/whisper/models/";
    assert_eq!(
        model_candidates("base", "/d"),
        vec![
            format!("{base}ggml-base.en-q5_0.bin"),
            format!("{base}ggml-base.en.bin"),
            format!("{base}ggml-base.bin"),
        ]
    );
    assert_eq!(
        model_candidates("small", "/d"),
        vec![format!("{base}ggml-small.bin")]
    );
    assert_eq!(
        resolve_model_path("base.en", None, Some("/d"), &vec![false, false, true]),
        Ok(format!("{base}ggml-base.bin"))
    );
    assert_eq!(
        resolve_model_path("base", None, Some("/d"), &vec![false, false, false]),
        Ok(format!("{base}ggml-base.en-q5_0.bin"))
    );
    assert_eq!(
        resolve_model_path("base", Some("/m".to_string()), None, &Vec::new()),
        Ok("/m".to_string())
    );
    assert_eq!(
        resolve_model_path("base", None, None, &Vec::new()).unwrap_err().message,
        "failed to determine data directory"
    );
}

/// Reads a file as the provider wants it read.
fn read_wav_samples(path: &std::path::Path) -> Vec<f32> {
    let mut reader = hound::WavReader::open(path).unwrap();
    let spec = reader.spec();
    let format = match spec.sample_format {
        hound::SampleFormat::Float => SampleFormat::Float,
        hound::SampleFormat::Int => SampleFormat::Int,
    };
    match wav_reading(spec.channels, spec.sample_rate, format, spec.bits_per_sample).unwrap() {
        WavReading::Float32 => reader.samples::<f32>().map(|sample| sample.unwrap()).collect(),
        WavReading::Int16 => reader
            .samples::<i16>()
            .map(|sample| f32::from(sample.unwrap()) / f32::from(i16::MAX))
            .collect(),
    }
}

#[test]
fn path_input_reads_f32_wav_samples() {
    let directory = tempfile::tempdir().unwrap();
    let path = directory.path().join("float.wav");
    let expected = vec![0.25, -0.5, 0.75];
    let spec = hound::WavSpec {
        channels: 1,
        sample_rate: 16_000,
        bits_per_sample: 32,
        sample_format: hound::SampleFormat::Float,
    };
    let mut writer = hound::WavWriter::create(&path, spec).unwrap();
    for sample in &expected {
        writer.write_sample(*sample).unwrap();
    }
    writer.finalize().unwrap();

    assert_eq!(read_wav_samples(&path), expected);
}

#[test]
fn path_input_reads_i16_wav_samples() {
    let directory = tempfile::tempdir().unwrap();
    let path = directory.path().join("integer.wav");
    let encoded = [i16::MIN + 1, 0, i16::MAX];
    let spec = hound::WavSpec {
        channels: 1,
        sample_rate: 16_000,
        bits_per_sample: 16,
        sample_format: hound::SampleFormat::Int,
    };
    let mut writer = hound::WavWriter::create(&path, spec).unwrap();
    for sample in encoded {
        writer.write_sample(sample).unwrap();
    }
    writer.finalize().unwrap();

    assert_eq!(
        read_wav_samples(&path),
        encoded
            .into_iter()
            .map(|sample| f32::from(sample) / f32::from(i16::MAX))
            .collect::<Vec<_>>()
    );
}

#[test]
fn other_files_are_refused() {
    assert_eq!(
        wav_reading(2, 16_000, SampleFormat::Float, 32),
        Err(WavError::Channels { channels: 2 })
    );
    assert_eq!(
        wav_reading(1, 44_100, SampleFormat::Float, 32),
        Err(WavError::SampleRate { sample_rate: 44_100 })
    );
    let format = wav_reading(1, 16_000, SampleFormat::Int, 24).unwrap_err();
    assert_eq!(format, WavError::Format { format: SampleFormat::Int, bits: 24 });
    assert_eq!(
        format.message(),
        "unsupported WAV format for whisper-rs: Int 24 bits"
    );
    assert_eq!(
        WavError::Channels { channels: 2 }.message(),
        "whisper-rs provider expects mono WAV, got 2 channels"
    );
    assert_eq!(
        WavError::SampleRate { sample_rate: 8_000 }.message(),
        "whisper-rs provider expects 16 kHz WAV, got 8000 Hz"
    );
}

#[test]
fn states_and_reasons_have_names() {
    assert_eq!(WhisperRsModelStatus::Cold.as_str(), "cold");
    assert_eq!(WhisperRsModelStatus::Loading.as_str(), "loading");
    assert_eq!(WhisperRsModelStatus::Warm.as_str(), "warm");
    assert_eq!(WhisperRsModelStatus::IdleUnloaded.as_str(), "idle-unloaded");
    assert_eq!(WhisperRsModelStatus::Error.as_str(), "error");
    assert_eq!(UnloadReason::Manual.as_str(), "manual");
    assert_eq!(UnloadReason::IdleTimer.as_str(), "idle_timer");
}

#[test]
fn an_expired_model_is_given_up() {
    let mut provider = provider(WhisperRsOptions {
        keep_warm_for_secs: Some(1),
        ..Default::default()
    });
    provider.finish_load(Ok(()), 0).unwrap();

    provider.unload_if_idle_expired(SECOND - 1);
    assert!(provider.loaded);
    provider.unload_if_idle_expired(SECOND);
    assert!(!provider.loaded);
    assert_eq!(provider.state.status(), WhisperRsModelStatus::IdleUnloaded);
}

#[test]
fn a_state_tells_how_it_came_about() {
    let mut state = WarmModelState::new(Some(1));
    state.mark_loading();
    assert_eq!(state.transition_reason(), None);
    state.mark_error("no memory".to_string());
    assert_eq!(state.transition_reason(), Some("no memory"));
    state.mark_warm_at(0);
    assert_eq!(state.transition_reason(), None);
    state.mark_unloaded(UnloadReason::IdleTimer);
    assert_eq!(state.transition_reason(), Some("idle_timer"));
    state.mark_unloaded(UnloadReason::Manual);
    assert_eq!(state.transition_reason(), Some("manual"));
}

#[test]
fn an_immense_recording_gets_the_full_context() {
    assert_eq!(audio_ctx_for_sample_count(usize::MAX), 1_500);
    assert_eq!(audio_ctx_for_sample_count(0x1_0000_0000 * 320), 1_500);
    assert_eq!(audio_ctx_for_sample_count(0), 640);
}
