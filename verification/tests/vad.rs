use smoltalk::chunking::Segment;
use smoltalk::vad::{
    silero_model_candidate, trim_range, trim_with_amplitude, trim_with_silero, wants_silero,
    ActiveVadEngine, VadEngine, VadOutput,
    VadProcessor, VadSettings,
};

const THRESHOLD: f32 = 0.02;

fn cfg() -> VadSettings {
    VadSettings {
        enabled: true,
        engine: VadEngine::Amplitude,
        min_speech_ms: 100,
        pad_ms: 200,
        model_path: None,
    }
}

fn window_is_speech(samples: &[f32]) -> bool {
    let mut peak: f32 = 0.0;
    let mut sum: f32 = 0.0;
    for sample in samples {
        peak = peak.max(sample.abs());
        sum += sample * sample;
    }
    peak >= THRESHOLD || (sum / samples.len() as f32).sqrt() >= THRESHOLD
}

fn process(processor: VadProcessor, samples: Vec<f32>) -> VadOutput<f32> {
    let mut speech = Vec::new();
    for window in processor.windows(samples.len()) {
        speech.push(window_is_speech(&samples[window.start..window.end]));
    }
    processor.process(samples, None, &speech)
}

#[test]
fn amplitude_gate_skips_silence() {
    let samples = vec![0.0; 16_000];

    let result = process(VadProcessor::new(cfg(), 16_000, false), samples);

    assert!(result.skipped);
    assert!(result.samples.is_empty());
    assert_eq!(result.speech_range, None);
    assert_eq!(result.engine, "amplitude");
}

#[test]
fn amplitude_gate_trims_with_padding() {
    let mut samples = vec![0.0; 16_000];
    samples.extend(vec![0.08; 8_000]);
    samples.extend(vec![0.0; 16_000]);

    let result = process(VadProcessor::new(cfg(), 16_000, false), samples);

    assert!(!result.skipped);
    assert!(result.samples.len() >= 14_400);
    assert!(result.samples.len() <= 15_360);
    assert_eq!(result.input_samples, 40_000);
    assert_eq!(result.output_samples, result.samples.len());
    // The first loud window starts at 15 680, the last one ends at 24 320; the padding is 3 200.
    assert_eq!(result.speech_range, Some(Segment { start: 12_480, end: 27_520 }));
}

#[test]
fn amplitude_gate_skips_audio_below_threshold() {
    let samples = vec![0.005; 16_000];

    let result = process(VadProcessor::new(cfg(), 16_000, false), samples);

    assert!(result.skipped);
    assert!(result.samples.is_empty());
}

#[test]
fn a_disabled_processor_keeps_everything() {
    let settings = VadSettings { enabled: false, ..cfg() };
    let processor = VadProcessor::new(settings, 16_000, true);
    assert_eq!(processor.active_engine(), ActiveVadEngine::Disabled);

    let result = processor.process(vec![1, 2, 3], None, &Vec::new());

    assert_eq!(result.samples, vec![1, 2, 3]);
    assert_eq!(result.speech_range, Some(Segment { start: 0, end: 3 }));
    assert_eq!(result.engine, "disabled");
    assert!(!result.skipped);
}

#[test]
fn silero_segments_are_spanned() {
    let settings = VadSettings { engine: VadEngine::Auto, ..cfg() };
    assert!(wants_silero(&settings));
    let processor = VadProcessor::new(settings, 16_000, true);
    assert_eq!(processor.active_engine(), ActiveVadEngine::Silero);
    let segments = vec![Segment { start: 4, end: 6 }, Segment { start: 1, end: 3 }];

    let result = processor.process(vec![0, 1, 2, 3, 4, 5], Some(segments), &Vec::new());

    assert_eq!(result.samples, vec![1, 2, 3, 4, 5]);
    assert_eq!(result.engine, "silero");
    let nothing = processor.process(vec![0, 1], Some(Vec::new()), &Vec::new());
    assert!(nothing.skipped);
    assert_eq!(nothing.samples, Vec::<i32>::new());
}

#[test]
fn a_silero_failure_falls_back_to_the_amplitude() {
    let settings = VadSettings { engine: VadEngine::Silero, ..cfg() };
    let processor = VadProcessor::new(settings, 1_000, true);
    let count = processor.windows(500).len();

    let result = processor.process(vec![7; 500], None, &vec![true; count]);

    assert_eq!(result.engine, "amplitude");
    assert_eq!(result.samples.len(), 500);
}

#[test]
fn the_engine_follows_the_settings() {
    let silero = VadSettings { engine: VadEngine::Silero, ..cfg() };
    assert_eq!(
        VadProcessor::new(silero, 16_000, false).active_engine(),
        ActiveVadEngine::Amplitude
    );
    assert_eq!(
        VadProcessor::new(cfg(), 16_000, true).active_engine(),
        ActiveVadEngine::Amplitude
    );
    assert!(!wants_silero(&cfg()));
    assert_eq!(VadProcessor::default(false).active_engine(), ActiveVadEngine::Amplitude);
    assert_eq!(VadProcessor::default(true).active_engine(), ActiveVadEngine::Silero);
}

#[test]
fn the_model_is_looked_for_below_home() {
    assert_eq!(
        silero_model_candidate(&cfg(), Some("/home/me")),
        Some("/home/me/.local/share/chezwizper/whisper/models/ggml-silero-v5.1.2.bin".to_string())
    );
    assert_eq!(silero_model_candidate(&cfg(), None), None);
    let set = VadSettings { model_path: Some("/tmp/vad.bin".to_string()), ..cfg() };
    assert_eq!(
        silero_model_candidate(&set, Some("/home/me")),
        Some("/tmp/vad.bin".to_string())
    );
}

#[test]
fn ranges_are_clipped_to_the_recording() {
    assert_eq!(trim_range(10, 2, 20), Some(Segment { start: 2, end: 10 }));
    assert_eq!(trim_range(10, 5, 5), None);
    assert_eq!(trim_range(10, 10, 12), None);
}

#[test]
fn a_short_noise_is_no_speech() {
    // A single loud window of 30 ms is shorter than 100 ms.
    let processor = VadProcessor::new(cfg(), 1_000, false);
    let count = processor.windows(1_000).len();
    let mut speech = vec![false; count];
    speech[20] = true;

    let result = processor.process(vec![0; 1_000], None, &speech);

    assert!(result.skipped);
}

#[test]
fn engines_keep_a_range() {
    let segments = vec![Segment { start: 3, end: 5 }, Segment { start: 1, end: 2 }];
    assert_eq!(trim_with_silero(10, &segments), Some(Segment { start: 1, end: 5 }));
    assert_eq!(trim_with_silero(4, &segments), Some(Segment { start: 1, end: 4 }));
    assert_eq!(trim_with_silero(10, &Vec::new()), None);

    let mut settings = cfg();
    settings.pad_ms = 50;
    // Windows 10 to 29 of 1000 samples at 1 kHz are loud: from 100 to 320, padded by 50.
    let mut speech = vec![false; 100];
    for flag in &mut speech[10..30] {
        *flag = true;
    }
    assert_eq!(
        trim_with_amplitude(&settings, 1_000, 1_000, &speech),
        Some(Segment { start: 50, end: 370 })
    );
}

#[test]
fn speech_reaches_from_the_first_to_the_last_lasting_run() {
    let settings = VadSettings { pad_ms: 0, ..cfg() };
    let mut speech = vec![false; 40];
    // Too short to count, then from 100 to 230, too short again, then from 300 to the end.
    for (first, last) in [(2, 4), (10, 20), (25, 26), (30, 38)] {
        for window in first..=last {
            speech[window] = true;
        }
    }
    assert_eq!(
        trim_with_amplitude(&settings, 1_000, 400, &speech),
        Some(Segment { start: 100, end: 400 })
    );
    for window in 10..=20 {
        speech[window] = false;
    }
    for window in 30..=38 {
        speech[window] = false;
    }
    assert_eq!(trim_with_amplitude(&settings, 1_000, 400, &speech), None);
}
