use smoltalk::chunking::session::{
    segmenter_settings, session_text, CHUNK_RETENTION, POLL_INTERVAL_MS,
};
use smoltalk::chunking::segmenter::samples_for_ms;
use smoltalk::chunking::stitch::{
    bare, count_overlap, overlap_key, splice, stitch_pair, stitch_strings,
};
use smoltalk::chunking::{
    stitch_transcripts, ChunkError, PauseChunkingSession, PauseSegmenter, PauseSegmenterSettings,
    Segment, WorkerAction, WorkerStage,
};
use smoltalk::config::ChunkingConfig;
use smoltalk::vad::VadSettings;
use smoltalk::whisper::provider::AudioFileRetention;

const THRESHOLD: f32 = 0.02;

fn settings() -> PauseSegmenterSettings {
    PauseSegmenterSettings {
        sample_rate: 1_000,
        min_speech_ms: 100,
        pause_ms: 600,
        min_chunk_ms: 5_000,
        overlap_ms: 300,
    }
}

fn audio(parts: &[(usize, f32)]) -> Vec<f32> {
    let mut samples = Vec::new();
    for (len, value) in parts {
        for _ in 0..*len {
            samples.push(*value);
        }
    }
    samples
}

fn window_is_speech(samples: &[f32]) -> bool {
    if samples.is_empty() {
        return false;
    }
    let mut peak: f32 = 0.0;
    let mut sum: f32 = 0.0;
    for sample in samples {
        peak = peak.max(sample.abs());
        sum += sample * sample;
    }
    peak >= THRESHOLD || (sum / samples.len() as f32).sqrt() >= THRESHOLD
}

fn flags(samples: &[f32], windows: Vec<Segment>) -> Vec<bool> {
    let mut out = Vec::new();
    for window in windows {
        out.push(window_is_speech(&samples[window.start..window.end]));
    }
    out
}

fn ready(segmenter: &mut PauseSegmenter, samples: &[f32]) -> Vec<Segment> {
    let speech = flags(samples, segmenter.ready_windows(samples.len()));
    segmenter.ready_segments(samples.len(), &speech)
}

fn finish(segmenter: &mut PauseSegmenter, samples: &[f32], speech_end: usize) -> Option<Segment> {
    let speech = flags(samples, segmenter.tail_windows(samples.len()));
    segmenter.finish_with_speech_end(samples.len(), &speech, speech_end)
}

#[test]
fn emits_a_long_speech_segment_after_a_pause() {
    let samples = audio(&[(1_000, 0.0), (6_000, 0.1), (700, 0.0)]);
    let mut segmenter = PauseSegmenter::new(settings());

    let segments = ready(&mut segmenter, &samples);

    assert_eq!(segments.len(), 1);
    assert!(segments[0].start <= 1_000);
    assert!(segments[0].end >= 7_000);
    assert!(segments[0].end <= samples.len());
}

#[test]
fn does_not_emit_before_the_minimum_chunk_duration() {
    let samples = audio(&[(500, 0.0), (2_000, 0.1), (1_000, 0.0)]);
    let mut segmenter = PauseSegmenter::new(settings());

    assert!(ready(&mut segmenter, &samples).is_empty());
}

#[test]
fn short_pause_does_not_split_a_segment() {
    let samples = audio(&[
        (500, 0.0),
        (3_000, 0.1),
        (300, 0.0),
        (3_000, 0.1),
        (700, 0.0),
    ]);
    let mut segmenter = PauseSegmenter::new(settings());

    let segments = ready(&mut segmenter, &samples);

    assert_eq!(segments.len(), 1);
    assert!(segments[0].start <= 500);
    assert!(segments[0].end >= 6_800);
}

#[test]
fn resumed_speech_prevents_a_pause_split() {
    let samples = audio(&[(500, 0.0), (6_000, 0.1), (500, 0.0), (200, 0.1)]);
    let mut segmenter = PauseSegmenter::new(settings());

    assert!(ready(&mut segmenter, &samples).is_empty());
    let tail =
        finish(&mut segmenter, &samples, samples.len()).expect("complete speech segment");

    assert!(tail.start <= 500);
    assert_eq!(tail.end, samples.len());
}

#[test]
fn finalizes_unflushed_speech_tail() {
    let samples = audio(&[(500, 0.0), (2_000, 0.1)]);
    let mut segmenter = PauseSegmenter::new(settings());

    assert!(ready(&mut segmenter, &samples).is_empty());
    let tail = finish(&mut segmenter, &samples, samples.len()).expect("speech tail");

    assert!(tail.start <= 500);
    assert_eq!(tail.end, samples.len());
}

#[test]
fn consecutive_segments_retain_only_the_configured_overlap() {
    let samples = audio(&[
        (500, 0.0),
        (6_000, 0.1),
        (700, 0.0),
        (6_000, 0.1),
        (700, 0.0),
    ]);
    let mut segmenter = PauseSegmenter::new(settings());

    let segments = ready(&mut segmenter, &samples);

    assert_eq!(segments.len(), 2);
    assert!(segments[1].start < 7_200);
    assert!(segments[0].end.saturating_sub(segments[1].start) <= 1_000);
}

#[test]
fn covered_speech_does_not_create_a_silence_only_tail() {
    let samples = audio(&[(500, 0.0), (6_000, 0.1), (1_500, 0.0)]);
    let mut segmenter = PauseSegmenter::new(settings());

    assert_eq!(ready(&mut segmenter, &samples).len(), 1);

    assert!(finish(&mut segmenter, &samples, 6_500).is_none());
}

#[test]
fn authoritative_vad_keeps_a_quiet_tail_after_an_earlier_chunk() {
    let samples = audio(&[(500, 0.0), (6_000, 0.1), (700, 0.0), (1_000, 0.01)]);
    let mut segmenter = PauseSegmenter::new(settings());

    assert_eq!(ready(&mut segmenter, &samples).len(), 1);
    let tail = finish(&mut segmenter, &samples, samples.len())
        .expect("authoritative VAD found uncovered speech");

    assert!(tail.start < 7_200);
    assert_eq!(tail.end, samples.len());
}

#[test]
fn segments_have_exact_places() {
    // Speech from 500 to 6500; the first window without speech starts at 6500, so the run ends
    // with the window from 6490. A pause of 600 after its end at 6520 is reached by the window
    // that ends at 7120.
    let samples = audio(&[(500, 0.0), (6_000, 0.1), (700, 0.0)]);
    let mut segmenter = PauseSegmenter::new(settings());

    let segments = ready(&mut segmenter, &samples);

    assert_eq!(segments, vec![Segment { start: 0, end: 7_120 }]);
    let tail = finish(&mut segmenter, &samples, samples.len()).unwrap();
    assert_eq!(tail, Segment { start: 6_220, end: 7_200 });
}

#[test]
fn windows_are_listed_in_order() {
    let segmenter = PauseSegmenter::new(settings());

    assert_eq!(
        segmenter.ready_windows(45),
        vec![Segment { start: 0, end: 30 }, Segment { start: 10, end: 40 }]
    );
    assert_eq!(
        segmenter.tail_windows(25),
        vec![
            Segment { start: 0, end: 25 },
            Segment { start: 10, end: 25 },
            Segment { start: 20, end: 25 },
        ]
    );
    assert!(segmenter.ready_windows(0).is_empty());
}

#[test]
fn polling_often_gives_the_same_segments() {
    let samples = audio(&[
        (500, 0.0),
        (6_000, 0.1),
        (700, 0.0),
        (6_000, 0.1),
        (700, 0.0),
    ]);
    let mut once = PauseSegmenter::new(settings());
    let mut often = PauseSegmenter::new(settings());
    let mut collected = Vec::new();
    let mut count: usize = 0;

    while count < samples.len() {
        count = (count + 137).min(samples.len());
        collected.extend(ready(&mut often, &samples[..count]));
    }

    assert_eq!(collected, ready(&mut once, &samples));
    assert_eq!(collected.len(), 2);
}

#[test]
fn stitches_the_longest_word_overlap_without_changing_output_casing() {
    let chunks = ["Hello from the model.", "THE MODEL is already warm"];

    assert_eq!(
        stitch_transcripts(&chunks),
        "Hello from the model. is already warm"
    );
}

#[test]
fn stitching_preserves_repetition_that_is_not_at_a_chunk_boundary() {
    let chunks = ["very very useful", "different result"];

    assert_eq!(
        stitch_transcripts(&chunks),
        "very very useful different result"
    );
}

#[test]
fn stitching_preserves_a_repeated_single_word_at_a_boundary() {
    let chunks = ["go", "go now"];

    assert_eq!(stitch_transcripts(&chunks), "go go now");
}

#[test]
fn stitching_takes_the_longest_overlap_and_skips_blanks() {
    assert_eq!(stitch_transcripts(&["a b a b", "a b a b c"]), "a b a b c");
    assert_eq!(stitch_transcripts(&["  one  two ", "  ", "three"]), "one  two three");
    assert_eq!(stitch_transcripts(&["one two", "One, two!"]), "one two");
    assert_eq!(stitch_transcripts(&["a ... ...", "... ... b"]), "a ... ... ... ... b");
    assert_eq!(stitch_transcripts(&["SS\u{dc} \u{dc}ber", "ss\u{fc} \u{fc}BER alles"]), "SS\u{dc} \u{dc}ber alles");
    assert_eq!(stitch_transcripts(&[]), "");
    assert_eq!(stitch_transcripts(&["  alone "]), "alone");
}

/// What a session asked for while it ran on a script.
struct Run {
    chunks: Vec<Vec<f32>>,
    outcome: Result<Option<String>, ChunkError>,
}

fn drain(
    session: &mut PauseChunkingSession,
    action: WorkerAction,
    samples: &[f32],
    chunks: &mut Vec<Vec<f32>>,
    transcribe: fn(usize) -> Result<String, String>,
) -> WorkerAction {
    let mut action = action;
    loop {
        match action {
            WorkerAction::Transcribe { segment, index } => {
                assert_eq!(index, chunks.len());
                chunks.push(samples[segment.start..segment.end].to_vec());
                action = session.on_chunk(transcribe(index));
            }
            WorkerAction::ScanTail => {
                let speech = flags(samples, session.tail_windows(samples.len()));
                action = session.on_tail(&speech);
            }
            other => return other,
        }
    }
}

fn run_session(
    first: &[f32],
    complete: &[f32],
    speech_end: usize,
    transcribe: fn(usize) -> Result<String, String>,
) -> Run {
    let mut session = PauseChunkingSession::with_segmenter(PauseSegmenter::new(settings()));
    let mut chunks = Vec::new();
    let speech = flags(first, session.ready_windows(first.len()));
    let action = session.on_samples(first.len(), &speech);
    let mut action = drain(&mut session, action, first, &mut chunks, transcribe);
    if action == WorkerAction::Wait {
        assert_eq!(session.stage(), WorkerStage::Live);
        let speech = flags(complete, session.ready_windows(complete.len()));
        action = session.finish(complete.len(), &speech, speech_end);
        action = drain(&mut session, action, complete, &mut chunks, transcribe);
    }
    let outcome = match action {
        WorkerAction::Finished { text } => Ok(Some(text)),
        WorkerAction::Failed { error } => Err(error),
        _ => Ok(None),
    };
    Run { chunks, outcome }
}

#[test]
fn the_files_of_chunks_are_not_kept() {
    assert_eq!(CHUNK_RETENTION, AudioFileRetention::Delete);
    assert_eq!(POLL_INTERVAL_MS, 100);
}

#[test]
fn worker_transcribes_a_pause_chunk_before_finalizing_the_tail() {
    let first = audio(&[(500, 0.0), (6_000, 0.1), (700, 0.0)]);
    let mut complete = first.clone();
    complete.extend(audio(&[(6_000, 0.1)]));
    let mut expected_segmenter = PauseSegmenter::new(settings());
    let first_range = ready(&mut expected_segmenter, &first).remove(0);
    let expected_first = first[first_range.start..first_range.end].to_vec();
    assert!(ready(&mut expected_segmenter, &complete).is_empty());
    let tail_range = finish(&mut expected_segmenter, &complete, complete.len()).unwrap();
    let expected_tail = complete[tail_range.start..tail_range.end].to_vec();

    let run = run_session(&first, &complete, complete.len(), |index| {
        Ok(match index {
            0 => "the first segment ends here".to_string(),
            _ => "ends here and continues".to_string(),
        })
    });

    assert_eq!(run.chunks, vec![expected_first, expected_tail]);
    assert_eq!(
        session_text(run.outcome),
        Ok("the first segment ends here and continues".to_string())
    );
}

#[test]
fn worker_rejects_a_partial_transcript_when_any_chunk_is_empty() {
    let first = audio(&[(500, 0.0), (6_000, 0.1), (700, 0.0)]);
    let mut complete = first.clone();
    complete.extend(audio(&[(6_000, 0.1)]));

    let run = run_session(&first, &complete, complete.len(), |index| {
        Ok(if index == 0 {
            "first segment".to_string()
        } else {
            String::new()
        })
    });

    assert_eq!(run.outcome, Err(ChunkError::EmptyChunk { index: 1 }));
}

#[test]
fn chunk_callback_errors_fail_the_session() {
    let samples = audio(&[(500, 0.0), (6_000, 0.1), (700, 0.0)]);
    let mut session = PauseChunkingSession::with_segmenter(PauseSegmenter::new(settings()));
    let speech = flags(&samples, session.ready_windows(samples.len()));
    session.on_samples(samples.len(), &speech);

    let action = session.on_chunk(Err("injected chunk callback failure".to_string()));

    assert_eq!(
        action,
        WorkerAction::Failed {
            error: ChunkError::Failed {
                message: "injected chunk callback failure".to_string(),
            },
        }
    );
    assert!(session.transcripts().is_empty());
    assert_eq!(session.stage(), WorkerStage::Done);
}

#[test]
fn cancelling_does_not_wait_for_an_in_flight_chunk() {
    let samples = audio(&[(500, 0.0), (6_000, 0.1), (700, 0.0)]);
    let mut session = PauseChunkingSession::with_segmenter(PauseSegmenter::new(settings()));
    let speech = flags(&samples, session.ready_windows(samples.len()));
    assert!(matches!(
        session.on_samples(samples.len(), &speech),
        WorkerAction::Transcribe { .. }
    ));

    assert_eq!(session.cancel(), WorkerAction::Cancelled);

    assert_eq!(session.next_action(), WorkerAction::Cancelled);
    assert_eq!(session_text(Ok(None)), Err(ChunkError::Cancelled));
}

#[test]
fn chunk_errors_have_messages() {
    assert_eq!(
        ChunkError::EmptyChunk { index: 12 }.message(),
        "pause chunk 12 produced no text"
    );
    assert_eq!(
        ChunkError::Failed { message: "boom".to_string() }.message(),
        "boom"
    );
    assert_eq!(
        ChunkError::Cancelled.message(),
        "pause chunking worker was cancelled"
    );
    assert_eq!(ChunkError::NoText.message(), "pause chunking produced no text");
    assert_eq!(session_text(Ok(Some(String::new()))), Err(ChunkError::NoText));
}

#[test]
fn the_overlap_is_no_longer_than_the_pause() {
    let config = ChunkingConfig {
        enabled: true,
        pause_ms: 200,
        min_chunk_ms: 5_000,
        overlap_ms: 300,
    };

    let cut = segmenter_settings(&config, &VadSettings::default(), 16_000);

    assert_eq!(
        cut,
        PauseSegmenterSettings {
            sample_rate: 16_000,
            min_speech_ms: 100,
            pause_ms: 200,
            min_chunk_ms: 5_000,
            overlap_ms: 200,
        }
    );
    let session = PauseChunkingSession::start(&config, &VadSettings::default(), 16_000);
    assert_eq!(session.next_action(), WorkerAction::Wait);
    assert_eq!(session.ready_windows(480), vec![Segment { start: 0, end: 480 }]);
}

fn strings(texts: &[&str]) -> Vec<String> {
    texts.iter().map(|text| text.to_string()).collect()
}

#[test]
fn words_are_compared_without_case_and_punctuation() {
    assert_eq!(bare("(\"Hello,\")"), "Hello");
    assert_eq!(bare("..."), "");
    assert_eq!(overlap_key("[MODEL]!"), "model");
    assert_eq!(overlap_key("\u{c4}RGER;"), "\u{e4}rger");
    assert_eq!(overlap_key("it's"), "it's");
    assert_eq!(count_overlap(&strings(&["x", "a", "b"]), &strings(&["a", "b", "c"])), 2);
    assert_eq!(count_overlap(&strings(&["a"]), &strings(&["a"])), 0);
    assert_eq!(count_overlap(&strings(&["", ""]), &strings(&["", ""])), 0);
}

#[test]
fn two_transcripts_are_spliced_at_their_overlap() {
    assert_eq!(splice("one two", &strings(&["two", "three"]), 1), "one two three");
    assert_eq!(splice("one two", &strings(&["two"]), 1), "one two");
    assert_eq!(stitch_pair("", " b "), "b");
    assert_eq!(stitch_pair(" a ", ""), "a");
    assert_eq!(stitch_pair("we go home", "Go home, now"), "we go home now");
    assert_eq!(
        stitch_strings(&strings(&["a b", "a b c", "b c d"])),
        "a b c d"
    );
}

#[test]
fn durations_are_counted_in_samples() {
    assert_eq!(samples_for_ms(16_000, 30), 480);
    assert_eq!(samples_for_ms(999, 1), 0);
    assert_eq!(samples_for_ms(u32::MAX, 1_000), 4_294_967);
}

#[test]
fn segments_start_in_order() {
    let samples = audio(&[
        (500, 0.0),
        (6_000, 0.1),
        (700, 0.0),
        (6_000, 0.1),
        (700, 0.0),
        (400, 0.1),
    ]);
    let mut segmenter = PauseSegmenter::new(settings());

    let mut segments = ready(&mut segmenter, &samples);
    segments.push(finish(&mut segmenter, &samples, samples.len()).expect("speech tail"));

    let starts: Vec<usize> = segments.iter().map(|segment| segment.start).collect();
    assert_eq!(starts, vec![0, 6_220, 12_920]);
}

#[test]
fn blank_chunks_change_nothing_and_further_ones_extend() {
    assert_eq!(
        stitch_transcripts(&["we ship", " \n", "on Friday", ""]),
        stitch_transcripts(&["we ship", "on Friday"])
    );
    let short = stitch_transcripts(&["we ship it", "ship it on Friday"]);
    let long = stitch_transcripts(&["we ship it", "ship it on Friday", "on Friday then"]);
    assert_eq!(short, "we ship it on Friday");
    assert_eq!(long, "we ship it on Friday then");
}
