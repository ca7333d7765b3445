use smoltalk::normalizer::{
    join_lines, lines_of, plain_text, strip_non_speech_markers, strip_timestamps, tidy, Normalizer,
    OpenAIWhisperNormalizer, TranscriptionNormalizer, WhisperCppNormalizer,
};

#[test]
fn test_whisper_cpp_normalizer() {
    let normalizer = WhisperCppNormalizer::new().unwrap();

    let input = "[00:00:00.000 --> 00:00:03.280] This is me talking\n[00:00:03.280 --> 00:00:05.000] And more text";
    let expected = "This is me talking And more text";

    assert_eq!(normalizer.normalize(input), expected);
}

#[test]
fn test_whisper_cpp_normalizer_with_colons() {
    let normalizer = WhisperCppNormalizer::new().unwrap();

    let input = "[00:00:00:000 --> 00:00:03:280] This is me talking";
    let expected = "This is me talking";

    assert_eq!(normalizer.normalize(input), expected);
}

#[test]
fn test_openai_whisper_normalizer() {
    let normalizer = OpenAIWhisperNormalizer::new();

    let input = "  This is clean text  ";
    let expected = "This is clean text";

    assert_eq!(normalizer.normalize(input), expected);
}

#[test]
fn non_speech_markers_only_normalize_to_empty_text() {
    let normalizer = OpenAIWhisperNormalizer::new();

    assert_eq!(normalizer.normalize(" [BLANK_AUDIO] "), "");
    assert_eq!(normalizer.normalize(" [silence]\n(silence) "), "");
}

#[test]
fn non_speech_markers_are_stripped_from_real_text() {
    let normalizer = WhisperCppNormalizer::new().unwrap();

    let input = "[00:00:00.000 --> 00:00:03.280] hello [BLANK_AUDIO] world (silence)";

    assert_eq!(normalizer.normalize(input), "hello world");
}

#[test]
fn every_marker_is_known_in_both_brackets() {
    for words in [
        "blank_audio",
        "SILENCE",
        "Silent",
        "no  speech",
        "inaudible",
        "music",
        "noise",
        "background\tnoise",
    ] {
        assert_eq!(strip_non_speech_markers(&format!("a[ {words} ]b")), "a b");
        assert_eq!(strip_non_speech_markers(&format!("a ({words}) b")), "a b");
    }
    assert_eq!(strip_non_speech_markers("a [applause] (b"), "a [applause] (b");
    assert_eq!(strip_non_speech_markers("[silence)"), "[silence)");
}

#[test]
fn white_space_is_tidied() {
    assert_eq!(tidy("  a \t\n b\u{a0}\u{3000}c  "), "a b c");
    assert_eq!(tidy(" \n "), "");
    assert_eq!(tidy("a  b"), tidy(&tidy("a  b")));
}

#[test]
fn timestamps_go_with_the_white_space_behind_them() {
    assert_eq!(
        strip_timestamps("x [01:02:03.456 --> 01:02:04.000]  y [00:00:00:000 --> 00:00:01:000]z"),
        "x y z"
    );
    assert_eq!(strip_timestamps("no brackets at all"), "no brackets at all");
    assert_eq!(strip_timestamps("[1:02:03.456 --> 01:02:04.000]"), "[1:02:03.456 --> 01:02:04.000]");
}

#[test]
fn lines_end_with_a_line_feed() {
    let text = "a\r\n\nb\rc\n d\r";
    let expected: Vec<String> = text.lines().map(|line| line.to_string()).collect();

    assert_eq!(lines_of(text), expected);
    assert_eq!(lines_of("a\n"), vec!["a".to_string()]);
    assert_eq!(lines_of(""), Vec::<String>::new());
    assert_eq!(
        join_lines(&vec![" a ".to_string(), "  ".to_string(), "b".to_string()]),
        "a b"
    );
}

#[test]
fn the_normalizer_fits_the_provider() {
    let openai = Normalizer::create(true).unwrap();
    let cpp = Normalizer::create(false).unwrap();
    let raw = "[00:00:00.000 --> 00:00:01.000] hello";

    assert_eq!(openai.run(raw), raw);
    assert_eq!(cpp.run(raw), "hello");
    assert_eq!(OpenAIWhisperNormalizer::new().name(), "OpenAIWhisperNormalizer");
    assert_eq!(WhisperCppNormalizer::new().unwrap().name(), "WhisperCppNormalizer");
}

#[test]
fn stamped_lines_become_their_texts() {
    let raw = "[00:00:00.000 --> 00:00:01.000]  first\r\n[00:00:01.000 --> 00:00:02.000]\n[00:00:02:000 --> 00:00:03:000] third [music]\n";

    assert_eq!(plain_text(raw), "first third [music]");
    assert_eq!(WhisperCppNormalizer::new().unwrap().normalize(raw), "first third");
}

#[test]
fn other_brackets_stay() {
    assert_eq!(strip_timestamps("see [a] and [x"), "see [a] and [x");
    assert_eq!(strip_non_speech_markers("(really) [noise] yes"), "(really) yes");
    assert_eq!(strip_non_speech_markers("]a) [ SILENCE ] (b"), "]a) (b");
}

#[test]
fn normalizers_agree_on_output_without_timestamps() {
    let cpp = Normalizer::create(false).unwrap();
    let openai = Normalizer::create(true).unwrap();
    for raw in [
        "",
        "  one \r\n\n two\n",
        "ends in [",
        "a [1] b [12:30] c",
        "[00:00:00.000 -> 00:00:01.000] thin arrow",
        "wait [No\n  Speech] (background\r\nNOISE) done",
        "[ silence\n] [applause\n] (",
    ] {
        assert_eq!(cpp.run(raw), openai.run(raw));
    }
    assert_eq!(cpp.run("wait [No\n  Speech] (background\r\nNOISE) done"), "wait done");
    assert_eq!(cpp.run("a [1]\nb"), "a [1] b");
    assert_eq!(openai.run("[ silence\n] [applause\n] ("), "[applause ] (");
}

#[test]
fn markers_are_read_without_regard_to_case() {
    assert_eq!(strip_non_speech_markers("a [\u{17f}ilEN\u{43}E] b"), "a b");
    assert_eq!(strip_non_speech_markers("a (BLAN\u{212a}_Audio) b"), "a b");
    assert_eq!(strip_non_speech_markers("a [no\u{3000}speech] b"), "a b");
    assert_eq!(strip_non_speech_markers("a [nospeech] b"), "a [nospeech] b");
    assert_eq!(strip_non_speech_markers("[[music] music]"), "[ music]");
    assert_eq!(strip_non_speech_markers("[m\u{fc}sic]"), "[m\u{fc}sic]");
}

#[test]
fn brackets_that_open_no_timestamp_stay() {
    for line in [
        "ends in [",
        "[1] first",
        "[12:30] lunch",
        "[00:00:00.000 --> 00:00:01.00]",
        "[00:00:00.000 -- 00:00:01.000]",
        "[00:00:00,000 --> 00:00:01.000]",
    ] {
        assert_eq!(strip_timestamps(line), line);
    }
    assert_eq!(strip_timestamps("[00:00:00.000-->\t00:00:01:000]x"), "x");
    assert_eq!(
        strip_timestamps("[[00:00:00.000 --> 00:00:01.000] [3] \u{fc}"),
        "[[3] \u{fc}"
    );
}
