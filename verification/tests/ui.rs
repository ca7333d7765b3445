use smoltalk::config::UiConfig;
use smoltalk::ui::{
    beep_args, generate_beep_tone, has_played, play_simple_sound, preview, python_command, speaker_test_args,
    tone_for, Indicator, PlayOutcome, Sound, SoundAction, Tone, ToneAction, ToneMethod,
};

#[test]
fn from_config_honors_show_notifications() {
    let config = UiConfig {
        show_notifications: false,
        ..Default::default()
    };

    let indicator = Indicator::from_config(&config);

    assert!(!indicator.notifications_enabled);
}

#[test]
fn show_complete_handles_long_non_ascii_text() {
    let config = UiConfig {
        show_notifications: false,
        ..Default::default()
    };
    let indicator = Indicator::from_config(&config).with_audio_feedback(false);
    let text = "\u{8a9e}".repeat(60);

    let notice = indicator.show_complete(&text);

    assert!(notice.hyprctl_args.is_none());
    assert!(notice.sound.is_none());
    assert_eq!(preview(&text), format!("{}...", "\u{8a9e}".repeat(50)));
    assert_eq!(preview("short"), "short");
    assert_eq!(preview(&"x".repeat(50)), "x".repeat(50));
}

#[test]
fn notices_show_and_sound() {
    let indicator = Indicator::new();

    let recording = indicator.show_recording();
    assert_eq!(
        recording.hyprctl_args.unwrap(),
        vec!["notify", "-1", "3000", "rgb(ff1744)", "\u{f0ec3} Recording..."]
    );
    assert_eq!(recording.sound, Some(Sound::Start));
    assert_eq!(indicator.show_processing().sound, Some(Sound::Stop));
    assert_eq!(
        indicator.show_complete("done").hyprctl_args.unwrap()[4],
        "\u{f0e1e} done"
    );
    assert_eq!(indicator.show_cancelled().sound, Some(Sound::Cancel));
    let error = indicator.show_error("no device");
    assert_eq!(error.hyprctl_args.unwrap()[4], "Error: no device");
    assert_eq!(error.sound, None);
}

#[test]
fn sounds_have_tones() {
    assert_eq!(tone_for(Sound::Start.name()), Tone { freq: 800, duration_ms: 150 });
    assert_eq!(tone_for(Sound::Stop.name()), Tone { freq: 400, duration_ms: 200 });
    assert_eq!(tone_for(Sound::Complete.name()), Tone { freq: 1000, duration_ms: 100 });
    assert_eq!(tone_for(Sound::Cancel.name()), Tone { freq: 250, duration_ms: 120 });
    assert_eq!(tone_for("other"), Tone { freq: 500, duration_ms: 150 });
}

#[test]
fn tones_are_tried_in_order() {
    let timed_out = PlayOutcome::Ran { success: false, code: Some(124) };
    let failed = PlayOutcome::Ran { success: false, code: Some(1) };

    assert_eq!(generate_beep_tone(None), ToneAction::Run { method: ToneMethod::SpeakerTest });
    assert_eq!(
        generate_beep_tone(Some((ToneMethod::SpeakerTest, timed_out))),
        ToneAction::Finish { outcome: Some(timed_out) }
    );
    assert_eq!(
        generate_beep_tone(Some((ToneMethod::SpeakerTest, failed))),
        ToneAction::Run { method: ToneMethod::Beep }
    );
    assert_eq!(
        generate_beep_tone(Some((ToneMethod::Beep, failed))),
        ToneAction::Finish { outcome: Some(failed) }
    );
    assert_eq!(
        generate_beep_tone(Some((ToneMethod::Beep, PlayOutcome::NotRun))),
        ToneAction::Run { method: ToneMethod::Python }
    );
    assert_eq!(
        generate_beep_tone(Some((ToneMethod::Python, PlayOutcome::NotRun))),
        ToneAction::Finish { outcome: None }
    );
}

#[test]
fn tone_programs_get_the_tone() {
    let tone = Tone { freq: 800, duration_ms: 150 };

    assert_eq!(
        speaker_test_args(tone, "0.1"),
        vec!["0.1", "speaker-test", "-t", "sine", "-f", "800", "-c", "1"]
    );
    assert_eq!(beep_args(tone), vec!["-f", "800", "-l", "150"]);
    let command = python_command(tone);
    assert!(command.starts_with("python3 -c \"\nimport math, sys\nsamples = int(44100 * 150 / 1000)\nfreq = 800\n"));
    assert!(command.ends_with("paplay --raw --format=s16le --rate=44100 --channels=1"));
}

#[test]
fn system_sounds_follow_the_tone() {
    assert_eq!(play_simple_sound(false, 0, false), SoundAction::PlayTone);
    assert_eq!(play_simple_sound(true, 0, true), SoundAction::Finish { heard: true });
    assert_eq!(
        play_simple_sound(true, 0, false),
        SoundAction::PlayFile { path: "/usr/share/sounds/alsa/Front_Left.wav" }
    );
    assert_eq!(
        play_simple_sound(true, 1, false),
        SoundAction::PlayFile { path: "/usr/share/sounds/freedesktop/stereo/bell.oga" }
    );
    assert_eq!(
        play_simple_sound(true, 2, false),
        SoundAction::PlayFile { path: "/usr/share/sounds/Oxygen-Sys-Log-In.ogg" }
    );
    assert_eq!(play_simple_sound(true, 3, false), SoundAction::Finish { heard: false });
}

#[test]
fn a_tone_that_ran_out_of_time_was_played() {
    assert!(has_played(PlayOutcome::Ran { success: true, code: Some(0) }));
    assert!(has_played(PlayOutcome::Ran { success: false, code: Some(124) }));
    assert!(!has_played(PlayOutcome::Ran { success: false, code: None }));
    assert!(!has_played(PlayOutcome::NotRun));
}
