//! What the user is shown and hears.

use crate::config::UiConfig;
use crate::text::{chars_of, decimal, decimal_string, str_eq, views};
use vstd::prelude::*;

verus! {

/// Shows notifications and plays sounds, as far as that is wanted.
pub struct Indicator {
    pub audio_feedback_enabled: bool,
    pub notifications_enabled: bool,
    pub notification_color: String,
}

/// What the user hears.
#[derive(Clone, Copy, Debug, PartialEq, Eq, Structural)]
pub enum Sound {
    Start,
    Stop,
    Complete,
    Cancel,
}

impl Sound {
    pub open spec fn label(self) -> Seq<char> {
        match self {
            Sound::Start => "start"@,
            Sound::Stop => "stop"@,
            Sound::Complete => "complete"@,
            Sound::Cancel => "cancel"@,
        }
    }

    pub fn name(self) -> (r: &'static str)
        ensures
            r@ == self.label(),
    {
        match self {
            Sound::Start => "start",
            Sound::Stop => "stop",
            Sound::Complete => "complete",
            Sound::Cancel => "cancel",
        }
    }
}

/// What the user is shown and hears: the arguments of `hyprctl`, and a sound.
pub struct Notice {
    pub hyprctl_args: Option<Vec<String>>,
    pub sound: Option<Sound>,
}

/// How long `hyprctl` may take, in milliseconds.
pub const HYPRCTL_TIMEOUT_MS: u64 = 1_000;

/// The arguments of `hyprctl` for a notification.
pub open spec fn hyprctl(color: Seq<char>, title: Seq<char>) -> Seq<Seq<char>> {
    seq!["notify"@, "-1"@, "3000"@, color, title]
}

/// The longest part of a text that a notification shows.
pub open spec fn preview_of(text: Seq<char>) -> Seq<char> {
    if text.len() > 50 {
        text.take(50) + "..."@
    } else {
        text
    }
}

/// The longest part of a text that a notification shows: fifty characters, and dots where there
/// are more.
pub fn preview(text: &str) -> (r: String)
    ensures
        r@ == preview_of(text@),
{
    let count: usize = chars_of(text).len();
    if count > 50 {
        let mut out = text.substring_char(0, 50).to_owned();
        assert(out@ == text@.take(50));
        out.append("...");
        out
    } else {
        text.to_owned()
    }
}

impl Notice {
    /// The notice shows a title and plays a sound, as far as the indicator is to.
    pub open spec fn tells(self, indicator: Indicator, title: Seq<char>, sound: Option<Sound>) -> bool {
        &&& self.hyprctl_args is Some == indicator.notifications_enabled
        &&& self.hyprctl_args matches Some(args) ==> views(args@) == hyprctl(
            indicator.notification_color@,
            title,
        )
        &&& self.sound == (if indicator.audio_feedback_enabled {
            sound
        } else {
            None
        })
    }
}

impl Default for Indicator {
    fn default() -> (r: Self)
        ensures
            r.audio_feedback_enabled,
            r.notifications_enabled,
            r.notification_color@ == "rgb(ff1744)"@,
    {
        Indicator::new()
    }
}

impl Indicator {
    pub fn new() -> (r: Self)
        ensures
            r.audio_feedback_enabled,
            r.notifications_enabled,
            r.notification_color@ == "rgb(ff1744)"@,
    {
        Indicator {
            audio_feedback_enabled: true,
            notifications_enabled: true,
            notification_color: "rgb(ff1744)".to_owned(),
        }
    }

    pub fn from_config(config: &UiConfig) -> (r: Self)
        ensures
            r.audio_feedback_enabled,
            r.notifications_enabled == config.show_notifications,
            r.notification_color@ == config.notification_color@,
    {
        Indicator {
            audio_feedback_enabled: true,
            notifications_enabled: config.show_notifications,
            notification_color: config.notification_color.clone(),
        }
    }

    pub fn with_audio_feedback(self, enabled: bool) -> (r: Self)
        ensures
            r == (Indicator { audio_feedback_enabled: enabled, ..self }),
    {
        Indicator { audio_feedback_enabled: enabled, ..self }
    }

    fn hyprland_notify(&self, title: &str) -> (r: Option<Vec<String>>)
        ensures
            r is Some == self.notifications_enabled,
            r matches Some(args) ==> views(args@) == hyprctl(self.notification_color@, title@),
    {
        if !self.notifications_enabled {
            return None;
        }
        let mut args: Vec<String> = Vec::new();
        args.push("notify".to_owned());
        args.push("-1".to_owned());
        args.push("3000".to_owned());
        args.push(self.notification_color.clone());
        args.push(title.to_owned());
        assert(views(args@) =~= hyprctl(self.notification_color@, title@));
        Some(args)
    }

    fn notice(&self, title: &str, sound: Option<Sound>) -> (r: Notice)
        ensures
            r.tells(*self, title@, sound),
    {
        Notice {
            hyprctl_args: self.hyprland_notify(title),
            sound: if self.audio_feedback_enabled {
                sound
            } else {
                None
            },
        }
    }

    /// The daemon records.
    pub fn show_recording(&self) -> (r: Notice)
        ensures
            r.tells(*self, "\u{f0ec3} Recording..."@, Some(Sound::Start)),
    {
        self.notice("\u{f0ec3} Recording...", Some(Sound::Start))
    }

    /// The recording is processed.
    pub fn show_processing(&self) -> (r: Notice)
        ensures
            r.tells(*self, "\u{f0996} Processing..."@, Some(Sound::Stop)),
    {
        self.notice("\u{f0996} Processing...", Some(Sound::Stop))
    }

    /// The text was delivered.
    pub fn show_complete(&self, text: &str) -> (r: Notice)
        ensures
            r.tells(*self, "\u{f0e1e} "@ + preview_of(text@), Some(Sound::Complete)),
    {
        let mut title = "\u{f0e1e} ".to_owned();
        title.append(preview(text).as_str());
        self.notice(title.as_str(), Some(Sound::Complete))
    }

    /// The utterance was cancelled.
    pub fn show_cancelled(&self) -> (r: Notice)
        ensures
            r.tells(*self, "\u{f073a} Recording cancelled"@, Some(Sound::Cancel)),
    {
        self.notice("\u{f073a} Recording cancelled", Some(Sound::Cancel))
    }

    /// Something failed.
    pub fn show_error(&self, error: &str) -> (r: Notice)
        ensures
            r.tells(*self, "Error: "@ + error@, None),
    {
        let mut title = "Error: ".to_owned();
        title.append(error);
        self.notice(title.as_str(), None)
    }
}

/// A tone: its frequency in hertz and its duration in milliseconds.
#[derive(Clone, Copy, Debug, PartialEq, Eq, Structural)]
pub struct Tone {
    pub freq: u32,
    pub duration_ms: u32,
}

/// The tone of a sound.
pub open spec fn tone_of(sound_type: Seq<char>) -> Tone {
    if sound_type == "start"@ {
        Tone { freq: 800, duration_ms: 150 }
    } else if sound_type == "stop"@ {
        Tone { freq: 400, duration_ms: 200 }
    } else if sound_type == "complete"@ {
        Tone { freq: 1000, duration_ms: 100 }
    } else if sound_type == "cancel"@ {
        Tone { freq: 250, duration_ms: 120 }
    } else {
        Tone { freq: 500, duration_ms: 150 }
    }
}

/// The tone of a sound: high and short at the start, low and longer at the stop.
pub fn tone_for(sound_type: &str) -> (r: Tone)
    ensures
        r == tone_of(sound_type@),
{
    if str_eq(sound_type, "start") {
        Tone { freq: 800, duration_ms: 150 }
    } else if str_eq(sound_type, "stop") {
        Tone { freq: 400, duration_ms: 200 }
    } else if str_eq(sound_type, "complete") {
        Tone { freq: 1000, duration_ms: 100 }
    } else if str_eq(sound_type, "cancel") {
        Tone { freq: 250, duration_ms: 120 }
    } else {
        Tone { freq: 500, duration_ms: 150 }
    }
}

/// How a program that plays something ended.
#[derive(Clone, Copy, Debug, PartialEq, Eq, Structural)]
pub enum PlayOutcome {
    /// It could not be run.
    NotRun,
    /// It ran, and ended with a status.
    Ran { success: bool, code: Option<i32> },
}

/// The program played: it succeeded, or it was stopped because its time was up.
pub open spec fn played(outcome: PlayOutcome) -> bool {
    match outcome {
        PlayOutcome::NotRun => false,
        PlayOutcome::Ran { success, code } => success || code == Some(124i32),
    }
}

/// The program played: it succeeded, or it was stopped because its time was up.
pub fn has_played(outcome: PlayOutcome) -> (r: bool)
    ensures
        r == played(outcome),
{
    match outcome {
        PlayOutcome::NotRun => false,
        PlayOutcome::Ran { success, code } => {
            success || match code {
                Some(code) => code == 124,
                None => false,
            }
        },
    }
}

/// How a tone can be played.
#[derive(Clone, Copy, Debug, PartialEq, Eq, Structural)]
pub enum ToneMethod {
    SpeakerTest,
    Beep,
    Python,
}

/// What is to be done to play a tone.
#[derive(Clone, Copy, Debug, PartialEq, Eq, Structural)]
pub enum ToneAction {
    Run { method: ToneMethod },
    /// This is how it ended; nothing could be run where there is no outcome.
    Finish { outcome: Option<PlayOutcome> },
}

/// What follows once a way to play a tone was tried. The first one has to play; the others only
/// have to run.
pub open spec fn tone_next(tried: Option<(ToneMethod, PlayOutcome)>) -> ToneAction {
    match tried {
        None => ToneAction::Run { method: ToneMethod::SpeakerTest },
        Some((ToneMethod::SpeakerTest, outcome)) => if played(outcome) {
            ToneAction::Finish { outcome: Some(outcome) }
        } else {
            ToneAction::Run { method: ToneMethod::Beep }
        },
        Some((ToneMethod::Beep, outcome)) => if outcome != PlayOutcome::NotRun {
            ToneAction::Finish { outcome: Some(outcome) }
        } else {
            ToneAction::Run { method: ToneMethod::Python }
        },
        Some((ToneMethod::Python, outcome)) => ToneAction::Finish {
            outcome: if outcome != PlayOutcome::NotRun {
                Some(outcome)
            } else {
                None
            },
        },
    }
}

/// Plays a tone, one step.
pub fn generate_beep_tone(tried: Option<(ToneMethod, PlayOutcome)>) -> (r: ToneAction)
    ensures
        r == tone_next(tried),
{
    match tried {
        None => ToneAction::Run { method: ToneMethod::SpeakerTest },
        Some((method, outcome)) => {
            let ran = outcome != PlayOutcome::NotRun;
            match method {
                ToneMethod::SpeakerTest => if has_played(outcome) {
                    ToneAction::Finish { outcome: Some(outcome) }
                } else {
                    ToneAction::Run { method: ToneMethod::Beep }
                },
                ToneMethod::Beep => if ran {
                    ToneAction::Finish { outcome: Some(outcome) }
                } else {
                    ToneAction::Run { method: ToneMethod::Python }
                },
                ToneMethod::Python => ToneAction::Finish {
                    outcome: if ran {
                        Some(outcome)
                    } else {
                        None
                    },
                },
            }
        },
    }
}

/// The arguments of `timeout` for a tone by `speaker-test`; the duration is given in seconds.
pub fn speaker_test_args(tone: Tone, seconds: &str) -> (r: Vec<String>)
    ensures
        views(r@) == seq![
            seconds@,
            "speaker-test"@,
            "-t"@,
            "sine"@,
            "-f"@,
            decimal(tone.freq as nat),
            "-c"@,
            "1"@,
        ],
{
    let mut out: Vec<String> = Vec::new();
    out.push(seconds.to_owned());
    out.push("speaker-test".to_owned());
    out.push("-t".to_owned());
    out.push("sine".to_owned());
    out.push("-f".to_owned());
    out.push(decimal_string(tone.freq as u64));
    out.push("-c".to_owned());
    out.push("1".to_owned());
    assert(views(out@) =~= seq![
        seconds@,
        "speaker-test"@,
        "-t"@,
        "sine"@,
        "-f"@,
        decimal(tone.freq as nat),
        "-c"@,
        "1"@,
    ]);
    out
}

/// The arguments of `beep` for a tone.
pub fn beep_args(tone: Tone) -> (r: Vec<String>)
    ensures
        views(r@) == seq![
            "-f"@,
            decimal(tone.freq as nat),
            "-l"@,
            decimal(tone.duration_ms as nat),
        ],
{
    let mut out: Vec<String> = Vec::new();
    out.push("-f".to_owned());
    out.push(decimal_string(tone.freq as u64));
    out.push("-l".to_owned());
    out.push(decimal_string(tone.duration_ms as u64));
    assert(views(out@) =~= seq![
        "-f"@,
        decimal(tone.freq as nat),
        "-l"@,
        decimal(tone.duration_ms as nat),
    ]);
    out
}

/// The shell command that makes a tone with Python and plays it.
pub open spec fn python_tone(tone: Tone) -> Seq<char> {
    "python3 -c \"\nimport math, sys\nsamples = int(44100 * "@ + decimal(tone.duration_ms as nat)
        + " / 1000)\nfreq = "@ + decimal(tone.freq as nat)
        + "\nfor i in range(samples):\n    t = i / 44100.0\n    sample = math.sin(2.0 * math.pi * freq * t) * 0.3\n    sample_i16 = int(sample * 16384)\n    sys.stdout.buffer.write(sample_i16.to_bytes(2, 'little', signed=True))\n\" | paplay --raw --format=s16le --rate=44100 --channels=1"@
}

/// The shell command that makes a tone with Python and plays it.
pub fn python_command(tone: Tone) -> (r: String)
    ensures
        r@ == python_tone(tone),
{
    let mut out = "python3 -c \"\nimport math, sys\nsamples = int(44100 * ".to_owned();
    out.append(decimal_string(tone.duration_ms as u64).as_str());
    out.append(" / 1000)\nfreq = ");
    out.append(decimal_string(tone.freq as u64).as_str());
    out.append(
        "\nfor i in range(samples):\n    t = i / 44100.0\n    sample = math.sin(2.0 * math.pi * freq * t) * 0.3\n    sample_i16 = int(sample * 16384)\n    sys.stdout.buffer.write(sample_i16.to_bytes(2, 'little', signed=True))\n\" | paplay --raw --format=s16le --rate=44100 --channels=1",
    );
    out
}

/// A sound file that comes with the system.
pub open spec fn sound_file(i: int) -> Seq<char> {
    if i == 0 {
        "/usr/share/sounds/alsa/Front_Left.wav"@
    } else if i == 1 {
        "/usr/share/sounds/freedesktop/stereo/bell.oga"@
    } else {
        "/usr/share/sounds/Oxygen-Sys-Log-In.ogg"@
    }
}

/// What is to be done to play a sound.
#[derive(Debug, PartialEq, Eq)]
pub enum SoundAction {
    /// Play the tone.
    PlayTone,
    /// Play a file, if it is there.
    PlayFile { path: &'static str },
    /// The sound was played, or nothing could play it.
    Finish { heard: bool },
}

/// Plays a sound, one step: the tone, then the files of the system until one is played. `heard`
/// says whether what was tried last, the tone or the last of `files` files, was played.
pub fn play_simple_sound(tone_tried: bool, files: usize, heard: bool) -> (r: SoundAction)
    ensures
        if !tone_tried {
            r is PlayTone
        } else if heard || files >= 3 {
            r == (SoundAction::Finish { heard })
        } else {
            r matches SoundAction::PlayFile { path } && path@ == sound_file(files as int)
        },
{
    if !tone_tried {
        SoundAction::PlayTone
    } else if heard {
        SoundAction::Finish { heard: true }
    } else if files == 0 {
        SoundAction::PlayFile { path: "/usr/share/sounds/alsa/Front_Left.wav" }
    } else if files == 1 {
        SoundAction::PlayFile { path: "/usr/share/sounds/freedesktop/stereo/bell.oga" }
    } else if files == 2 {
        SoundAction::PlayFile { path: "/usr/share/sounds/Oxygen-Sys-Log-In.ogg" }
    } else {
        SoundAction::Finish { heard: false }
    }
}

/// Law: a preview shows at most fifty characters of a text and three dots, and it shows a text that
/// is no longer than that as it is.
pub proof fn law_previews_are_short(text: Seq<char>)
    ensures
        preview_of(text).len() <= 53,
        text.len() <= 50 ==> preview_of(text) == text,
        text.len() > 50 ==> preview_of(text).take(50) == text.take(50),
{
    reveal_strlit("...");
    if text.len() > 50 {
        assert(preview_of(text).take(50) =~= text.take(50));
    }
}

/// Law: a text that is too long is shown by its first fifty characters and three dots.
pub proof fn law_long_texts_are_cut_with_dots(text: Seq<char>)
    requires
        text.len() > 50,
    ensures
        preview_of(text).len() == 53,
        preview_of(text).skip(50) == seq!['.', '.', '.'],
{
    reveal_strlit("...");
    assert(preview_of(text).skip(50) =~= "..."@);
    assert("..."@ =~= seq!['.', '.', '.']);
}

/// Law: a notification is shown for three seconds, in the colour that is set.
pub proof fn law_notifications(color: Seq<char>, title: Seq<char>)
    ensures
        hyprctl(color, title) == seq!["notify"@, "-1"@, "3000"@, color, title],
{
}

/// Law: a tone is played by `speaker-test`, which has to play it or run until its time is up; else
/// by `beep`, and else by Python, which only have to run. Where none can be run, nothing was heard.
pub proof fn law_a_tone_is_played_by_the_first_that_can(outcome: PlayOutcome)
    ensures
        tone_next(None) == (ToneAction::Run { method: ToneMethod::SpeakerTest }),
        tone_next(Some((ToneMethod::SpeakerTest, outcome))) == (match outcome {
            PlayOutcome::Ran { success, code } if success || code == Some(124i32) =>
                ToneAction::Finish { outcome: Some(outcome) },
            _ => ToneAction::Run { method: ToneMethod::Beep },
        }),
        tone_next(Some((ToneMethod::Beep, outcome))) == (match outcome {
            PlayOutcome::Ran { .. } => ToneAction::Finish { outcome: Some(outcome) },
            PlayOutcome::NotRun => ToneAction::Run { method: ToneMethod::Python },
        }),
        tone_next(Some((ToneMethod::Python, outcome))) == (ToneAction::Finish {
            outcome: match outcome {
                PlayOutcome::Ran { .. } => Some(outcome),
                PlayOutcome::NotRun => None,
            },
        }),
{
}

/// Law: each sound has its tone: the start is the highest but for the end, the stop is lower and
/// longer, and a cancellation is the lowest.
pub proof fn law_sounds_have_their_tones(sound: Sound, other: Seq<char>)
    ensures
        tone_of(sound.label()) == (match sound {
            Sound::Start => Tone { freq: 800, duration_ms: 150 },
            Sound::Stop => Tone { freq: 400, duration_ms: 200 },
            Sound::Complete => Tone { freq: 1000, duration_ms: 100 },
            Sound::Cancel => Tone { freq: 250, duration_ms: 120 },
        }),
        other != "start"@ && other != "stop"@ && other != "complete"@ && other != "cancel"@
            ==> tone_of(other) == (Tone { freq: 500, duration_ms: 150 }),
{
    reveal_strlit("start");
    reveal_strlit("stop");
    reveal_strlit("complete");
    reveal_strlit("cancel");
    assert("start"@.len() == 5 && "stop"@.len() == 4 && "complete"@.len() == 8 && "cancel"@.len()
        == 6);
}

/// Law: the sound files that are tried where no tone can be played.
pub proof fn law_the_sound_files(i: int)
    requires
        0 <= i < 3,
    ensures
        sound_file(i) == (if i == 0 {
            "/usr/share/sounds/alsa/Front_Left.wav"@
        } else if i == 1 {
            "/usr/share/sounds/freedesktop/stereo/bell.oga"@
        } else {
            "/usr/share/sounds/Oxygen-Sys-Log-In.ogg"@
        }),
{
}

/// Law: nothing is shown where notifications are off, nothing is heard where sounds are off, and
/// what is shown is the title.
pub proof fn law_a_notice_respects_the_settings(
    notice: Notice,
    indicator: Indicator,
    title: Seq<char>,
    sound: Option<Sound>,
)
    requires
        notice.tells(indicator, title, sound),
    ensures
        !indicator.notifications_enabled ==> notice.hyprctl_args is None,
        indicator.notifications_enabled ==> (notice.hyprctl_args matches Some(args)
            && args@.len() == 5 && args@[4]@ == title && args@[3]@
            == indicator.notification_color@),
        !indicator.audio_feedback_enabled ==> notice.sound is None,
        indicator.audio_feedback_enabled ==> notice.sound == sound,
{
    if let Some(args) = notice.hyprctl_args {
        assert(views(args@).len() == args@.len());
        assert(views(args@)[4] == args@[4]@);
        assert(views(args@)[3] == args@[3]@);
    }
}

} // verus!
