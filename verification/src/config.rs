//! The settings of the daemon and their defaults.

use crate::text::{join_path, joined_path};
use crate::vad::{VadEngine, VadSettings};
use crate::whisper::audio_ctx::AudioCtxConfig;
use vstd::prelude::*;

verus! {

pub struct Config {
    pub audio: AudioConfig,
    pub whisper: WhisperConfig,
    pub vad: VadSettings,
    pub chunking: ChunkingConfig,
    pub ui: UiConfig,
    pub wayland: WaylandConfig,
    pub behavior: BehaviorConfig,
    pub injection: InjectionConfig,
    pub api: ApiConfig,
}

pub struct AudioConfig {
    pub device: String,
    pub sample_rate: u32,
    pub channels: u16,
}

pub struct WhisperConfig {
    pub model: String,
    pub language: String,
    pub command_path: Option<String>,
    pub model_path: Option<String>,
    pub api_endpoint: Option<String>,
    pub provider: Option<String>,
    pub api_key: Option<String>,
    pub threads: Option<u32>,
    pub beam_size: Option<u32>,
    pub best_of: Option<u32>,
    pub no_fallback: Option<bool>,
    pub timeout_secs: Option<u64>,
    pub keep_warm_for_secs: Option<u64>,
    pub initial_prompt: Option<String>,
    pub coding_vocabulary: Option<String>,
    pub audio_ctx: AudioCtxConfig,
}

#[derive(Clone, Copy, Debug, PartialEq, Eq, Structural)]
pub struct ChunkingConfig {
    pub enabled: bool,
    pub pause_ms: u32,
    pub min_chunk_ms: u32,
    pub overlap_ms: u32,
}

pub struct UiConfig {
    pub indicator_position: String,
    pub indicator_size: u32,
    pub show_notifications: bool,
    pub layer_shell_anchor: String,
    pub layer_shell_margin: u32,
    pub notification_color: String,
    pub waybar: WaybarConfig,
}

#[derive(Debug)]
pub struct WaybarConfig {
    pub idle_text: String,
    pub recording_text: String,
    pub processing_text: String,
    pub idle_tooltip: String,
    pub recording_tooltip: String,
    pub processing_tooltip: String,
}

pub struct WaylandConfig {
    pub input_method: String,
    pub use_hyprland_ipc: bool,
}

#[derive(Clone, Copy, Debug, PartialEq, Eq, Structural)]
pub struct BehaviorConfig {
    pub auto_paste: bool,
    pub preserve_clipboard: bool,
    pub delete_audio_files: bool,
    pub audio_feedback: bool,
}

#[derive(Clone, Copy, Debug, PartialEq, Eq, Structural)]
pub struct InjectionConfig {
    pub paste_threshold_chars: usize,
    pub force_method: Option<InjectionForceMethod>,
    pub restore_clipboard: bool,
}

#[derive(Clone, Copy, Debug, PartialEq, Eq, Structural)]
pub enum InjectionForceMethod {
    Type,
    Paste,
}

#[derive(Clone, Copy, Debug, PartialEq, Eq, Structural)]
pub struct ApiConfig {
    pub port: u16,
}

impl Default for ChunkingConfig {
    fn default() -> (r: Self)
        ensures
            r == (ChunkingConfig {
                enabled: false,
                pause_ms: 600,
                min_chunk_ms: 5_000,
                overlap_ms: 300,
            }),
    {
        ChunkingConfig { enabled: false, pause_ms: 600, min_chunk_ms: 5_000, overlap_ms: 300 }
    }
}

impl Default for ApiConfig {
    fn default() -> (r: Self)
        ensures
            r.port == 3737,
    {
        ApiConfig { port: 3737 }
    }
}

impl AudioConfig {
    pub open spec fn is_default(self) -> bool {
        self.device@ == "default"@ && self.sample_rate == 16_000 && self.channels == 1
    }
}

impl Default for AudioConfig {
    fn default() -> (r: Self)
        ensures
            r.is_default(),
    {
        AudioConfig { device: "default".to_owned(), sample_rate: 16_000, channels: 1 }
    }
}

impl WhisperConfig {
    pub open spec fn is_default(self) -> bool {
        &&& self.model@ == "base"@
        &&& self.language@ == "en"@
        &&& self.command_path is None
        &&& self.model_path is None
        &&& self.api_endpoint matches Some(endpoint) && endpoint@
            == "https://api.openai.com/v1/audio/transcriptions"@
        &&& self.provider is None
        &&& self.api_key is None
        &&& self.threads is None
        &&& self.beam_size is None
        &&& self.best_of is None
        &&& self.no_fallback is None
        &&& self.timeout_secs is None
        &&& self.keep_warm_for_secs == Some(0u64)
        &&& self.initial_prompt is None
        &&& self.coding_vocabulary is None
        &&& self.audio_ctx == AudioCtxConfig::Auto
    }
}

impl Default for WhisperConfig {
    fn default() -> (r: Self)
        ensures
            r.is_default(),
    {
        WhisperConfig {
            model: "base".to_owned(),
            language: "en".to_owned(),
            command_path: None,
            model_path: None,
            api_endpoint: Some("https://api.openai.com/v1/audio/transcriptions".to_owned()),
            provider: None,
            api_key: None,
            threads: None,
            beam_size: None,
            best_of: None,
            no_fallback: None,
            timeout_secs: None,
            keep_warm_for_secs: Some(0),
            initial_prompt: None,
            coding_vocabulary: None,
            audio_ctx: AudioCtxConfig::Auto,
        }
    }
}

impl UiConfig {
    pub open spec fn is_default(self) -> bool {
        &&& self.indicator_position@ == "top-right"@
        &&& self.indicator_size == 20
        &&& self.show_notifications
        &&& self.layer_shell_anchor@ == "top | right"@
        &&& self.layer_shell_margin == 10
        &&& self.notification_color@ == "rgb(ff1744)"@
        &&& self.waybar.is_default()
    }
}

impl Default for UiConfig {
    fn default() -> (r: Self)
        ensures
            r.is_default(),
    {
        UiConfig {
            indicator_position: "top-right".to_owned(),
            indicator_size: 20,
            show_notifications: true,
            layer_shell_anchor: "top | right".to_owned(),
            layer_shell_margin: 10,
            notification_color: "rgb(ff1744)".to_owned(),
            waybar: WaybarConfig::default(),
        }
    }
}

impl WaybarConfig {
    pub open spec fn is_default(self) -> bool {
        &&& self.idle_text@ == "\u{f044a}"@
        &&& self.recording_text@ == "\u{f0ec3}"@
        &&& self.processing_text@ == "\u{f0996}"@
        &&& self.idle_tooltip@ == "Press Super+R to record"@
        &&& self.recording_tooltip@ == "Recording... Press Super+R to stop"@
        &&& self.processing_tooltip@ == "Processing transcription..."@
    }
}

impl Default for WaybarConfig {
    fn default() -> (r: Self)
        ensures
            r.is_default(),
    {
        WaybarConfig {
            idle_text: "\u{f044a}".to_owned(),
            recording_text: "\u{f0ec3}".to_owned(),
            processing_text: "\u{f0996}".to_owned(),
            idle_tooltip: "Press Super+R to record".to_owned(),
            recording_tooltip: "Recording... Press Super+R to stop".to_owned(),
            processing_tooltip: "Processing transcription...".to_owned(),
        }
    }
}

impl Clone for WaybarConfig {
    fn clone(&self) -> (r: Self)
        ensures
            r == *self,
    {
        WaybarConfig {
            idle_text: self.idle_text.clone(),
            recording_text: self.recording_text.clone(),
            processing_text: self.processing_text.clone(),
            idle_tooltip: self.idle_tooltip.clone(),
            recording_tooltip: self.recording_tooltip.clone(),
            processing_tooltip: self.processing_tooltip.clone(),
        }
    }
}

impl WaylandConfig {
    pub open spec fn is_default(self) -> bool {
        self.input_method@ == "wtype"@ && self.use_hyprland_ipc
    }
}

impl Default for WaylandConfig {
    fn default() -> (r: Self)
        ensures
            r.is_default(),
    {
        WaylandConfig { input_method: "wtype".to_owned(), use_hyprland_ipc: true }
    }
}

impl Default for BehaviorConfig {
    fn default() -> (r: Self)
        ensures
            r == (BehaviorConfig {
                auto_paste: true,
                preserve_clipboard: false,
                delete_audio_files: true,
                audio_feedback: true,
            }),
    {
        BehaviorConfig {
            auto_paste: true,
            preserve_clipboard: false,
            delete_audio_files: true,
            audio_feedback: true,
        }
    }
}

impl Default for InjectionConfig {
    fn default() -> (r: Self)
        ensures
            r == (InjectionConfig {
                paste_threshold_chars: 120,
                force_method: None,
                restore_clipboard: true,
            }),
    {
        InjectionConfig { paste_threshold_chars: 120, force_method: None, restore_clipboard: true }
    }
}

impl Default for Config {
    fn default() -> (r: Self)
        ensures
            r.audio.is_default(),
            r.whisper.is_default(),
            r.vad.enabled,
            r.vad.engine == VadEngine::Auto,
            r.vad.min_speech_ms == 100,
            r.vad.pad_ms == 200,
            r.vad.model_path is None,
            r.chunking == (ChunkingConfig {
                enabled: false,
                pause_ms: 600,
                min_chunk_ms: 5_000,
                overlap_ms: 300,
            }),
            r.ui.is_default(),
            r.wayland.is_default(),
            r.behavior == (BehaviorConfig {
                auto_paste: true,
                preserve_clipboard: false,
                delete_audio_files: true,
                audio_feedback: true,
            }),
            r.injection == (InjectionConfig {
                paste_threshold_chars: 120,
                force_method: None,
                restore_clipboard: true,
            }),
            r.api.port == 3737,
    {
        Config {
            audio: AudioConfig::default(),
            whisper: WhisperConfig::default(),
            vad: VadSettings::default(),
            chunking: ChunkingConfig::default(),
            ui: UiConfig::default(),
            wayland: WaylandConfig::default(),
            behavior: BehaviorConfig::default(),
            injection: InjectionConfig::default(),
            api: ApiConfig::default(),
        }
    }
}

/// Where the settings are kept below the directory for settings.
pub open spec fn settings_file(config_dir: Seq<char>) -> Seq<char> {
    joined_path(joined_path(config_dir, "chezwizper"@), "config.toml"@)
}

/// Where the settings are kept; the message says that the directory for settings is not known.
pub fn config_path(config_dir: Option<&str>) -> (r: Result<String, &'static str>)
    ensures
        match (config_dir, r) {
            (Some(dir), Ok(path)) => path@ == settings_file(dir@),
            (None, Err(message)) => message@ == "Failed to determine config directory"@,
            _ => false,
        },
{
    match config_dir {
        Some(dir) => Ok(join_path(join_path(dir, "chezwizper").as_str(), "config.toml")),
        None => Err("Failed to determine config directory"),
    }
}

/// Law: the settings are kept in a file of their own in the daemon's directory below the directory
/// for settings.
pub proof fn law_where_the_settings_are_kept(config_dir: Seq<char>)
    ensures
        settings_file(config_dir) == joined_path(
            joined_path(config_dir, "chezwizper"@),
            "config.toml"@,
        ),
{
}

/// Law: what speech is transcribed with where nothing is set.
pub proof fn law_the_default_transcription(w: WhisperConfig)
    requires
        w.is_default(),
    ensures
        w.model@ == "base"@ && w.language@ == "en"@,
        w.api_endpoint matches Some(endpoint) && endpoint@
            == "https://api.openai.com/v1/audio/transcriptions"@,
        w.provider is None && w.api_key is None && w.command_path is None && w.model_path is None,
        w.threads is None && w.beam_size is None && w.best_of is None && w.no_fallback is None,
        w.timeout_secs is None && w.keep_warm_for_secs == Some(0u64),
        w.initial_prompt is None && w.coding_vocabulary is None,
        w.audio_ctx == AudioCtxConfig::Auto,
{
}

/// Law: what is recorded, shown and used for typing where nothing is set.
pub proof fn law_the_default_surroundings(a: AudioConfig, u: UiConfig, w: WaylandConfig)
    requires
        a.is_default(),
        u.is_default(),
        w.is_default(),
    ensures
        a.device@ == "default"@ && a.sample_rate == 16_000 && a.channels == 1,
        u.indicator_position@ == "top-right"@ && u.indicator_size == 20 && u.show_notifications,
        u.layer_shell_anchor@ == "top | right"@ && u.layer_shell_margin == 10,
        u.notification_color@ == "rgb(ff1744)"@,
        u.waybar.idle_text@ == "\u{f044a}"@ && u.waybar.recording_text@ == "\u{f0ec3}"@,
        u.waybar.processing_text@ == "\u{f0996}"@,
        u.waybar.idle_tooltip@ == "Press Super+R to record"@,
        u.waybar.recording_tooltip@ == "Recording... Press Super+R to stop"@,
        u.waybar.processing_tooltip@ == "Processing transcription..."@,
        w.input_method@ == "wtype"@ && w.use_hyprland_ipc,
{
}

} // verus!
