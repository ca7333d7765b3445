use smoltalk::config::{
    config_path, ApiConfig, AudioConfig, BehaviorConfig, ChunkingConfig, Config, InjectionConfig,
    UiConfig, WaylandConfig, WhisperConfig,
};
use smoltalk::vad::{VadEngine, VadSettings};
use smoltalk::whisper::AudioCtxConfig;

#[test]
fn the_port_has_a_default() {
    assert_eq!(ApiConfig::default().port, 3737);
    assert_eq!(Config::default().api.port, 3737);
}

#[test]
fn injection_has_defaults() {
    let injection = InjectionConfig::default();

    assert_eq!(injection.paste_threshold_chars, 120);
    assert_eq!(injection.force_method, None);
    assert!(injection.restore_clipboard);
    assert_eq!(Config::default().injection, injection);
}

#[test]
fn voice_activity_detection_has_defaults() {
    let vad = VadSettings::default();

    assert!(vad.enabled);
    assert_eq!(vad.engine, VadEngine::Auto);
    assert_eq!(vad.min_speech_ms, 100);
    assert_eq!(vad.pad_ms, 200);
    assert_eq!(vad.model_path, None);
}

#[test]
fn chunking_has_defaults() {
    let chunking = ChunkingConfig::default();

    assert!(!chunking.enabled);
    assert_eq!(chunking.pause_ms, 600);
    assert_eq!(chunking.min_chunk_ms, 5_000);
    assert_eq!(chunking.overlap_ms, 300);
    assert_eq!(Config::default().chunking, chunking);
}

#[test]
fn the_model_is_cold_at_idle_by_default() {
    let whisper = WhisperConfig::default();

    assert_eq!(whisper.keep_warm_for_secs, Some(0));
    assert_eq!(whisper.model, "base");
    assert_eq!(whisper.language, "en");
    assert_eq!(
        whisper.api_endpoint,
        Some("https://api.openai.com/v1/audio/transcriptions".to_string())
    );
    assert_eq!(whisper.audio_ctx, AudioCtxConfig::Auto);
    assert_eq!(whisper.provider, None);
}

#[test]
fn the_other_sections_have_defaults() {
    let audio = AudioConfig::default();
    assert_eq!((audio.device.as_str(), audio.sample_rate, audio.channels), ("default", 16_000, 1));
    let ui = UiConfig::default();
    assert_eq!(ui.indicator_position, "top-right");
    assert_eq!(ui.indicator_size, 20);
    assert!(ui.show_notifications);
    assert_eq!(ui.layer_shell_anchor, "top | right");
    assert_eq!(ui.layer_shell_margin, 10);
    assert_eq!(ui.notification_color, "rgb(ff1744)");
    assert_eq!(ui.waybar.clone().idle_text, "\u{f044a}");
    let wayland = WaylandConfig::default();
    assert_eq!(wayland.input_method, "wtype");
    assert!(wayland.use_hyprland_ipc);
    assert_eq!(
        BehaviorConfig::default(),
        BehaviorConfig {
            auto_paste: true,
            preserve_clipboard: false,
            delete_audio_files: true,
            audio_feedback: true,
        }
    );
}

#[test]
fn the_settings_have_a_place() {
    assert_eq!(
        config_path(Some("/home/me/.config")),
        Ok("/home/me/.config/chezwizper/config.toml".to_string())
    );
    assert_eq!(config_path(None), Err("Failed to determine config directory"));
}
