//! The decisions of a push-to-talk dictation daemon, each with a proved contract.

pub mod api;
pub mod app;
pub mod audio;
pub mod bench_trace;
pub mod cancellation;
pub mod chunking;
pub mod clipboard;
pub mod commands;
pub mod config;
pub mod file_name;
pub mod normalizer;
pub mod text;
pub mod text_injection;
pub mod transcription;
pub mod ui;
pub mod vad;
pub mod whisper;
