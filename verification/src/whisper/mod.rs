//! Speech-to-text providers: their settings, how one is chosen, and how each is run.

pub mod audio_ctx;
pub mod process;
pub mod provider;
pub mod providers;
pub mod transcriber;

pub use audio_ctx::AudioCtxConfig;
pub use transcriber::{
    combined_initial_prompt, AnyProvider, Environment, ProviderConfig, WhisperTranscriber,
};
