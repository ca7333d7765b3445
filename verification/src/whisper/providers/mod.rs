//! The providers.

pub mod openai_api;
pub mod openai_cli;
pub mod whisper_cpp;
pub mod whisper_rs;
