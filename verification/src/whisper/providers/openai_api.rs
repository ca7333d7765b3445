//! The provider behind OpenAI's transcription API.

use crate::commands::{Place, PlacePath};
use crate::whisper::provider::{
    ModelStatus, ModelStatusSnapshot, ProviderError, TranscriptionProvider,
};
use vstd::prelude::*;

verus! {

/// What a request to the API is made with.
pub struct OpenAIProvider {
    pub api_key: String,
    pub api_endpoint: Option<String>,
    pub model: String,
}

impl OpenAIProvider {
    pub fn new(api_key: String, api_endpoint: Option<String>, model: String) -> (r: Self)
        ensures
            r == (OpenAIProvider { api_key, api_endpoint, model }),
    {
        OpenAIProvider { api_key, api_endpoint, model }
    }
}

impl TranscriptionProvider for OpenAIProvider {
    open spec fn title(&self) -> Seq<char> {
        "OpenAI API"@
    }

    open spec fn needs_path(&self) -> Option<Place> {
        None
    }

    open spec fn chunks(&self) -> bool {
        false
    }

    open spec fn aged(&self, now: u128) -> Self {
        *self
    }

    open spec fn status(&self) -> Option<ModelStatus> {
        None
    }

    open spec fn unloaded(&self) -> Self {
        *self
    }

    open spec fn completed(&self) -> Self {
        *self
    }

    open spec fn preparing(&self, now: u128) -> (Self, Option<Seq<char>>) {
        (*self, None)
    }

    open spec fn prepared(&self, result: Result<(), String>, now: u128) -> Self {
        *self
    }

    fn name(&self) -> (r: &'static str) {
        "OpenAI API"
    }

    fn required_path(&self) -> (r: Option<PlacePath<'_>>) {
        None
    }

    fn supports_chunking(&self) -> (r: bool) {
        false
    }

    fn model_status(&mut self, now: u128) -> (r: Option<ModelStatusSnapshot>) {
        None
    }

    fn unload_model(&mut self) -> (r: Result<(), ProviderError>) {
        Ok(())
    }

    fn recording_complete(&mut self) -> (r: Result<(), ProviderError>) {
        Ok(())
    }

    fn prepare(&mut self, now: u128) -> (r: Option<String>) {
        None
    }

    fn finish_prepare(&mut self, result: Result<(), String>, now: u128) {
    }
}

} // verus!
