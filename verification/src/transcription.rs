//! The transcription service: a provider's output, cleaned up.

use crate::cancellation::{CancellationToken, SessionStates, TokenState};
use crate::normalizer::{InvalidPattern, Normalizer};
use crate::text::opt_view;
use crate::whisper::provider::{ModelStatusSnapshot, ProviderError, TranscriptionProvider};
use crate::whisper::transcriber::WhisperTranscriber;
use vstd::prelude::*;

verus! {

/// Service that orchestrates transcription and normalization
pub struct TranscriptionService<P: TranscriptionProvider> {
    pub whisper: WhisperTranscriber<P>,
    pub normalizer: Normalizer,
}

impl<P: TranscriptionProvider> TranscriptionService<P> {
    /// Create a new transcription service with the provided whisper transcriber
    pub fn new(whisper: WhisperTranscriber<P>) -> (r: Result<Self, InvalidPattern>)
        ensures
            r matches Ok(service) && service.whisper == whisper
                && service.normalizer is OpenAIWhisper == (whisper.provider.title()
                == "OpenAI Whisper CLI"@),
    {
        match Normalizer::create(whisper.is_openai_whisper()) {
            Ok(normalizer) => Ok(TranscriptionService { whisper, normalizer }),
            Err(error) => Err(error),
        }
    }

    /// The end of a transcription: what the provider gave, cleaned up, unless it failed or the
    /// session was cancelled.
    pub fn finish_transcription(
        &self,
        raw: Result<String, String>,
        cancellation: &CancellationToken,
        sessions: &SessionStates,
    ) -> (r: Result<String, String>)
        requires
            cancellation.known(sessions@),
        ensures
            match raw {
                Err(error) => r == Err::<String, String>(error),
                Ok(text) => if sessions@[cancellation.id()] == TokenState::Cancelled {
                    r matches Err(error) && error@ == "transcription cancelled"@
                } else {
                    r matches Ok(cleaned) && cleaned@ == self.normalizer.cleaned(text@)
                },
            },
    {
        match raw {
            Err(error) => Err(error),
            Ok(text) => {
                if cancellation.is_cancelled(sessions) {
                    Err("transcription cancelled".to_owned())
                } else {
                    Ok(self.normalizer.run(text.as_str()))
                }
            },
        }
    }

    /// Asks the provider to prepare. It names the model that is to be loaded, if one is.
    pub fn prepare(&mut self, now: u128) -> (r: Option<String>)
        ensures
            final(self).whisper.provider == old(self).whisper.provider.preparing(now).0,
            final(self).whisper.language == old(self).whisper.language,
            final(self).normalizer == old(self).normalizer,
            opt_view(r) == old(self).whisper.provider.preparing(now).1,
    {
        self.whisper.prepare(now)
    }

    /// The model that the provider named was loaded, or could not be.
    pub fn finish_prepare(&mut self, result: Result<(), String>, now: u128)
        ensures
            final(self).whisper.provider == old(self).whisper.provider.prepared(result, now),
            final(self).whisper.language == old(self).whisper.language,
            final(self).normalizer == old(self).normalizer,
    {
        self.whisper.finish_prepare(result, now)
    }

    pub fn supports_chunking(&self) -> (r: bool)
        ensures
            r == self.whisper.provider.chunks(),
    {
        self.whisper.supports_chunking()
    }

    pub fn model_status(&mut self, now: u128) -> (r: Option<ModelStatusSnapshot>)
        ensures
            final(self).whisper.provider == old(self).whisper.provider.aged(now),
            final(self).whisper.language == old(self).whisper.language,
            final(self).normalizer == old(self).normalizer,
            match (r, old(self).whisper.provider.aged(now).status()) {
                (Some(snapshot), Some(status)) => snapshot.says(status),
                (None, None) => true,
                _ => false,
            },
    {
        self.whisper.model_status(now)
    }

    pub fn unload_model(&mut self) -> (r: Result<(), ProviderError>)
        ensures
            final(self).whisper.language == old(self).whisper.language,
            final(self).normalizer == old(self).normalizer,
            r is Ok,
            final(self).whisper.provider == old(self).whisper.provider.unloaded(),
    {
        self.whisper.unload_model()
    }

    pub fn recording_complete(&mut self) -> (r: Result<(), ProviderError>)
        ensures
            r is Ok,
            final(self).whisper.provider == old(self).whisper.provider.completed(),
            final(self).whisper.language == old(self).whisper.language,
            final(self).normalizer == old(self).normalizer,
    {
        self.whisper.recording_complete()
    }

    /// Asks the provider to load its model anew.
    pub fn reload_model(&mut self, now: u128) -> (r: Result<Option<String>, ProviderError>)
        ensures
            final(self).whisper.language == old(self).whisper.language,
            final(self).normalizer == old(self).normalizer,
            final(self).whisper.provider == old(self).whisper.provider.unloaded().preparing(now).0,
            r matches Ok(path) && opt_view(path)
                == old(self).whisper.provider.unloaded().preparing(now).1,
    {
        self.whisper.reload_model(now)
    }
}

} // verus!
