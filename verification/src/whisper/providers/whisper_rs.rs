//! The in-process provider: when its model is loaded and given up, and what it is run with.

use crate::commands::{Place, PlacePath};
use crate::text::{
    decimal, decimal_string, join_path, joined, joined_path, opt_view, str_eq, str_view, trim,
    trimmed, views,
};
use crate::whisper::audio_ctx::{context_used, AudioCtxConfig};
use crate::whisper::provider::{
    ModelStatus, ModelStatusSnapshot, ProviderError, TranscriptionProvider,
};
use vstd::prelude::*;

verus! {

pub struct WhisperRsOptions {
    pub threads: Option<u32>,
    pub beam_size: Option<u32>,
    pub best_of: Option<u32>,
    pub no_fallback: Option<bool>,
    pub keep_warm_for_secs: Option<u64>,
    pub initial_prompt: Option<String>,
    pub audio_ctx: AudioCtxConfig,
}

impl Default for WhisperRsOptions {
    fn default() -> (r: Self)
        ensures
            r == (WhisperRsOptions {
                threads: None,
                beam_size: None,
                best_of: None,
                no_fallback: None,
                keep_warm_for_secs: Some(0),
                initial_prompt: None,
                audio_ctx: AudioCtxConfig::Auto,
            }),
    {
        WhisperRsOptions {
            threads: None,
            beam_size: None,
            best_of: None,
            no_fallback: None,
            keep_warm_for_secs: Some(0),
            initial_prompt: None,
            audio_ctx: AudioCtxConfig::Auto,
        }
    }
}

/// Where a model is in its life.
#[derive(Clone, Copy, Debug, PartialEq, Eq, Structural)]
pub enum WhisperRsModelStatus {
    Cold,
    Loading,
    Warm,
    IdleUnloaded,
    Error,
}

impl WhisperRsModelStatus {
    pub open spec fn label(self) -> Seq<char> {
        match self {
            WhisperRsModelStatus::Cold => "cold"@,
            WhisperRsModelStatus::Loading => "loading"@,
            WhisperRsModelStatus::Warm => "warm"@,
            WhisperRsModelStatus::IdleUnloaded => "idle-unloaded"@,
            WhisperRsModelStatus::Error => "error"@,
        }
    }

    pub fn as_str(self) -> (r: &'static str)
        ensures
            r@ == self.label(),
    {
        match self {
            WhisperRsModelStatus::Cold => "cold",
            WhisperRsModelStatus::Loading => "loading",
            WhisperRsModelStatus::Warm => "warm",
            WhisperRsModelStatus::IdleUnloaded => "idle-unloaded",
            WhisperRsModelStatus::Error => "error",
        }
    }
}

/// Why a model was given up.
#[derive(Clone, Copy, Debug, PartialEq, Eq, Structural)]
pub enum UnloadReason {
    Manual,
    IdleTimer,
}

impl UnloadReason {
    pub open spec fn label(self) -> Seq<char> {
        match self {
            UnloadReason::Manual => "manual"@,
            UnloadReason::IdleTimer => "idle_timer"@,
        }
    }

    pub fn as_str(self) -> (r: &'static str)
        ensures
            r@ == self.label(),
    {
        match self {
            UnloadReason::Manual => "manual",
            UnloadReason::IdleTimer => "idle_timer",
        }
    }
}

/// The state of a model that may be kept loaded. Moments are nanoseconds since some fixed moment.
#[derive(Debug, PartialEq, Eq)]
pub struct WarmModelState {
    pub status: WhisperRsModelStatus,
    pub keep_warm_for_secs: Option<u64>,
    pub last_used_at: Option<u128>,
    pub error: Option<String>,
}

/// The model was kept without use for as long as it may be.
pub open spec fn idle_expired(state: WarmModelState, now: u128) -> bool {
    match (state.keep_warm_for_secs, state.last_used_at) {
        (Some(secs), Some(last)) => secs > 0 && state.status == WhisperRsModelStatus::Warm && now
            - last >= secs * 1_000_000_000,
        _ => false,
    }
}

/// The state after the model was given up.
pub open spec fn given_up(state: WarmModelState, reason: UnloadReason) -> WarmModelState {
    WarmModelState {
        status: match reason {
            UnloadReason::Manual => WhisperRsModelStatus::Cold,
            UnloadReason::IdleTimer => WhisperRsModelStatus::IdleUnloaded,
        },
        last_used_at: None,
        error: None,
        ..state
    }
}

/// The state while the model is loaded.
pub open spec fn loading(state: WarmModelState) -> WarmModelState {
    WarmModelState { status: WhisperRsModelStatus::Loading, error: None, ..state }
}

/// The state once the model is loaded, or after it was used.
pub open spec fn warm(state: WarmModelState, now: u128) -> WarmModelState {
    WarmModelState {
        status: WhisperRsModelStatus::Warm,
        last_used_at: Some(now),
        error: None,
        ..state
    }
}

/// The state after the model could not be loaded.
pub open spec fn failed(state: WarmModelState, error: String) -> WarmModelState {
    WarmModelState { status: WhisperRsModelStatus::Error, error: Some(error), ..state }
}

impl WarmModelState {
    pub fn new(keep_warm_for_secs: Option<u64>) -> (r: Self)
        ensures
            r == (WarmModelState {
                status: WhisperRsModelStatus::Cold,
                keep_warm_for_secs,
                last_used_at: None,
                error: None,
            }),
    {
        WarmModelState {
            status: WhisperRsModelStatus::Cold,
            keep_warm_for_secs,
            last_used_at: None,
            error: None,
        }
    }

    pub fn status(&self) -> (r: WhisperRsModelStatus)
        ensures
            r == self.status,
    {
        self.status
    }

    pub fn error_message(&self) -> (r: Option<&str>)
        ensures
            match (r, self.error) {
                (Some(message), Some(error)) => message@ == error@,
                (None, None) => true,
                _ => false,
            },
    {
        match &self.error {
            Some(error) => Some(error.as_str()),
            None => None,
        }
    }

    /// Why the model is in this state: who had it unloaded, or what kept it from being loaded.
    pub fn transition_reason(&self) -> (r: Option<&str>)
        ensures
            match self.status {
                WhisperRsModelStatus::Cold => r matches Some(reason) && reason@
                    == UnloadReason::Manual.label(),
                WhisperRsModelStatus::IdleUnloaded => r matches Some(reason) && reason@
                    == UnloadReason::IdleTimer.label(),
                WhisperRsModelStatus::Error => str_view(r) == opt_view(self.error),
                _ => r is None,
            },
    {
        match self.status {
            WhisperRsModelStatus::Cold => Some(UnloadReason::Manual.as_str()),
            WhisperRsModelStatus::IdleUnloaded => Some(UnloadReason::IdleTimer.as_str()),
            WhisperRsModelStatus::Error => self.error_message(),
            _ => None,
        }
    }

    pub fn mark_loading(&mut self)
        ensures
            *final(self) == loading(*old(self)),
    {
        self.status = WhisperRsModelStatus::Loading;
        self.error = None;
    }

    pub fn mark_warm_at(&mut self, now: u128)
        ensures
            *final(self) == warm(*old(self), now),
    {
        self.status = WhisperRsModelStatus::Warm;
        self.last_used_at = Some(now);
        self.error = None;
    }

    pub fn mark_unloaded(&mut self, reason: UnloadReason)
        ensures
            *final(self) == given_up(*old(self), reason),
    {
        self.status = match reason {
            UnloadReason::Manual => WhisperRsModelStatus::Cold,
            UnloadReason::IdleTimer => WhisperRsModelStatus::IdleUnloaded,
        };
        self.last_used_at = None;
        self.error = None;
    }

    pub fn mark_error(&mut self, error: String)
        ensures
            *final(self) == failed(*old(self), error),
    {
        self.status = WhisperRsModelStatus::Error;
        self.error = Some(error);
    }

    /// The model was kept without use for as long as it may be. Without a limit, and with one of
    /// zero, it never is: then it is given up when a recording is complete, or not at all.
    pub fn should_idle_unload(&self, now: u128) -> (r: bool)
        ensures
            r == idle_expired(*self, now),
    {
        match (self.keep_warm_for_secs, self.last_used_at) {
            (Some(secs), Some(last)) => {
                secs > 0 && self.status == WhisperRsModelStatus::Warm && now.saturating_sub(last)
                    >= secs as u128 * 1_000_000_000
            },
            _ => false,
        }
    }
}

/// How tokens are picked.
#[derive(Clone, Copy, Debug, PartialEq, Eq, Structural)]
pub enum Sampling {
    BeamSearch { beam_size: i32 },
    Greedy { best_of: i32 },
}

/// What an inference is run with.
pub struct InferenceParams {
    pub sampling: Sampling,
    pub language: String,
    pub threads: Option<i32>,
    /// The temperature is not raised where decoding fails.
    pub no_fallback: bool,
    pub initial_prompt: Option<String>,
    /// The audio context; zero stands for the full one.
    pub audio_ctx: i32,
}

/// A count of at least one, as 32 bits with a sign hold it.
pub open spec fn count_of(value: u32) -> i32 {
    (if value >= 1 {
        value
    } else {
        1u32
    }) as i32
}

fn positive_count(value: u32) -> (r: i32)
    ensures
        r == count_of(value),
{
    #[verifier::truncate]
    ((if value >= 1 {
        value
    } else {
        1
    }) as i32)
}

/// The largest context that 32 bits with a sign hold, or a smaller one as it is.
pub open spec fn context_held(context: int) -> int {
    if context <= i32::MAX {
        context
    } else {
        i32::MAX as int
    }
}

/// How tokens are picked: by a beam where its size is set, else greedily among the best.
pub open spec fn sampling_for(options: WhisperRsOptions) -> Sampling {
    match options.beam_size {
        Some(beam_size) => Sampling::BeamSearch { beam_size: count_of(beam_size) },
        None => Sampling::Greedy {
            best_of: match options.best_of {
                Some(best_of) => count_of(best_of),
                None => 1,
            },
        },
    }
}

/// The in-process provider.
pub struct WhisperRsProvider {
    pub model_path: String,
    pub options: WhisperRsOptions,
    pub state: WarmModelState,
    /// The model is in memory.
    pub loaded: bool,
}

/// The directory of the models below the data directory.
pub open spec fn models_dir(data_dir: Seq<char>) -> Seq<char> {
    joined_path(joined_path(joined_path(data_dir, "chezwizper"@), "whisper"@), "models"@)
}

/// The files in which a model may lie, the best one first.
pub open spec fn candidates(model: Seq<char>, data_dir: Seq<char>) -> Seq<Seq<char>> {
    if model == "base"@ || model == "base.en"@ {
        seq![
            joined_path(models_dir(data_dir), "ggml-base.en-q5_0.bin"@),
            joined_path(models_dir(data_dir), "ggml-base.en.bin"@),
            joined_path(models_dir(data_dir), "ggml-base.bin"@),
        ]
    } else {
        seq![joined_path(models_dir(data_dir), "ggml-"@ + model + ".bin"@)]
    }
}

/// The files in which a model may lie, the best one first.
pub fn model_candidates(model: &str, data_dir: &str) -> (r: Vec<String>)
    ensures
        views(r@) == candidates(model@, data_dir@),
{
    let dir = join_path(
        join_path(join_path(data_dir, "chezwizper").as_str(), "whisper").as_str(),
        "models",
    );
    let mut out: Vec<String> = Vec::new();
    if str_eq(model, "base") || str_eq(model, "base.en") {
        out.push(join_path(dir.as_str(), "ggml-base.en-q5_0.bin"));
        out.push(join_path(dir.as_str(), "ggml-base.en.bin"));
        out.push(join_path(dir.as_str(), "ggml-base.bin"));
    } else {
        let mut name = "ggml-".to_owned();
        name.append(model);
        name.append(".bin");
        out.push(join_path(dir.as_str(), name.as_str()));
    }
    assert(views(out@) =~= candidates(model@, data_dir@));
    out
}

/// The first candidate that is there, or the best one where none is.
pub open spec fn chosen(options: Seq<Seq<char>>, present: Seq<bool>) -> Seq<char>
    recommends
        options.len() > 0,
{
    options[first_present(options.len(), present)]
}

/// The first of `n` places that is present, or zero.
pub open spec fn first_present(n: nat, present: Seq<bool>) -> int {
    if exists|i: int| 0 <= i < n && i < present.len() && #[trigger] present[i] {
        choose|i: int|
            0 <= i < n && i < present.len() && #[trigger] present[i] && forall|j: int|
                0 <= j < i ==> !#[trigger] present[j]
    } else {
        0
    }
}

/// Where the model lies: the path that is set, else the first candidate below the data directory
/// that is there, else the best one. `present` says of each candidate whether it is there.
pub fn resolve_model_path(
    model: &str,
    model_path: Option<String>,
    data_dir: Option<&str>,
    present: &Vec<bool>,
) -> (r: Result<String, ProviderError>)
    ensures
        match (model_path, data_dir) {
            (Some(path), _) => r == Ok::<String, ProviderError>(path),
            (None, None) => r matches Err(error) && error.message@
                == "failed to determine data directory"@,
            (None, Some(dir)) => r matches Ok(path) && path@ == chosen(
                candidates(model@, dir@),
                present@,
            ),
        },
{
    if let Some(path) = model_path {
        return Ok(path);
    }
    match data_dir {
        None => Err(ProviderError::new("failed to determine data directory")),
        Some(dir) => {
            let options = model_candidates(model, dir);
            assert(options@.len() == candidates(model@, dir@).len());
            let mut i: usize = 0;
            while i < options.len() && i < present.len() && !present[i]
                invariant
                    i <= options.len(),
                    i <= present.len(),
                    forall|j: int| 0 <= j < i ==> !#[trigger] present@[j],
                decreases options.len() - i,
            {
                i += 1;
            }
            let at: usize = if i < options.len() && i < present.len() {
                i
            } else {
                0
            };
            proof {
                let n = options@.len();
                if i < options.len() && i < present.len() {
                    assert(present@[i as int]);
                    let k = first_present(n, present@);
                    assert(0 <= k < n && k < present@.len() && present@[k]);
                    assert(!(k < i));
                    assert(!(i < k));
                } else {
                    assert(!exists|j: int| 0 <= j < n && j < present@.len() && #[trigger] present@[j]);
                }
            }
            assert(options@[at as int]@ == views(options@)[at as int]);
            Ok(options[at].clone())
        },
    }
}

/// What is to be done to have the model in memory.
#[derive(Debug, PartialEq, Eq)]
pub enum LoadStep {
    /// It is there.
    Ready,
    /// It is to be loaded.
    Load,
}

impl WhisperRsProvider {
    /// A model that is in memory was used, and is neither being loaded nor given up.
    pub open spec fn wf(&self) -> bool {
        self.loaded ==> self.state.status == WhisperRsModelStatus::Warm
    }

    pub fn new(
        model: &str,
        model_path: Option<String>,
        options: WhisperRsOptions,
        data_dir: Option<&str>,
        present: &Vec<bool>,
    ) -> (r: Result<Self, ProviderError>)
        ensures
            (r is Err) == (model_path is None && data_dir is None),
            r matches Err(error) ==> error.message@ == "failed to determine data directory"@,
            r matches Ok(provider) ==> {
                &&& match (model_path, data_dir) {
                    (Some(path), _) => provider.model_path == path,
                    (None, Some(dir)) => provider.model_path@ == chosen(
                        candidates(model@, dir@),
                        present@,
                    ),
                    (None, None) => false,
                }
                &&& provider.options == options
                &&& provider.state == (WarmModelState {
                    status: WhisperRsModelStatus::Cold,
                    keep_warm_for_secs: options.keep_warm_for_secs,
                    last_used_at: None,
                    error: None,
                })
                &&& !provider.loaded
                &&& provider.wf()
            },
    {
        match resolve_model_path(model, model_path, data_dir, present) {
            Err(error) => Err(error),
            Ok(path) => {
                let keep = options.keep_warm_for_secs;
                Ok(
                    WhisperRsProvider {
                        model_path: path,
                        options,
                        state: WarmModelState::new(keep),
                        loaded: false,
                    },
                )
            },
        }
    }

    /// The provider at a moment: a model that was kept too long without use is given up.
    pub open spec fn at(self, now: u128) -> Self {
        if self.loaded && idle_expired(self.state, now) {
            WhisperRsProvider {
                loaded: false,
                state: given_up(self.state, UnloadReason::IdleTimer),
                ..self
            }
        } else {
            self
        }
    }

    /// Gives the model up if it was kept too long without use.
    pub fn unload_if_idle_expired(&mut self, now: u128)
        ensures
            *final(self) == old(self).at(now),
            old(self).wf() ==> final(self).wf(),
    {
        if self.loaded && self.state.should_idle_unload(now) {
            self.loaded = false;
            self.state.mark_unloaded(UnloadReason::IdleTimer);
        }
    }

    /// The first half of having the model in memory: unless it is there, it is to be loaded.
    pub fn ensure_loaded(&mut self, now: u128) -> (r: LoadStep)
        ensures
            ({
                let aged = old(self).at(now);
                &&& r is Ready == aged.loaded
                &&& *final(self) == (if aged.loaded {
                    aged
                } else {
                    WhisperRsProvider { state: loading(aged.state), ..aged }
                })
            }),
            old(self).wf() ==> final(self).wf(),
    {
        self.unload_if_idle_expired(now);
        if self.loaded {
            return LoadStep::Ready;
        }
        self.state.mark_loading();
        LoadStep::Load
    }

    /// The second half: the model was loaded, or could not be.
    pub fn finish_load(&mut self, result: Result<(), String>, now: u128) -> (r: Result<(), String>)
        ensures
            match result {
                Ok(_) => r is Ok && *final(self) == (WhisperRsProvider {
                    loaded: true,
                    state: warm(old(self).state, now),
                    ..*old(self)
                }),
                Err(error) => r == Err::<(), String>(error) && *final(self) == (
                WhisperRsProvider {
                    loaded: false,
                    state: failed(old(self).state, error),
                    ..*old(self)
                }),
            },
            final(self).wf(),
    {
        match result {
            Ok(_) => {
                self.loaded = true;
                self.state.mark_warm_at(now);
                Ok(())
            },
            Err(error) => {
                self.loaded = false;
                self.state.mark_error(error.clone());
                Err(error)
            },
        }
    }

    /// What an inference on a recording is run with.
    pub fn full_params(&self, language: &str, sample_count: usize) -> (r: InferenceParams)
        ensures
            r.sampling == sampling_for(self.options),
            r.language@ == language@,
            r.threads == (match self.options.threads {
                Some(threads) => Some(count_of(threads)),
                None => None::<i32>,
            }),
            r.no_fallback == (self.options.no_fallback == Some(true)),
            r.initial_prompt == self.options.initial_prompt,
            r.audio_ctx == context_held(
                context_used(self.options.audio_ctx, sample_count as int),
            ),
    {
        let sampling = match self.options.beam_size {
            Some(beam_size) => Sampling::BeamSearch { beam_size: positive_count(beam_size) },
            None => Sampling::Greedy {
                best_of: match self.options.best_of {
                    Some(best_of) => positive_count(best_of),
                    None => 1,
                },
            },
        };
        let threads: Option<i32> = match self.options.threads {
            Some(threads) => Some(positive_count(threads)),
            None => None,
        };
        let no_fallback = match self.options.no_fallback {
            Some(no_fallback) => no_fallback,
            None => false,
        };
        let initial_prompt = match &self.options.initial_prompt {
            Some(prompt) => Some(prompt.clone()),
            None => None,
        };
        let context: u32 = self.options.audio_ctx.context(sample_count);
        InferenceParams {
            sampling,
            language: language.to_owned(),
            threads,
            no_fallback,
            initial_prompt,
            audio_ctx: if context <= 0x7fff_ffff {
                context as i32
            } else {
                i32::MAX
            },
        }
    }

    /// The end of an inference: the texts of its segments make up the text, and the model counts as
    /// used. There is none where the model is not in memory.
    pub fn finish_inference(
        &mut self,
        result: Result<Vec<String>, String>,
        now: u128,
    ) -> (r: Result<String, String>)
        ensures
            match result {
                _ if !old(self).loaded => r matches Err(error) && error@
                    == "whisper-rs state is not available"@ && *final(self) == *old(self),
                Ok(segments) => r matches Ok(text) && text@ == trimmed(
                    joined(views(segments@), Seq::empty()),
                ) && *final(self) == (WhisperRsProvider {
                    state: warm(old(self).state, now),
                    ..*old(self)
                }),
                Err(error) => r == Err::<String, String>(error) && *final(self) == *old(self),
            },
            old(self).wf() ==> final(self).wf(),
    {
        if !self.loaded {
            return Err("whisper-rs state is not available".to_owned());
        }
        match result {
            Err(error) => Err(error),
            Ok(segments) => {
                proof {
                    reveal_strlit("");
                    assert(""@ =~= Seq::<char>::empty());
                    assert(views(segments@).skip(0) =~= views(segments@));
                }
                let text = crate::text::join_from(&segments, 0, "");
                self.state.mark_warm_at(now);
                Ok(trim(text.as_str()).to_owned())
            },
        }
    }
}

impl TranscriptionProvider for WhisperRsProvider {
    open spec fn title(&self) -> Seq<char> {
        "whisper-rs"@
    }

    open spec fn needs_path(&self) -> Option<Place> {
        Some(Place::Text(self.model_path@))
    }

    open spec fn chunks(&self) -> bool {
        true
    }

    open spec fn aged(&self, now: u128) -> Self {
        self.at(now)
    }

    open spec fn status(&self) -> Option<ModelStatus> {
        Some(
            ModelStatus {
                provider: "whisper-rs"@,
                state: self.state.status.label(),
                error: match self.state.error {
                    Some(error) => Some(error@),
                    None => None,
                },
            },
        )
    }

    open spec fn unloaded(&self) -> Self {
        WhisperRsProvider {
            loaded: false,
            state: given_up(self.state, UnloadReason::Manual),
            ..*self
        }
    }

    open spec fn completed(&self) -> Self {
        if self.options.keep_warm_for_secs == Some(0u64) {
            self.unloaded()
        } else {
            *self
        }
    }

    open spec fn preparing(&self, now: u128) -> (Self, Option<Seq<char>>) {
        let aged = self.at(now);
        if aged.loaded {
            (aged, None)
        } else {
            (
                WhisperRsProvider { state: loading(aged.state), ..aged },
                Some(self.model_path@),
            )
        }
    }

    open spec fn prepared(&self, result: Result<(), String>, now: u128) -> Self {
        match result {
            Ok(_) => WhisperRsProvider { loaded: true, state: warm(self.state, now), ..*self },
            Err(error) => WhisperRsProvider {
                loaded: false,
                state: failed(self.state, error),
                ..*self
            },
        }
    }

    fn name(&self) -> (r: &'static str) {
        "whisper-rs"
    }

    fn required_path(&self) -> (r: Option<PlacePath<'_>>) {
        Some(PlacePath::Text(self.model_path.as_str()))
    }

    fn supports_chunking(&self) -> (r: bool) {
        true
    }

    fn model_status(&mut self, now: u128) -> (r: Option<ModelStatusSnapshot>) {
        self.unload_if_idle_expired(now);
        let error = match &self.state.error {
            Some(error) => Some(error.clone()),
            None => None,
        };
        Some(
            ModelStatusSnapshot {
                provider: "whisper-rs",
                state: self.state.status().as_str(),
                error,
            },
        )
    }

    fn unload_model(&mut self) -> (r: Result<(), ProviderError>) {
        self.loaded = false;
        self.state.mark_unloaded(UnloadReason::Manual);
        Ok(())
    }

    fn recording_complete(&mut self) -> (r: Result<(), ProviderError>) {
        if let Some(secs) = self.options.keep_warm_for_secs {
            if secs == 0 {
                return self.unload_model();
            }
        }
        Ok(())
    }

    fn prepare(&mut self, now: u128) -> (r: Option<String>) {
        match self.ensure_loaded(now) {
            LoadStep::Ready => None,
            LoadStep::Load => Some(self.model_path.clone()),
        }
    }

    fn finish_prepare(&mut self, result: Result<(), String>, now: u128) {
        let _ = self.finish_load(result, now);
    }
}

/// How the samples of an audio file are coded.
#[derive(Clone, Copy, Debug, PartialEq, Eq, Structural)]
pub enum SampleFormat {
    Float,
    Int,
}

/// How the samples of an audio file are read.
#[derive(Clone, Copy, Debug, PartialEq, Eq, Structural)]
pub enum WavReading {
    Float32,
    Int16,
}

/// Why an audio file cannot be read.
#[derive(Clone, Copy, Debug, PartialEq, Eq, Structural)]
pub enum WavError {
    Channels { channels: u16 },
    SampleRate { sample_rate: u32 },
    Format { format: SampleFormat, bits: u16 },
}

impl SampleFormat {
    pub open spec fn label(self) -> Seq<char> {
        match self {
            SampleFormat::Float => "Float"@,
            SampleFormat::Int => "Int"@,
        }
    }

    pub fn as_str(self) -> (r: &'static str)
        ensures
            r@ == self.label(),
    {
        match self {
            SampleFormat::Float => "Float",
            SampleFormat::Int => "Int",
        }
    }
}

impl WavError {
    pub open spec fn text(self) -> Seq<char> {
        match self {
            WavError::Channels { channels } => "whisper-rs provider expects mono WAV, got "@
                + decimal(channels as nat) + " channels"@,
            WavError::SampleRate { sample_rate } => "whisper-rs provider expects 16 kHz WAV, got "@
                + decimal(sample_rate as nat) + " Hz"@,
            WavError::Format { format, bits } => "unsupported WAV format for whisper-rs: "@
                + format.label() + " "@ + decimal(bits as nat) + " bits"@,
        }
    }

    pub fn message(self) -> (r: String)
        ensures
            r@ == self.text(),
    {
        match self {
            WavError::Channels { channels } => {
                let mut out = "whisper-rs provider expects mono WAV, got ".to_owned();
                out.append(decimal_string(channels as u64).as_str());
                out.append(" channels");
                out
            },
            WavError::SampleRate { sample_rate } => {
                let mut out = "whisper-rs provider expects 16 kHz WAV, got ".to_owned();
                out.append(decimal_string(sample_rate as u64).as_str());
                out.append(" Hz");
                out
            },
            WavError::Format { format, bits } => {
                let mut out = "unsupported WAV format for whisper-rs: ".to_owned();
                out.append(format.as_str());
                out.append(" ");
                out.append(decimal_string(bits as u64).as_str());
                out.append(" bits");
                out
            },
        }
    }
}

/// How the samples of an audio file are read: it has to be mono, at 16 kHz, with samples of 32-bit
/// floats or 16-bit integers.
pub fn wav_reading(channels: u16, sample_rate: u32, format: SampleFormat, bits: u16) -> (r: Result<
    WavReading,
    WavError,
>)
    ensures
        r == (if channels != 1 {
            Err::<WavReading, WavError>(WavError::Channels { channels })
        } else if sample_rate != 16_000 {
            Err::<WavReading, WavError>(WavError::SampleRate { sample_rate })
        } else if format == SampleFormat::Float && bits == 32 {
            Ok(WavReading::Float32)
        } else if format == SampleFormat::Int && bits == 16 {
            Ok(WavReading::Int16)
        } else {
            Err::<WavReading, WavError>(WavError::Format { format, bits })
        }),
{
    if channels != 1 {
        return Err(WavError::Channels { channels });
    }
    if sample_rate != 16_000 {
        return Err(WavError::SampleRate { sample_rate });
    }
    match (format, bits) {
        (SampleFormat::Float, 32) => Ok(WavReading::Float32),
        (SampleFormat::Int, 16) => Ok(WavReading::Int16),
        _ => Err(WavError::Format { format, bits }),
    }
}

/// Law: a model that is kept for no time is given up as soon as a recording is complete, and one
/// that is kept for longer, or without a limit, is not touched by that.
pub proof fn law_completion_releases_a_cold_model(p: WhisperRsProvider)
    ensures
        p.options.keep_warm_for_secs == Some(0u64) ==> !p.completed().loaded
            && p.completed().state.status == WhisperRsModelStatus::Cold,
        p.options.keep_warm_for_secs != Some(0u64) ==> p.completed() == p,
{
}

/// Law: a model is given up after the time for which it is kept, and not before. It is in memory
/// and warm up to then.
pub proof fn law_a_warm_model_lives_for_its_time(p: WhisperRsProvider, used: u128, now: u128, secs: u64)
    requires
        p.loaded,
        p.state.keep_warm_for_secs == Some(secs),
        secs > 0,
        p.state == warm(p.state, used),
    ensures
        p.at(now).loaded <==> now - used < secs * 1_000_000_000,
        !p.at(now).loaded ==> p.at(now).state.status == WhisperRsModelStatus::IdleUnloaded,
{
}

/// Law: the timer never gives up a model that is kept for no time or without a limit.
pub proof fn law_the_timer_can_be_off(p: WhisperRsProvider, now: u128)
    requires
        p.state.keep_warm_for_secs is None || p.state.keep_warm_for_secs == Some(0u64),
    ensures
        p.at(now) == p,
{
}

/// Law: an error is told until the next attempt to load the model.
pub proof fn law_an_error_is_told_until_the_next_load(
    p: WhisperRsProvider,
    error: String,
    then: u128,
    now: u128,
)
    ensures
        p.prepared(Err(error), then).at(now).status() == Some(
            ModelStatus { provider: "whisper-rs"@, state: "error"@, error: Some(error@) },
        ),
        ({
            let (next, path) = p.prepared(Err(error), then).preparing(now);
            path == Some(p.model_path@) && next.status() == Some(
                ModelStatus { provider: "whisper-rs"@, state: "loading"@, error: None },
            )
        }),
{
}

/// Law: a model is loaded once and then ready. One that is not in memory has to be loaded from its
/// file; once it is loaded it is warm and needs no further load until it is given up; a load that
/// failed leaves none in memory.
pub proof fn law_a_model_is_loaded_once(
    p: WhisperRsProvider,
    now: u128,
    later: u128,
    error: String,
)
    ensures
        !p.loaded ==> p.preparing(now).1 == Some(p.model_path@)
            && p.preparing(now).0.state.status == WhisperRsModelStatus::Loading
            && !p.preparing(now).0.loaded,
        ({
            let ready = p.prepared(Ok(()), now);
            &&& ready.loaded && ready.state.status == WhisperRsModelStatus::Warm
            &&& ready.state.last_used_at == Some(now) && ready.state.error is None
            &&& ready.at(later).loaded ==> ready.preparing(later) == (ready, None::<Seq<char>>)
            &&& !ready.at(later).loaded ==> ready.preparing(later).1 == Some(p.model_path@)
        }),
        ({
            let broken = p.prepared(Err(error), now);
            !broken.loaded && broken.state.status == WhisperRsModelStatus::Error
                && broken.state.error == Some(error)
        }),
        !p.unloaded().loaded && p.unloaded().state.status == WhisperRsModelStatus::Cold
            && p.unloaded().state.error is None,
{
}

/// Law: neither loading, using nor giving up its model changes where a provider's model lies, how it
/// is run, and how long it is kept.
pub proof fn law_a_model_keeps_its_settings(
    p: WhisperRsProvider,
    now: u128,
    result: Result<(), String>,
)
    ensures
        ({
            let (asked, _) = p.preparing(now);
            let answered = p.prepared(result, now);
            &&& asked.model_path == p.model_path && asked.options == p.options
            &&& answered.model_path == p.model_path && answered.options == p.options
            &&& p.unloaded().model_path == p.model_path && p.unloaded().options == p.options
            &&& p.completed().model_path == p.model_path && p.completed().options == p.options
            &&& asked.state.keep_warm_for_secs == p.state.keep_warm_for_secs
            &&& answered.state.keep_warm_for_secs == p.state.keep_warm_for_secs
            &&& p.unloaded().state.keep_warm_for_secs == p.state.keep_warm_for_secs
        }),
{
}

/// Law: the file that a model is read from is the first of its candidates that is there, and the
/// first of all where none is.
pub proof fn law_the_first_file_that_is_there_is_read(
    options: Seq<Seq<char>>,
    present: Seq<bool>,
    i: int,
)
    requires
        options.len() > 0,
        present.len() >= options.len(),
    ensures
        0 <= i < options.len() && present[i] && (forall|j: int|
            0 <= j < i ==> !#[trigger] present[j]) ==> chosen(options, present) == options[i],
        (forall|j: int| 0 <= j < options.len() ==> !#[trigger] present[j]) ==> chosen(
            options,
            present,
        ) == options[0],
{
    if 0 <= i < options.len() && present[i] && (forall|j: int| 0 <= j < i ==> !#[trigger] present[j]) {
        let n = options.len();
        let k = choose|k: int|
            0 <= k < n && k < present.len() && #[trigger] present[k] && forall|j: int|
                0 <= j < k ==> !#[trigger] present[j];
        assert(present[i]);
        assert(present[k]);
        assert(k == i);
    }
}

/// Law: every model lies below the directory of the models. The base model in English may lie in
/// three files, of which the smaller one comes first; any other model lies in the one that bears its
/// name.
pub proof fn law_where_models_lie(model: Seq<char>, data_dir: Seq<char>)
    ensures
        ({
            let dir = joined_path(
                joined_path(joined_path(data_dir, "chezwizper"@), "whisper"@),
                "models"@,
            );
            let files = candidates(model, data_dir);
            if model == "base"@ || model == "base.en"@ {
                &&& files.len() == 3
                &&& files[0] == joined_path(dir, "ggml-base.en-q5_0.bin"@)
                &&& files[1] == joined_path(dir, "ggml-base.en.bin"@)
                &&& files[2] == joined_path(dir, "ggml-base.bin"@)
            } else {
                &&& files.len() == 1
                &&& files[0] == joined_path(dir, "ggml-"@ + model + ".bin"@)
            }
        }),
{
}

/// Law: a count is handed on as it is, but never as less than one; tokens are picked by a beam just
/// where its size is set.
pub proof fn law_counts_are_at_least_one(value: u32, options: WhisperRsOptions)
    ensures
        1 <= value <= 0x7fff_ffff ==> count_of(value) == value,
        value == 0 ==> count_of(value) == 1,
        options.beam_size == Some(value) ==> sampling_for(options) == (Sampling::BeamSearch {
            beam_size: count_of(value),
        }),
        options.beam_size is None && options.best_of == Some(value) ==> sampling_for(options) == (
        Sampling::Greedy { best_of: count_of(value) }),
        options.beam_size is None && options.best_of is None ==> sampling_for(options) == (
        Sampling::Greedy { best_of: 1 }),
{
}

/// Law: a context that fits into 32 bits with a sign is held as it is.
pub proof fn law_a_context_is_held(context: int)
    requires
        0 <= context,
    ensures
        context <= 0x7fff_ffff ==> context_held(context) == context,
        context > 0x7fff_ffff ==> context_held(context) == 0x7fff_ffff,
{
}

/// Law: what is told of an audio file that cannot be read.
pub proof fn law_unreadable_audio_is_told(channels: u16, rate: u32, format: SampleFormat, bits: u16)
    ensures
        (WavError::Channels { channels }).text() == "whisper-rs provider expects mono WAV, got "@
            + decimal(channels as nat) + " channels"@,
        (WavError::SampleRate { sample_rate: rate }).text()
            == "whisper-rs provider expects 16 kHz WAV, got "@ + decimal(rate as nat) + " Hz"@,
        (WavError::Format { format, bits }).text() == "unsupported WAV format for whisper-rs: "@ + (
        if format == SampleFormat::Float {
            "Float"@
        } else {
            "Int"@
        }) + " "@ + decimal(bits as nat) + " bits"@,
{
}

/// Law: the names of the states of a model, and of the reasons why one was given up.
pub proof fn law_the_states_of_a_model(status: WhisperRsModelStatus, reason: UnloadReason)
    ensures
        status == WhisperRsModelStatus::Cold ==> status.label() == "cold"@,
        status == WhisperRsModelStatus::Loading ==> status.label() == "loading"@,
        status == WhisperRsModelStatus::Warm ==> status.label() == "warm"@,
        status == WhisperRsModelStatus::IdleUnloaded ==> status.label() == "idle-unloaded"@,
        status == WhisperRsModelStatus::Error ==> status.label() == "error"@,
        reason == UnloadReason::Manual ==> reason.label() == "manual"@,
        reason == UnloadReason::IdleTimer ==> reason.label() == "idle_timer"@,
{
}

} // verus!
