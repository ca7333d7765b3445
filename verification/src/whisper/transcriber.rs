//! How a provider is chosen and set up, and what its user asks of it.

use super::audio_ctx::AudioCtxConfig;
use super::provider::{ModelStatus, ModelStatusSnapshot, ProviderError, TranscriptionProvider};
use super::providers::openai_api::OpenAIProvider;
use super::providers::openai_cli::{is_openai_help, OpenAIWhisperCliProvider};
use super::providers::whisper_cpp::{WhisperCppOptions, WhisperCppProvider};
use super::providers::whisper_rs::{
    candidates, chosen, WarmModelState, WhisperRsModelStatus, WhisperRsOptions, WhisperRsProvider,
};
use crate::commands::{Place, PlacePath, Program};
use crate::config::WhisperConfig;
use crate::text::{copied, opt_view, str_eq, str_view};
use vstd::prelude::*;

verus! {

pub struct ProviderConfig {
    pub model: Option<String>,
    pub model_path: Option<String>,
    pub language: Option<String>,
    pub command_path: Option<String>,
    pub api_endpoint: Option<String>,
    pub api_key: Option<String>,
    pub threads: Option<u32>,
    pub beam_size: Option<u32>,
    pub best_of: Option<u32>,
    pub no_fallback: Option<bool>,
    pub timeout_secs: Option<u64>,
    pub keep_warm_for_secs: Option<u64>,
    pub initial_prompt: Option<String>,
    pub coding_vocabulary: Option<String>,
    pub audio_ctx: AudioCtxConfig,
}

impl ProviderConfig {
    pub open spec fn is_default(self) -> bool {
        &&& self.model is None
        &&& self.model_path is None
        &&& self.language matches Some(language) && language@ == "en"@
        &&& self.command_path is None
        &&& self.api_endpoint is None
        &&& self.api_key is None
        &&& self.threads is None
        &&& self.beam_size is None
        &&& self.best_of is None
        &&& self.no_fallback is None
        &&& self.timeout_secs is None
        &&& self.keep_warm_for_secs == Some(0u64)
        &&& self.initial_prompt is None
        &&& self.coding_vocabulary is None
        &&& self.audio_ctx == AudioCtxConfig::Auto
    }
}

impl Default for ProviderConfig {
    fn default() -> (r: Self)
        ensures
            r.is_default(),
    {
        ProviderConfig {
            model: None,
            model_path: None,
            language: Some("en".to_owned()),
            command_path: None,
            api_endpoint: None,
            api_key: None,
            threads: None,
            beam_size: None,
            best_of: None,
            no_fallback: None,
            timeout_secs: None,
            keep_warm_for_secs: Some(0),
            initial_prompt: None,
            coding_vocabulary: None,
            audio_ctx: AudioCtxConfig::Auto,
        }
    }
}

/// The settings of a provider, taken from those of the daemon.
pub fn provider_config(config: &WhisperConfig) -> (r: ProviderConfig)
    ensures
        r == (ProviderConfig {
            model: Some(config.model),
            model_path: config.model_path,
            language: Some(config.language),
            command_path: config.command_path,
            api_endpoint: config.api_endpoint,
            api_key: config.api_key,
            threads: config.threads,
            beam_size: config.beam_size,
            best_of: config.best_of,
            no_fallback: config.no_fallback,
            timeout_secs: config.timeout_secs,
            keep_warm_for_secs: config.keep_warm_for_secs,
            initial_prompt: config.initial_prompt,
            coding_vocabulary: config.coding_vocabulary,
            audio_ctx: config.audio_ctx,
        }),
{
    ProviderConfig {
        model: Some(config.model.clone()),
        model_path: copied(&config.model_path),
        language: Some(config.language.clone()),
        command_path: copied(&config.command_path),
        api_endpoint: copied(&config.api_endpoint),
        api_key: copied(&config.api_key),
        threads: config.threads,
        beam_size: config.beam_size,
        best_of: config.best_of,
        no_fallback: config.no_fallback,
        timeout_secs: config.timeout_secs,
        keep_warm_for_secs: config.keep_warm_for_secs,
        initial_prompt: copied(&config.initial_prompt),
        coding_vocabulary: copied(&config.coding_vocabulary),
        audio_ctx: config.audio_ctx,
    }
}

/// The model is loaded when the daemon starts, unless it is not kept between recordings.
pub fn preloads(config: &WhisperConfig) -> (r: bool)
    ensures
        r == (config.keep_warm_for_secs != Some(0u64)),
{
    match config.keep_warm_for_secs {
        Some(secs) => secs != 0,
        None => true,
    }
}

/// The prompt that a model starts with: the prompt that is set and the vocabulary, a line each.
pub open spec fn combined_prompt(
    initial_prompt: Option<Seq<char>>,
    coding_vocabulary: Option<Seq<char>>,
) -> Option<Seq<char>> {
    match (initial_prompt, coding_vocabulary) {
        (Some(prompt), Some(vocabulary)) => Some(prompt + seq!['\n'] + vocabulary),
        (Some(prompt), None) => Some(prompt),
        (None, Some(vocabulary)) => Some(vocabulary),
        (None, None) => None,
    }
}

/// The prompt that a model starts with: the prompt that is set and the vocabulary, a line each.
pub fn combined_initial_prompt(
    initial_prompt: Option<&str>,
    coding_vocabulary: Option<&str>,
) -> (r: Option<String>)
    ensures
        opt_view(r) == combined_prompt(str_view(initial_prompt), str_view(coding_vocabulary)),
{
    match (initial_prompt, coding_vocabulary) {
        (Some(prompt), Some(vocabulary)) => {
            let mut out = prompt.to_owned();
            out.push('\n');
            assert(out@ == prompt@ + seq!['\n']);
            out.append(vocabulary);
            Some(out)
        },
        (Some(prompt), None) => Some(prompt.to_owned()),
        (None, Some(vocabulary)) => Some(vocabulary.to_owned()),
        (None, None) => None,
    }
}

fn as_text(s: &Option<String>) -> (r: Option<&str>)
    ensures
        str_view(r) == opt_view(*s),
{
    match s {
        Some(s) => Some(s.as_str()),
        None => None,
    }
}

impl ProviderConfig {
    /// The options of the whisper.cpp program.
    pub open spec fn cpp_options(self) -> WhisperCppOptions {
        WhisperCppOptions {
            threads: self.threads,
            beam_size: self.beam_size,
            best_of: self.best_of,
            no_fallback: self.no_fallback,
            timeout_secs: self.timeout_secs,
        }
    }

    pub fn whisper_cpp_options(&self) -> (r: WhisperCppOptions)
        ensures
            r == self.cpp_options(),
    {
        WhisperCppOptions {
            threads: self.threads,
            beam_size: self.beam_size,
            best_of: self.best_of,
            no_fallback: self.no_fallback,
            timeout_secs: self.timeout_secs,
        }
    }

    /// The options are those of the in-process provider.
    pub open spec fn gives_rs_options(self, options: WhisperRsOptions) -> bool {
        &&& options.threads == self.threads
        &&& options.beam_size == self.beam_size
        &&& options.best_of == self.best_of
        &&& options.no_fallback == self.no_fallback
        &&& options.keep_warm_for_secs == self.keep_warm_for_secs
        &&& opt_view(options.initial_prompt) == combined_prompt(
            opt_view(self.initial_prompt),
            opt_view(self.coding_vocabulary),
        )
        &&& options.audio_ctx == self.audio_ctx
    }

    pub fn whisper_rs_options(&self) -> (r: WhisperRsOptions)
        ensures
            self.gives_rs_options(r),
    {
        WhisperRsOptions {
            threads: self.threads,
            beam_size: self.beam_size,
            best_of: self.best_of,
            no_fallback: self.no_fallback,
            keep_warm_for_secs: self.keep_warm_for_secs,
            initial_prompt: combined_initial_prompt(
                as_text(&self.initial_prompt),
                as_text(&self.coding_vocabulary),
            ),
            audio_ctx: self.audio_ctx,
        }
    }
}

/// One of the providers.
pub enum AnyProvider {
    OpenAIApi(OpenAIProvider),
    OpenAICli(OpenAIWhisperCliProvider),
    WhisperCpp(WhisperCppProvider),
    WhisperRs(WhisperRsProvider),
}

impl TranscriptionProvider for AnyProvider {
    open spec fn title(&self) -> Seq<char> {
        match self {
            AnyProvider::OpenAIApi(p) => p.title(),
            AnyProvider::OpenAICli(p) => p.title(),
            AnyProvider::WhisperCpp(p) => p.title(),
            AnyProvider::WhisperRs(p) => p.title(),
        }
    }

    open spec fn needs_path(&self) -> Option<Place> {
        match self {
            AnyProvider::OpenAIApi(p) => p.needs_path(),
            AnyProvider::OpenAICli(p) => p.needs_path(),
            AnyProvider::WhisperCpp(p) => p.needs_path(),
            AnyProvider::WhisperRs(p) => p.needs_path(),
        }
    }

    open spec fn chunks(&self) -> bool {
        self is WhisperRs
    }

    open spec fn aged(&self, now: u128) -> Self {
        match self {
            AnyProvider::WhisperRs(p) => AnyProvider::WhisperRs(p.aged(now)),
            _ => *self,
        }
    }

    open spec fn status(&self) -> Option<ModelStatus> {
        match self {
            AnyProvider::WhisperRs(p) => p.status(),
            _ => None,
        }
    }

    open spec fn unloaded(&self) -> Self {
        match self {
            AnyProvider::WhisperRs(p) => AnyProvider::WhisperRs(p.unloaded()),
            other => *other,
        }
    }

    open spec fn completed(&self) -> Self {
        match self {
            AnyProvider::WhisperRs(p) => AnyProvider::WhisperRs(p.completed()),
            _ => *self,
        }
    }

    open spec fn preparing(&self, now: u128) -> (Self, Option<Seq<char>>) {
        match self {
            AnyProvider::WhisperRs(p) => (
                AnyProvider::WhisperRs(p.preparing(now).0),
                p.preparing(now).1,
            ),
            _ => (*self, None),
        }
    }

    open spec fn prepared(&self, result: Result<(), String>, now: u128) -> Self {
        match self {
            AnyProvider::WhisperRs(p) => AnyProvider::WhisperRs(p.prepared(result, now)),
            _ => *self,
        }
    }

    fn name(&self) -> (r: &'static str) {
        match self {
            AnyProvider::OpenAIApi(p) => p.name(),
            AnyProvider::OpenAICli(p) => p.name(),
            AnyProvider::WhisperCpp(p) => p.name(),
            AnyProvider::WhisperRs(p) => p.name(),
        }
    }

    fn required_path(&self) -> (r: Option<PlacePath<'_>>) {
        match self {
            AnyProvider::OpenAIApi(p) => p.required_path(),
            AnyProvider::OpenAICli(p) => p.required_path(),
            AnyProvider::WhisperCpp(p) => p.required_path(),
            AnyProvider::WhisperRs(p) => p.required_path(),
        }
    }

    fn supports_chunking(&self) -> (r: bool) {
        match self {
            AnyProvider::OpenAIApi(p) => p.supports_chunking(),
            AnyProvider::OpenAICli(p) => p.supports_chunking(),
            AnyProvider::WhisperCpp(p) => p.supports_chunking(),
            AnyProvider::WhisperRs(p) => p.supports_chunking(),
        }
    }

    fn model_status(&mut self, now: u128) -> (r: Option<ModelStatusSnapshot>) {
        match self {
            AnyProvider::OpenAIApi(p) => p.model_status(now),
            AnyProvider::OpenAICli(p) => p.model_status(now),
            AnyProvider::WhisperCpp(p) => p.model_status(now),
            AnyProvider::WhisperRs(p) => p.model_status(now),
        }
    }

    fn unload_model(&mut self) -> (r: Result<(), ProviderError>) {
        match self {
            AnyProvider::OpenAIApi(p) => p.unload_model(),
            AnyProvider::OpenAICli(p) => p.unload_model(),
            AnyProvider::WhisperCpp(p) => p.unload_model(),
            AnyProvider::WhisperRs(p) => p.unload_model(),
        }
    }

    fn recording_complete(&mut self) -> (r: Result<(), ProviderError>) {
        match self {
            AnyProvider::OpenAIApi(p) => p.recording_complete(),
            AnyProvider::OpenAICli(p) => p.recording_complete(),
            AnyProvider::WhisperCpp(p) => p.recording_complete(),
            AnyProvider::WhisperRs(p) => p.recording_complete(),
        }
    }

    fn prepare(&mut self, now: u128) -> (r: Option<String>) {
        match self {
            AnyProvider::OpenAIApi(p) => p.prepare(now),
            AnyProvider::OpenAICli(p) => p.prepare(now),
            AnyProvider::WhisperCpp(p) => p.prepare(now),
            AnyProvider::WhisperRs(p) => p.prepare(now),
        }
    }

    fn finish_prepare(&mut self, result: Result<(), String>, now: u128) {
        match self {
            AnyProvider::OpenAIApi(p) => p.finish_prepare(result, now),
            AnyProvider::OpenAICli(p) => p.finish_prepare(result, now),
            AnyProvider::WhisperCpp(p) => p.finish_prepare(result, now),
            AnyProvider::WhisperRs(p) => p.finish_prepare(result, now),
        }
    }
}

/// What the machine has to offer, as far as providers need it.
pub struct Environment {
    /// OpenAI's program, as it was located.
    pub openai_command: Result<Program, ProviderError>,
    /// What that program says when it is asked for help.
    pub openai_help: Option<String>,
    /// That program is still there.
    pub openai_available: bool,
    /// whisper.cpp's program, as it was located.
    pub cpp_command: Result<Program, ProviderError>,
    /// That program is still there.
    pub cpp_available: bool,
    /// The directory for the user's data.
    pub data_dir: Option<String>,
    /// Of each file in which the model may lie, whether it is there.
    pub models_present: Vec<bool>,
}

/// The value that is set, or a default.
pub open spec fn or_default(value: Option<String>, default: Seq<char>) -> Seq<char> {
    match value {
        Some(value) => value@,
        None => default,
    }
}

fn set_or(value: &Option<String>, default: &str) -> (r: String)
    ensures
        r@ == or_default(*value, default@),
{
    match value {
        Some(value) => value.clone(),
        None => default.to_owned(),
    }
}

pub open spec fn none_available() -> Seq<char> {
    "No transcription provider available. Install whisper-cpp, openai-whisper, or configure OpenAI API with api_key"@
}

/// OpenAI's program is there and is OpenAI's.
pub open spec fn has_openai(env: Environment) -> bool {
    env.openai_command is Ok && is_openai_help(opt_view(env.openai_help))
}

/// The provider is OpenAI's program with this model.
pub open spec fn is_openai_cli(provider: AnyProvider, env: Environment, model: Seq<char>) -> bool {
    provider matches AnyProvider::OpenAICli(p) && env.openai_command == Ok::<Program, ProviderError>(
        p.command_path,
    ) && p.model@ == model
}

/// The provider is whisper.cpp's program, set up by the settings.
pub open spec fn is_whisper_cpp(
    provider: AnyProvider,
    env: Environment,
    config: ProviderConfig,
) -> bool {
    provider matches AnyProvider::WhisperCpp(p) && env.cpp_command == Ok::<Program, ProviderError>(
        p.command_path,
    ) && p.model@ == or_default(config.model, "base"@) && p.model_path == config.model_path
        && p.options == config.cpp_options()
}

/// The provider is the in-process one, set up by the settings, with its model not loaded.
pub open spec fn is_whisper_rs(
    provider: AnyProvider,
    env: Environment,
    config: ProviderConfig,
) -> bool {
    provider matches AnyProvider::WhisperRs(p) && config.gives_rs_options(p.options) && !p.loaded
        && p.state == (WarmModelState {
        status: WhisperRsModelStatus::Cold,
        keep_warm_for_secs: config.keep_warm_for_secs,
        last_used_at: None,
        error: None,
    }) && match (config.model_path, env.data_dir) {
        (Some(path), _) => p.model_path == path,
        (None, Some(dir)) => p.model_path@ == chosen(
            candidates(or_default(config.model, "base.en"@), dir@),
            env.models_present@,
        ),
        (None, None) => false,
    }
}

/// What detection comes to: OpenAI's program with its base model where it is there, else
/// whisper.cpp's where it is, else nothing.
pub open spec fn detects(
    config: ProviderConfig,
    env: Environment,
    r: Result<AnyProvider, ProviderError>,
) -> bool {
    if has_openai(env) && env.openai_available {
        r matches Ok(provider) && is_openai_cli(provider, env, "base"@)
    } else if env.cpp_command is Ok && env.cpp_available {
        r matches Ok(provider) && is_whisper_cpp(provider, env, config)
    } else {
        r matches Err(error) && error.message@ == none_available()
    }
}

/// What a provider name comes to.
pub open spec fn sets_up(
    name: Seq<char>,
    config: ProviderConfig,
    env: Environment,
    r: Result<AnyProvider, ProviderError>,
) -> bool {
    if name == "openai-api"@ {
        match config.api_key {
            Some(key) => r matches Ok(AnyProvider::OpenAIApi(p)) && p.api_key == key
                && p.api_endpoint == config.api_endpoint && p.model@ == or_default(
                config.model,
                "whisper-1"@,
            ),
            None => r matches Err(error) && error.message@
                == "api_key is required for OpenAI API provider"@,
        }
    } else if name == "openai-cli"@ {
        match env.openai_command {
            Err(error) => r == Err::<AnyProvider, ProviderError>(error),
            Ok(_) => if is_openai_help(opt_view(env.openai_help)) {
                r matches Ok(provider) && is_openai_cli(
                    provider,
                    env,
                    or_default(config.model, "base"@),
                )
            } else {
                r matches Err(error) && error.message@
                    == "Detected whisper CLI is not OpenAI Whisper"@
            },
        }
    } else if name == "whisper-cpp"@ {
        match env.cpp_command {
            Err(error) => r == Err::<AnyProvider, ProviderError>(error),
            Ok(_) => r matches Ok(provider) && is_whisper_cpp(provider, env, config),
        }
    } else if name == "whisper-rs"@ {
        if config.model_path is None && env.data_dir is None {
            r matches Err(error) && error.message@ == "failed to determine data directory"@
        } else {
            r matches Ok(provider) && is_whisper_rs(provider, env, config)
        }
    } else {
        detects(config, env, r)
    }
}

fn new_openai_cli(
    command: Result<Program, ProviderError>,
    help: &Option<String>,
    model: String,
) -> (r: Result<AnyProvider, ProviderError>)
    ensures
        match command {
            Err(error) => r == Err::<AnyProvider, ProviderError>(error),
            Ok(command_path) => if is_openai_help(opt_view(*help)) {
                r == Ok::<AnyProvider, ProviderError>(
                    AnyProvider::OpenAICli(OpenAIWhisperCliProvider { command_path, model }),
                )
            } else {
                r matches Err(error) && error.message@
                    == "Detected whisper CLI is not OpenAI Whisper"@
            },
        },
{
    match OpenAIWhisperCliProvider::new(command, as_text(help), model) {
        Ok(provider) => Ok(AnyProvider::OpenAICli(provider)),
        Err(error) => Err(error),
    }
}

fn new_whisper_cpp(
    config: ProviderConfig,
    command: Result<Program, ProviderError>,
) -> (r: Result<AnyProvider, ProviderError>)
    ensures
        match command {
            Err(error) => r == Err::<AnyProvider, ProviderError>(error),
            Ok(command_path) => r matches Ok(AnyProvider::WhisperCpp(p)) && p.command_path
                == command_path && p.model@ == or_default(config.model, "base"@) && p.model_path
                == config.model_path && p.options == config.cpp_options(),
        },
{
    let options = config.whisper_cpp_options();
    let model = set_or(&config.model, "base");
    match WhisperCppProvider::new(command, model, config.model_path, options) {
        Ok(provider) => Ok(AnyProvider::WhisperCpp(provider)),
        Err(error) => Err(error),
    }
}

/// Picks a provider by what the machine has to offer. Providers that need authentication are never
/// picked.
pub fn auto_detect_provider(config: ProviderConfig, env: Environment) -> (r: Result<
    AnyProvider,
    ProviderError,
>)
    ensures
        detects(config, env, r),
{
    let Environment {
        openai_command,
        openai_help,
        openai_available,
        cpp_command,
        cpp_available,
        data_dir: _,
        models_present: _,
    } = env;
    if let Ok(provider) = new_openai_cli(openai_command, &openai_help, "base".to_owned()) {
        if openai_available {
            return Ok(provider);
        }
    }
    if let Ok(provider) = new_whisper_cpp(config, cpp_command) {
        if cpp_available {
            return Ok(provider);
        }
    }
    Err(
        ProviderError::new(
            "No transcription provider available. Install whisper-cpp, openai-whisper, or configure OpenAI API with api_key",
        ),
    )
}

/// A provider and the language that it is asked for.
pub struct WhisperTranscriber<P: TranscriptionProvider> {
    pub provider: P,
    pub language: String,
}

impl WhisperTranscriber<AnyProvider> {
    /// A transcriber with the provider that the machine has to offer.
    pub fn auto_detect(config: ProviderConfig, env: Environment) -> (r: Result<
        Self,
        ProviderError,
    >)
        ensures
            match r {
                Ok(transcriber) => detects(
                    config,
                    env,
                    Ok::<AnyProvider, ProviderError>(transcriber.provider),
                ) && transcriber.language@ == or_default(config.language, "en"@),
                Err(error) => detects(config, env, Err::<AnyProvider, ProviderError>(error)),
            },
    {
        let language = set_or(&config.language, "en");
        match auto_detect_provider(config, env) {
            Ok(provider) => Ok(WhisperTranscriber { provider, language }),
            Err(error) => Err(error),
        }
    }

    /// A transcriber with the provider of this name; an unknown name leaves the choice to what the
    /// machine has to offer.
    pub fn with_provider(
        provider_name: &str,
        config: ProviderConfig,
        env: Environment,
    ) -> (r: Result<Self, ProviderError>)
        ensures
            match r {
                Ok(transcriber) => sets_up(
                    provider_name@,
                    config,
                    env,
                    Ok::<AnyProvider, ProviderError>(transcriber.provider),
                ) && transcriber.language@ == or_default(config.language, "en"@),
                Err(error) => sets_up(
                    provider_name@,
                    config,
                    env,
                    Err::<AnyProvider, ProviderError>(error),
                ),
            },
    {
        let language = set_or(&config.language, "en");
        let provider: Result<AnyProvider, ProviderError> = if str_eq(provider_name, "openai-api") {
            match config.api_key {
                None => Err(ProviderError::new("api_key is required for OpenAI API provider")),
                Some(api_key) => {
                    let model = set_or(&config.model, "whisper-1");
                    Ok(
                        AnyProvider::OpenAIApi(
                            OpenAIProvider::new(api_key, config.api_endpoint, model),
                        ),
                    )
                },
            }
        } else if str_eq(provider_name, "openai-cli") {
            let model = set_or(&config.model, "base");
            new_openai_cli(env.openai_command, &env.openai_help, model)
        } else if str_eq(provider_name, "whisper-cpp") {
            new_whisper_cpp(config, env.cpp_command)
        } else if str_eq(provider_name, "whisper-rs") {
            let options = config.whisper_rs_options();
            let model = set_or(&config.model, "base.en");
            match WhisperRsProvider::new(
                model.as_str(),
                config.model_path,
                options,
                as_text(&env.data_dir),
                &env.models_present,
            ) {
                Ok(provider) => Ok(AnyProvider::WhisperRs(provider)),
                Err(error) => Err(error),
            }
        } else {
            auto_detect_provider(config, env)
        };
        match provider {
            Ok(provider) => Ok(WhisperTranscriber { provider, language }),
            Err(error) => Err(error),
        }
    }
}

impl WhisperTranscriber<AnyProvider> {
    /// A transcriber with the provider of this name, or with the one that the machine has to offer
    /// where none is named.
    pub fn from_settings(name: Option<&str>, config: ProviderConfig, env: Environment) -> (r: Result<
        Self,
        ProviderError,
    >)
        ensures
            ({
                let provider = match r {
                    Ok(transcriber) => Ok::<AnyProvider, ProviderError>(transcriber.provider),
                    Err(error) => Err::<AnyProvider, ProviderError>(error),
                };
                match name {
                    Some(name) => sets_up(name@, config, env, provider),
                    None => detects(config, env, provider),
                }
            }),
            r matches Ok(transcriber) ==> transcriber.language@ == or_default(
                config.language,
                "en"@,
            ),
    {
        match name {
            Some(name) => WhisperTranscriber::with_provider(name, config, env),
            None => WhisperTranscriber::auto_detect(config, env),
        }
    }
}

impl<P: TranscriptionProvider> WhisperTranscriber<P> {
    pub fn from_provider(provider: P, language: &str) -> (r: Self)
        ensures
            r.provider == provider,
            r.language@ == language@,
    {
        WhisperTranscriber { provider, language: language.to_owned() }
    }

    pub fn supports_chunking(&self) -> (r: bool)
        ensures
            r == self.provider.chunks(),
    {
        self.provider.supports_chunking()
    }

    pub fn model_status(&mut self, now: u128) -> (r: Option<ModelStatusSnapshot>)
        ensures
            final(self).provider == old(self).provider.aged(now),
            final(self).language == old(self).language,
            match (r, old(self).provider.aged(now).status()) {
                (Some(snapshot), Some(status)) => snapshot.says(status),
                (None, None) => true,
                _ => false,
            },
    {
        self.provider.model_status(now)
    }

    pub fn unload_model(&mut self) -> (r: Result<(), ProviderError>)
        ensures
            final(self).language == old(self).language,
            r is Ok,
            final(self).provider == old(self).provider.unloaded(),
    {
        self.provider.unload_model()
    }

    pub fn recording_complete(&mut self) -> (r: Result<(), ProviderError>)
        ensures
            r is Ok,
            final(self).provider == old(self).provider.completed(),
            final(self).language == old(self).language,
    {
        self.provider.recording_complete()
    }

    /// Asks the provider to prepare. It names the model that is to be loaded, if one is.
    pub fn prepare(&mut self, now: u128) -> (r: Option<String>)
        ensures
            final(self).provider == old(self).provider.preparing(now).0,
            final(self).language == old(self).language,
            opt_view(r) == old(self).provider.preparing(now).1,
    {
        self.provider.prepare(now)
    }

    /// The model that the provider named was loaded, or could not be.
    pub fn finish_prepare(&mut self, result: Result<(), String>, now: u128)
        ensures
            final(self).provider == old(self).provider.prepared(result, now),
            final(self).language == old(self).language,
    {
        self.provider.finish_prepare(result, now)
    }

    /// Asks the provider to load its model anew: it is given up first, and then the provider
    /// prepares.
    pub fn reload_model(&mut self, now: u128) -> (r: Result<Option<String>, ProviderError>)
        ensures
            final(self).language == old(self).language,
            final(self).provider == old(self).provider.unloaded().preparing(now).0,
            r matches Ok(path) && opt_view(path) == old(self).provider.unloaded().preparing(now).1,
    {
        match self.provider.unload_model() {
            Err(error) => Err(error),
            Ok(_) => Ok(self.provider.prepare(now)),
        }
    }

    /// The provider is OpenAI's program, which writes clean text.
    pub fn is_openai_whisper(&self) -> (r: bool)
        ensures
            r == (self.provider.title() == "OpenAI Whisper CLI"@),
    {
        str_eq(self.provider.name(), "OpenAI Whisper CLI")
    }
}

/// Law: only the in-process provider transcribes in chunks, and only it has a model in memory: to
/// every other one preparing, unloading and the end of a recording do nothing.
pub proof fn law_only_the_in_process_provider_chunks(p: AnyProvider, now: u128)
    ensures
        p.chunks() <==> p is WhisperRs,
        p.status() is Some <==> p is WhisperRs,
        !(p is WhisperRs) ==> {
            &&& p.unloaded() == p
            &&& p.completed() == p
            &&& p.preparing(now) == (p, None::<Seq<char>>)
        },
{
}

/// Law: detection never picks a provider that needs authentication, whatever the machine has to
/// offer and whatever is set.
pub proof fn law_detection_needs_no_key(
    config: ProviderConfig,
    env: Environment,
    r: Result<AnyProvider, ProviderError>,
)
    requires
        detects(config, env, r),
    ensures
        r matches Ok(provider) ==> !(provider is OpenAIApi) && !(provider is WhisperRs),
{
}

/// Law: the prompt that a model starts with holds the prompt that is set and then the vocabulary, on
/// lines of their own, and there is none just where neither is set.
pub proof fn law_the_prompt_holds_both(prompt: Seq<char>, vocabulary: Seq<char>)
    ensures
        combined_prompt(Some(prompt), Some(vocabulary)) == Some(
            prompt.push('\n') + vocabulary,
        ),
        combined_prompt(Some(prompt), None) == Some(prompt),
        combined_prompt(None, Some(vocabulary)) == Some(vocabulary),
        combined_prompt(None, None) is None,
{
    assert(prompt + seq!['\n'] + vocabulary =~= prompt.push('\n') + vocabulary);
}

/// Law: detection takes what the machine has. OpenAI's program is taken, with its base model,
/// wherever it is there and can be used, else whisper.cpp's, and it fails just where neither is.
pub proof fn law_detection_takes_what_is_there(
    config: ProviderConfig,
    env: Environment,
    r: Result<AnyProvider, ProviderError>,
)
    requires
        detects(config, env, r),
    ensures
        ({
            let openai = env.openai_command is Ok && env.openai_available && is_openai_help(
                opt_view(env.openai_help),
            );
            let cpp = env.cpp_command is Ok && env.cpp_available;
            &&& openai <==> r is Ok && r->Ok_0 is OpenAICli
            &&& !openai && cpp <==> r is Ok && r->Ok_0 is WhisperCpp
            &&& !openai && !cpp <==> r is Err
        }),
        r matches Ok(AnyProvider::OpenAICli(p)) ==> p.model@ == "base"@ && env.openai_command
            == Ok::<Program, ProviderError>(p.command_path),
        r matches Ok(AnyProvider::WhisperCpp(p)) ==> env.cpp_command == Ok::<
            Program,
            ProviderError,
        >(p.command_path) && p.model_path == config.model_path,
        r matches Err(error) ==> error.message@
            == "No transcription provider available. Install whisper-cpp, openai-whisper, or configure OpenAI API with api_key"@,
{
}

/// Law: a provider that is named is the one that is set up, or its own error is told; no other one
/// takes its place.
pub proof fn law_a_named_provider_is_set_up(
    name: Seq<char>,
    config: ProviderConfig,
    env: Environment,
    r: Result<AnyProvider, ProviderError>,
)
    requires
        sets_up(name, config, env, r),
    ensures
        name == "openai-api"@ ==> (r is Ok <==> config.api_key is Some) && (r matches Ok(p)
            ==> p is OpenAIApi),
        name == "openai-cli"@ ==> (r is Ok <==> env.openai_command is Ok && is_openai_help(
            opt_view(env.openai_help),
        )) && (r matches Ok(p) ==> p is OpenAICli),
        name == "whisper-cpp"@ ==> (r is Ok <==> env.cpp_command is Ok) && (r matches Ok(p)
            ==> p is WhisperCpp),
        name == "whisper-rs"@ ==> (r is Ok <==> config.model_path is Some || env.data_dir is Some)
            && (r matches Ok(p) ==> p is WhisperRs),
        name != "openai-api"@ && name != "openai-cli"@ && name != "whisper-cpp"@ && name
            != "whisper-rs"@ ==> detects(config, env, r),
{
    reveal_strlit("openai-api");
    reveal_strlit("openai-cli");
    reveal_strlit("whisper-cpp");
    reveal_strlit("whisper-rs");
    assert("openai-api"@[7] == 'a' && "openai-cli"@[7] == 'c');
    assert("openai-api"@.len() == 10 && "openai-cli"@.len() == 10);
    assert("whisper-cpp"@.len() == 11 && "whisper-rs"@.len() == 10);
    assert("openai-api"@[0] == 'o' && "openai-cli"@[0] == 'o' && "whisper-rs"@[0] == 'w');
}

/// Law: a named provider is set up as the settings say, and by its own defaults where they say
/// nothing.
pub proof fn law_a_provider_has_its_settings(
    name: Seq<char>,
    config: ProviderConfig,
    env: Environment,
    provider: AnyProvider,
)
    requires
        sets_up(name, config, env, Ok::<AnyProvider, ProviderError>(provider)),
    ensures
        provider matches AnyProvider::WhisperCpp(p) ==> p.options.threads == config.threads
            && p.options.beam_size == config.beam_size && p.options.best_of == config.best_of
            && p.options.no_fallback == config.no_fallback && p.options.timeout_secs
            == config.timeout_secs && p.model_path == config.model_path,
        provider matches AnyProvider::WhisperRs(p) ==> p.options.threads == config.threads
            && p.options.beam_size == config.beam_size && p.options.best_of == config.best_of
            && p.options.no_fallback == config.no_fallback && p.options.audio_ctx
            == config.audio_ctx && p.options.keep_warm_for_secs == config.keep_warm_for_secs
            && p.state.keep_warm_for_secs == config.keep_warm_for_secs && !p.loaded,
        provider matches AnyProvider::OpenAIApi(p) ==> config.api_key == Some(p.api_key)
            && p.api_endpoint == config.api_endpoint,
        config.model matches Some(model) ==> match provider {
            AnyProvider::OpenAIApi(p) => p.model@ == model@,
            AnyProvider::WhisperCpp(p) => p.model@ == model@,
            AnyProvider::OpenAICli(p) => name == "openai-cli"@ ==> p.model@ == model@,
            AnyProvider::WhisperRs(_) => true,
        },
        config.model is None ==> match provider {
            AnyProvider::OpenAIApi(p) => p.model@ == "whisper-1"@,
            AnyProvider::WhisperCpp(p) => p.model@ == "base"@,
            AnyProvider::OpenAICli(p) => p.model@ == "base"@,
            AnyProvider::WhisperRs(_) => true,
        },
{
    reveal_strlit("openai-api");
    reveal_strlit("openai-cli");
    assert("openai-api"@[7] == 'a' && "openai-cli"@[7] == 'c');
}

/// Law: the in-process provider that is set up reads its model from the path that is set, or else
/// from below the data directory, the English base model where no model is named.
pub proof fn law_where_the_model_is_read_from(
    config: ProviderConfig,
    env: Environment,
    provider: AnyProvider,
)
    requires
        sets_up("whisper-rs"@, config, env, Ok::<AnyProvider, ProviderError>(provider)),
    ensures
        provider matches AnyProvider::WhisperRs(p) ==> {
            &&& config.model_path matches Some(path) ==> p.model_path == path
            &&& config.model_path is None && config.model is None ==> (env.data_dir matches Some(dir)
                && p.model_path@ == chosen(candidates("base.en"@, dir@), env.models_present@))
            &&& config.model_path is None && config.model is Some ==> (env.data_dir matches Some(dir)
                && p.model_path@ == chosen(
                candidates(config.model->Some_0@, dir@),
                env.models_present@,
            ))
        },
{
    reveal_strlit("openai-api");
    reveal_strlit("openai-cli");
    reveal_strlit("whisper-cpp");
    reveal_strlit("whisper-rs");
    assert("whisper-cpp"@.len() == 11 && "whisper-rs"@.len() == 10);
    assert("openai-api"@[0] == 'o' && "openai-cli"@[0] == 'o' && "whisper-rs"@[0] == 'w');
}

/// Law: one of the providers does what that provider does by itself.
pub proof fn law_a_provider_does_its_own(
    p: WhisperRsProvider,
    now: u128,
    result: Result<(), String>,
)
    ensures
        ({
            let any = AnyProvider::WhisperRs(p);
            &&& any.aged(now) == AnyProvider::WhisperRs(p.aged(now))
            &&& any.unloaded() == AnyProvider::WhisperRs(p.unloaded())
            &&& any.completed() == AnyProvider::WhisperRs(p.completed())
            &&& any.preparing(now) == (
                AnyProvider::WhisperRs(p.preparing(now).0),
                p.preparing(now).1,
            )
            &&& any.prepared(result, now) == AnyProvider::WhisperRs(p.prepared(result, now))
            &&& any.status() == p.status()
            &&& any.needs_path() == Some(Place::Text(p.model_path@))
        }),
{
}

/// Law: the names of the providers, by which they are told apart.
pub proof fn law_the_names_of_the_providers(p: AnyProvider)
    ensures
        p is OpenAIApi ==> p.title() == "OpenAI API"@,
        p is OpenAICli ==> p.title() == "OpenAI Whisper CLI"@,
        p is WhisperCpp ==> p.title() == "whisper.cpp"@,
        p is WhisperRs ==> p.title() == "whisper-rs"@,
{
}

/// Law: what has to exist for a provider to be used: its program, or the file of its model; nothing
/// for one that is asked over the network.
pub proof fn law_what_a_provider_needs(p: AnyProvider)
    ensures
        match p {
            AnyProvider::OpenAIApi(_) => p.needs_path() is None,
            AnyProvider::OpenAICli(cli) => p.needs_path() == Some(cli.command_path.place()),
            AnyProvider::WhisperCpp(cpp) => p.needs_path() == Some(cpp.command_path.place()),
            AnyProvider::WhisperRs(rs) => p.needs_path() == Some(Place::Text(rs.model_path@)),
        },
{
}

} // verus!
