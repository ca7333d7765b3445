//! The provider that runs whisper.cpp's program.

use super::openai_cli::{choose_command, finds, located, missing_message, CommandOutput};
use crate::commands::{find_program, found_under, FoundProgram, Place, PlacePath, Program};
use crate::text::{decimal, decimal_string, trim, trimmed};
use crate::whisper::process::{Deadline, ProcessError};
use crate::whisper::provider::{
    argument_views, result_view, texts, Argument, ModelStatus, ModelStatusSnapshot, ProviderError,
    TranscriptionProvider,
};
use vstd::prelude::*;

verus! {

#[derive(Clone, Copy, Debug, PartialEq, Eq, Structural)]
pub struct WhisperCppOptions {
    pub threads: Option<u32>,
    pub beam_size: Option<u32>,
    pub best_of: Option<u32>,
    pub no_fallback: Option<bool>,
    pub timeout_secs: Option<u64>,
}

impl Default for WhisperCppOptions {
    fn default() -> (r: Self)
        ensures
            r == (WhisperCppOptions {
                threads: None,
                beam_size: None,
                best_of: None,
                no_fallback: None,
                timeout_secs: None,
            }),
    {
        WhisperCppOptions {
            threads: None,
            beam_size: None,
            best_of: None,
            no_fallback: None,
            timeout_secs: None,
        }
    }
}

/// The program, its model and how it is run.
pub struct WhisperCppProvider {
    pub command_path: Program,
    pub model_path: Option<String>,
    pub model: String,
    pub options: WhisperCppOptions,
}

/// The names that whisper.cpp's program is looked for by, the preferred one first.
pub fn whisper_cpp_programs() -> (r: (&'static str, &'static str))
    ensures
        r.0@ == "whisper-cli"@,
        r.1@ == "whisper"@,
{
    ("whisper-cli", "whisper")
}

/// The program of the preferred name, if it was found, else that of the other one.
pub open spec fn first_of<T>(preferred: Option<T>, other: Option<T>) -> Option<T> {
    if preferred is Some {
        preferred
    } else {
        other
    }
}

/// The program of the preferred name, if it was found, else that of the other one.
pub fn first_found<T>(preferred: Option<T>, other: Option<T>) -> (r: Option<T>)
    ensures
        r == first_of(preferred, other),
{
    match preferred {
        Some(program) => Some(program),
        None => other,
    }
}

/// Where whisper.cpp's program lies: the path that is set, if it exists, else a program named
/// `whisper-cli`, or else `whisper`, on the search path. Whether there is one depends on the machine.
/// `exists` says whether the path that is set exists.
pub fn locate_whisper_cpp(command_path: Option<String>, exists: bool) -> (r: Result<
    Program,
    ProviderError,
>)
    ensures
        command_path matches Some(path) ==> match r {
            Ok(command) => exists && command == Program::Given(path),
            Err(error) => !exists && error.message@ == missing_message(path@),
        },
        command_path is None ==> match r {
            Ok(command) => command matches Program::Found(program) && (found_under(
                "whisper-cli"@,
                Some(program),
            ) || found_under("whisper"@, Some(program))),
            Err(error) => error.message@
                == "Whisper CLI not found. Please install whisper.cpp (whisper-cli or whisper command)"@,
        },
        exists|preferred: Option<FoundProgram>, other: Option<FoundProgram>|
            #![trigger first_of(preferred, other)]
            {
                &&& found_under("whisper-cli"@, preferred)
                &&& found_under("whisper"@, other)
                &&& finds(r, located(command_path, exists, first_of(preferred, other)))
            },
{
    proof {
        reveal_strlit("whisper-cli");
        reveal_strlit("whisper");
    }
    let names = whisper_cpp_programs();
    let (preferred, other): (Option<FoundProgram>, Option<FoundProgram>) = match &command_path {
        Some(_) => (None, None),
        None => match find_program(names.0) {
            Some(program) => (Some(program), None),
            None => (None, find_program(names.1)),
        },
    };
    let ghost set = command_path;
    let ghost lookups = (preferred, other);
    let r = choose_command(
        command_path,
        exists,
        first_found(preferred, other),
        "Whisper CLI not found. Please install whisper.cpp (whisper-cli or whisper command)",
    );
    assert(found_under("whisper-cli"@, lookups.0) && found_under("whisper"@, lookups.1));
    assert(finds(r, located(set, exists, first_of(lookups.0, lookups.1))));
    r
}

/// The order of the time limit and the exit in a run of whisper.cpp's program: one that has ended has
/// not run out of time.
pub const WHISPER_CPP_DEADLINE: Deadline = Deadline::AfterExit;

/// A flag and its number, where the number is set.
pub open spec fn flag(name: Seq<char>, value: Option<u32>) -> Seq<Seq<char>> {
    match value {
        Some(value) => seq![name, decimal(value as nat)],
        None => Seq::empty(),
    }
}

/// The arguments that options give.
pub open spec fn performance_args(options: WhisperCppOptions) -> Seq<Seq<char>> {
    flag("-t"@, options.threads) + flag("-bs"@, options.beam_size) + flag("-bo"@, options.best_of)
        + (if options.no_fallback == Some(true) {
        seq!["-nf"@]
    } else {
        Seq::empty()
    })
}

fn add_flag<A>(args: &mut Vec<Argument<A, String>>, name: &str, value: Option<u32>)
    ensures
        argument_views(final(args)@) == argument_views(old(args)@) + texts(flag(name@, value)),
{
    if let Some(value) = value {
        args.push(Argument::Text(name.to_owned()));
        args.push(Argument::Text(decimal_string(value as u64)));
        assert(argument_views(args@) =~= argument_views(old(args)@) + texts(
            flag(name@, Some(value)),
        ));
    } else {
        assert(argument_views(args@) =~= argument_views(old(args)@) + texts(flag(name@, value)));
    }
}

/// Appends the arguments that options give.
pub fn add_performance_args<A>(args: &mut Vec<Argument<A, String>>, options: &WhisperCppOptions)
    ensures
        argument_views(final(args)@) == argument_views(old(args)@) + texts(
            performance_args(*options),
        ),
{
    let ghost had = argument_views(args@);
    add_flag(args, "-t", options.threads);
    add_flag(args, "-bs", options.beam_size);
    add_flag(args, "-bo", options.best_of);
    let no_fallback = match options.no_fallback {
        Some(no_fallback) => no_fallback,
        None => false,
    };
    if no_fallback {
        let ghost before = argument_views(args@);
        args.push(Argument::Text("-nf".to_owned()));
        assert(argument_views(args@) =~= before + texts(seq!["-nf"@]));
    }
    assert(argument_views(args@) =~= had + texts(performance_args(*options)));
}

impl WhisperCppProvider {
    /// The provider, if its program was located.
    pub fn new(
        command: Result<Program, ProviderError>,
        model: String,
        model_path: Option<String>,
        options: WhisperCppOptions,
    ) -> (r: Result<Self, ProviderError>)
        ensures
            match command {
                Err(error) => r == Err::<Self, ProviderError>(error),
                Ok(command_path) => r == Ok::<Self, ProviderError>(
                    WhisperCppProvider { command_path, model_path, model, options },
                ),
            },
    {
        match command {
            Err(error) => Err(error),
            Ok(command_path) => Ok(WhisperCppProvider { command_path, model_path, model, options }),
        }
    }

    /// The model file that the program is given.
    pub open spec fn model_file(&self) -> Seq<char> {
        match self.model_path {
            Some(path) => path@,
            None => "models/ggml-"@ + self.model@ + ".bin"@,
        }
    }

    fn model_arg(&self) -> (r: String)
        ensures
            r@ == self.model_file(),
    {
        match &self.model_path {
            Some(path) => path.clone(),
            None => {
                let mut name = "models/ggml-".to_owned();
                name.append(self.model.as_str());
                name.append(".bin");
                name
            },
        }
    }

    /// What the program is run with at first.
    pub open spec fn primary<A>(&self, audio_path: A, language: Seq<char>) -> Seq<
        Argument<A, Seq<char>>,
    > {
        seq![
            Argument::Text("-f"@),
            Argument::Audio(audio_path),
            Argument::Text("-m"@),
            Argument::Text(self.model_file()),
            Argument::Text("-l"@),
            Argument::Text(language),
            Argument::Text("-nt"@),
            Argument::Text("-np"@),
        ] + texts(performance_args(self.options))
    }

    /// What the program is run with at first.
    pub fn primary_args<A>(&self, audio_path: A, language: &str) -> (r: Vec<Argument<A, String>>)
        ensures
            argument_views(r@) == self.primary(audio_path, language@),
    {
        let mut out: Vec<Argument<A, String>> = Vec::new();
        out.push(Argument::Text("-f".to_owned()));
        out.push(Argument::Audio(audio_path));
        out.push(Argument::Text("-m".to_owned()));
        out.push(Argument::Text(self.model_arg()));
        out.push(Argument::Text("-l".to_owned()));
        out.push(Argument::Text(language.to_owned()));
        out.push(Argument::Text("-nt".to_owned()));
        out.push(Argument::Text("-np".to_owned()));
        assert(argument_views(out@) =~= seq![
            Argument::Text("-f"@),
            Argument::Audio(audio_path),
            Argument::Text("-m"@),
            Argument::Text(self.model_file()),
            Argument::Text("-l"@),
            Argument::Text(language@),
            Argument::Text("-nt"@),
            Argument::Text("-np"@),
        ]);
        add_performance_args(&mut out, &self.options);
        out
    }

    /// What the program is run with where the first run failed.
    pub open spec fn fallback<A>(&self, audio_path: A) -> Seq<Argument<A, Seq<char>>> {
        seq![Argument::Text("-f"@), Argument::Audio(audio_path)] + texts(
            match self.model_path {
                Some(path) => seq!["-m"@, path@],
                None => Seq::empty(),
            },
        ) + texts(performance_args(self.options))
    }

    /// What the program is run with where the first run failed.
    pub fn fallback_args<A>(&self, audio_path: A) -> (r: Vec<Argument<A, String>>)
        ensures
            argument_views(r@) == self.fallback(audio_path),
    {
        let mut out: Vec<Argument<A, String>> = Vec::new();
        out.push(Argument::Text("-f".to_owned()));
        out.push(Argument::Audio(audio_path));
        let ghost front = seq![Argument::Text("-f"@), Argument::Audio(audio_path)];
        if let Some(path) = &self.model_path {
            out.push(Argument::Text("-m".to_owned()));
            out.push(Argument::Text(path.clone()));
            assert(argument_views(out@) =~= front + texts(seq!["-m"@, path@]));
        } else {
            assert(argument_views(out@) =~= front + texts(Seq::<Seq<char>>::empty()));
        }
        add_performance_args(&mut out, &self.options);
        out
    }
}

impl TranscriptionProvider for WhisperCppProvider {
    open spec fn title(&self) -> Seq<char> {
        "whisper.cpp"@
    }

    open spec fn needs_path(&self) -> Option<Place> {
        Some(self.command_path.place())
    }

    open spec fn chunks(&self) -> bool {
        false
    }

    open spec fn aged(&self, now: u128) -> Self {
        *self
    }

    open spec fn status(&self) -> Option<ModelStatus> {
        None
    }

    open spec fn unloaded(&self) -> Self {
        *self
    }

    open spec fn completed(&self) -> Self {
        *self
    }

    open spec fn preparing(&self, now: u128) -> (Self, Option<Seq<char>>) {
        (*self, None)
    }

    open spec fn prepared(&self, result: Result<(), String>, now: u128) -> Self {
        *self
    }

    fn name(&self) -> (r: &'static str) {
        "whisper.cpp"
    }

    fn required_path(&self) -> (r: Option<PlacePath<'_>>) {
        Some(self.command_path.path())
    }

    fn supports_chunking(&self) -> (r: bool) {
        false
    }

    fn model_status(&mut self, now: u128) -> (r: Option<ModelStatusSnapshot>) {
        None
    }

    fn unload_model(&mut self) -> (r: Result<(), ProviderError>) {
        Ok(())
    }

    fn recording_complete(&mut self) -> (r: Result<(), ProviderError>) {
        Ok(())
    }

    fn prepare(&mut self, now: u128) -> (r: Option<String>) {
        None
    }

    fn finish_prepare(&mut self, result: Result<(), String>, now: u128) {
    }
}

/// The message of a run that gave no output. A run that took too long says for how long it was
/// given.
pub open spec fn run_failure(error: ProcessError<Seq<char>>, timeout_secs: Option<u64>) -> Seq<char> {
    match error {
        ProcessError::Cancelled => "transcription cancelled"@,
        ProcessError::TimedOut => match timeout_secs {
            Some(secs) => "whisper.cpp command timed out after "@ + decimal(secs as nat) + "s"@,
            None => "command timed out"@,
        },
        ProcessError::Other { message } => message,
    }
}

fn run_failure_message(error: ProcessError<String>, timeout_secs: Option<u64>) -> (r: String)
    ensures
        r@ == run_failure(error@, timeout_secs),
{
    match error {
        ProcessError::Cancelled => "transcription cancelled".to_owned(),
        ProcessError::TimedOut => match timeout_secs {
            Some(secs) => {
                let mut message = "whisper.cpp command timed out after ".to_owned();
                message.append(decimal_string(secs).as_str());
                message.append("s");
                message
            },
            None => "command timed out".to_owned(),
        },
        ProcessError::Other { message } => message,
    }
}

/// What is to be done to transcribe a file with whisper.cpp's program.
#[derive(Debug, PartialEq, Eq)]
pub enum CppAction<T> {
    /// Run the program with [`WhisperCppProvider::primary_args`].
    RunPrimary,
    /// Run the program with [`WhisperCppProvider::fallback_args`].
    RunFallback,
    /// The transcription is over; this is its text, or the message of what failed.
    Finish { result: Result<T, T> },
}

/// How a run of the program ended.
#[derive(Debug, PartialEq, Eq)]
pub enum CppEvent<T> {
    /// Nothing was run yet.
    Begin,
    /// It did not run to its end.
    NotRun { error: ProcessError<T> },
    Ran { output: CommandOutput<T> },
}

/// Where the transcription stands.
#[derive(Clone, Copy, Debug, PartialEq, Eq, Structural)]
pub enum CppState {
    Begin,
    Primary,
    Fallback,
    Finished,
}

impl View for CppAction<String> {
    type V = CppAction<Seq<char>>;

    open spec fn view(&self) -> CppAction<Seq<char>> {
        match *self {
            CppAction::RunPrimary => CppAction::RunPrimary,
            CppAction::RunFallback => CppAction::RunFallback,
            CppAction::Finish { result } => CppAction::Finish { result: result_view(result) },
        }
    }
}

impl View for CppEvent<String> {
    type V = CppEvent<Seq<char>>;

    open spec fn view(&self) -> CppEvent<Seq<char>> {
        match *self {
            CppEvent::Begin => CppEvent::Begin,
            CppEvent::NotRun { error } => CppEvent::NotRun { error: error@ },
            CppEvent::Ran { output } => CppEvent::Ran { output: output@ },
        }
    }
}

/// The event is one that the state waits for.
pub open spec fn cpp_expects(state: CppState, event: CppEvent<Seq<char>>) -> bool {
    match state {
        CppState::Begin => event is Begin,
        CppState::Finished => false,
        _ => !(event is Begin),
    }
}

/// One step of a transcription with whisper.cpp's program. A first run that fails is followed by a
/// second one with fewer arguments; a run that does not end is not.
pub open spec fn cpp_step(
    state: CppState,
    timeout_secs: Option<u64>,
    event: CppEvent<Seq<char>>,
) -> (CppState, CppAction<Seq<char>>) {
    match (state, event) {
        (CppState::Begin, _) => (CppState::Primary, CppAction::RunPrimary),
        (CppState::Primary, CppEvent::Ran { output }) => if output.success {
            (CppState::Finished, CppAction::Finish { result: Ok(trimmed(output.stdout)) })
        } else {
            (CppState::Fallback, CppAction::RunFallback)
        },
        (CppState::Fallback, CppEvent::Ran { output }) => (
            CppState::Finished,
            CppAction::Finish {
                result: if output.success {
                    Ok(trimmed(output.stdout))
                } else {
                    Err("Whisper.cpp transcription failed"@)
                },
            },
        ),
        (_, CppEvent::NotRun { error }) => (
            CppState::Finished,
            CppAction::Finish { result: Err(run_failure(error, timeout_secs)) },
        ),
        _ => (CppState::Finished, CppAction::Finish { result: Err(Seq::empty()) }),
    }
}

/// A transcription with whisper.cpp's program.
pub struct CppFlow {
    pub state: CppState,
    pub timeout_secs: Option<u64>,
}

impl CppFlow {
    pub fn new(timeout_secs: Option<u64>) -> (r: Self)
        ensures
            r == (CppFlow { state: CppState::Begin, timeout_secs }),
    {
        CppFlow { state: CppState::Begin, timeout_secs }
    }

    /// The next step.
    pub fn step(&mut self, event: CppEvent<String>) -> (r: CppAction<String>)
        requires
            cpp_expects(old(self).state, event@),
        ensures
            (final(self).state, r@) == cpp_step(
                old(self).state,
                old(self).timeout_secs,
                event@,
            ),
            final(self).timeout_secs == old(self).timeout_secs,
    {
        let (state, action): (CppState, CppAction<String>) = match (self.state, event) {
            (CppState::Begin, _) => (CppState::Primary, CppAction::RunPrimary),
            (CppState::Primary, CppEvent::Ran { output }) => {
                if output.success {
                    (
                        CppState::Finished,
                        CppAction::Finish { result: Ok(trim(output.stdout.as_str()).to_owned()) },
                    )
                } else {
                    (CppState::Fallback, CppAction::RunFallback)
                }
            },
            (CppState::Fallback, CppEvent::Ran { output }) => {
                let result: Result<String, String> = if output.success {
                    Ok(trim(output.stdout.as_str()).to_owned())
                } else {
                    Err("Whisper.cpp transcription failed".to_owned())
                };
                (CppState::Finished, CppAction::Finish { result })
            },
            (_, CppEvent::NotRun { error }) => {
                let message = run_failure_message(error, self.timeout_secs);
                (CppState::Finished, CppAction::Finish { result: Err(message) })
            },
            _ => {
                let none = String::new();
                assert(none@ =~= Seq::empty());
                (CppState::Finished, CppAction::Finish { result: Err(none) })
            },
        };
        self.state = state;
        action
    }
}

/// Law: the performance options are handed to the program in both runs, behind what each run has of
/// its own.
pub proof fn law_options_reach_both_runs<A>(
    p: WhisperCppProvider,
    audio_path: A,
    language: Seq<char>,
)
    ensures
        ({
            let args = texts::<A>(performance_args(p.options));
            let first = p.primary(audio_path, language);
            let second = p.fallback(audio_path);
            &&& first.skip(first.len() - args.len()) == args
            &&& second.skip(second.len() - args.len()) == args
        }),
{
    let args = texts::<A>(performance_args(p.options));
    let first = p.primary(audio_path, language);
    let second = p.fallback(audio_path);
    assert(first.skip(first.len() - args.len()) =~= args);
    assert(second.skip(second.len() - args.len()) =~= args);
}

/// Law: a file is transcribed by a first run, and where that ends without success by a second one.
/// The text is what the run that succeeded wrote, without the white space around it; a run that does
/// not end is not followed by another one, and says why.
pub proof fn law_a_failed_run_is_tried_again(
    timeout_secs: Option<u64>,
    first: CommandOutput<Seq<char>>,
    second: CommandOutput<Seq<char>>,
    error: ProcessError<Seq<char>>,
)
    ensures
        ({
            let (primary, run) = cpp_step(
                CppState::Begin,
                timeout_secs,
                CppEvent::<Seq<char>>::Begin,
            );
            let (fallback, after) = cpp_step(
                primary,
                timeout_secs,
                CppEvent::Ran { output: first },
            );
            let unrun = cpp_step(primary, timeout_secs, CppEvent::NotRun { error }).1;
            &&& run is RunPrimary
            &&& first.success ==> after == (CppAction::Finish {
                result: Ok::<Seq<char>, Seq<char>>(trimmed(first.stdout)),
            })
            &&& !first.success ==> {
                &&& after is RunFallback
                &&& cpp_step(fallback, timeout_secs, CppEvent::Ran { output: second }).1 == (
                CppAction::Finish {
                    result: if second.success {
                        Ok::<Seq<char>, Seq<char>>(trimmed(second.stdout))
                    } else {
                        Err("Whisper.cpp transcription failed"@)
                    },
                })
                &&& cpp_step(fallback, timeout_secs, CppEvent::NotRun { error }).1 == unrun
            }
            &&& unrun == (CppAction::Finish {
                result: Err::<Seq<char>, Seq<char>>(run_failure(error, timeout_secs)),
            })
        }),
{
}

/// Law: a run that gave no output says whether it was cancelled, took longer than it was given, or
/// what else kept it from ending.
pub proof fn law_a_run_says_why_it_failed(message: Seq<char>, secs: u64, limit: Option<u64>)
    ensures
        run_failure(ProcessError::Cancelled, limit) == "transcription cancelled"@,
        run_failure(ProcessError::TimedOut, Some(secs)) == "whisper.cpp command timed out after "@
            + decimal(secs as nat) + "s"@,
        run_failure(ProcessError::TimedOut, None) == "command timed out"@,
        run_failure(ProcessError::Other { message }, limit) == message,
{
}

/// Law: each option that is set adds its flag, and one that is not set adds nothing.
pub proof fn law_each_option_adds_its_flag(options: WhisperCppOptions, n: u32)
    ensures
        options.threads == Some(n) ==> performance_args(options) == seq![
            "-t"@,
            decimal(n as nat),
        ] + performance_args(WhisperCppOptions { threads: None, ..options }),
        options.threads is None && options.beam_size == Some(n) ==> performance_args(options)
            == seq!["-bs"@, decimal(n as nat)] + performance_args(
            WhisperCppOptions { beam_size: None, ..options },
        ),
        options.threads is None && options.beam_size is None && options.best_of == Some(n)
            ==> performance_args(options) == seq!["-bo"@, decimal(n as nat)] + performance_args(
            WhisperCppOptions { best_of: None, ..options },
        ),
        options.threads is None && options.beam_size is None && options.best_of is None
            ==> performance_args(options) == (if options.no_fallback == Some(true) {
            seq!["-nf"@]
        } else {
            Seq::empty()
        }),
{
    let none = Seq::<Seq<char>>::empty();
    assert(none + none =~= none);
    if options.threads == Some(n) {
        let rest = WhisperCppOptions { threads: None, ..options };
        assert(performance_args(options) =~= seq!["-t"@, decimal(n as nat)] + performance_args(
            rest,
        ));
    } else if options.threads is None && options.beam_size == Some(n) {
        let rest = WhisperCppOptions { beam_size: None, ..options };
        assert(performance_args(options) =~= seq!["-bs"@, decimal(n as nat)] + performance_args(
            rest,
        ));
    } else if options.threads is None && options.beam_size is None && options.best_of == Some(n) {
        let rest = WhisperCppOptions { best_of: None, ..options };
        assert(performance_args(options) =~= seq!["-bo"@, decimal(n as nat)] + performance_args(
            rest,
        ));
    }
    if options.threads is None && options.beam_size is None && options.best_of is None {
        assert(performance_args(options) =~= (if options.no_fallback == Some(true) {
            seq!["-nf"@]
        } else {
            Seq::empty()
        }));
    }
}

/// Law: the first run names the audio file, the model and the language, and asks for the text alone;
/// the second one names the audio file, and the model where its file is set.
pub proof fn law_runs_name_their_input<A>(
    p: WhisperCppProvider,
    audio_path: A,
    language: Seq<char>,
)
    ensures
        ({
            let first = p.primary(audio_path, language);
            &&& first[0] == Argument::<A, Seq<char>>::Text("-f"@)
            &&& first[1] == Argument::<A, Seq<char>>::Audio(audio_path)
            &&& first[2] == Argument::<A, Seq<char>>::Text("-m"@)
            &&& first[3] == Argument::<A, Seq<char>>::Text(
                match p.model_path {
                    Some(path) => path@,
                    None => "models/ggml-"@ + p.model@ + ".bin"@,
                },
            )
            &&& first[4] == Argument::<A, Seq<char>>::Text("-l"@)
            &&& first[5] == Argument::<A, Seq<char>>::Text(language)
            &&& first[6] == Argument::<A, Seq<char>>::Text("-nt"@)
            &&& first[7] == Argument::<A, Seq<char>>::Text("-np"@)
            &&& first.len() == 8 + performance_args(p.options).len()
        }),
        ({
            let second = p.fallback(audio_path);
            &&& second[0] == Argument::<A, Seq<char>>::Text("-f"@)
            &&& second[1] == Argument::<A, Seq<char>>::Audio(audio_path)
            &&& p.model_path matches Some(path) ==> second[2] == Argument::<A, Seq<char>>::Text(
                "-m"@,
            ) && second[3] == Argument::<A, Seq<char>>::Text(path@)
            &&& second.len() == 2 + (if p.model_path is Some {
                2int
            } else {
                0
            }) + performance_args(p.options).len()
        }),
{
}

/// Law: a program of the preferred name comes before one of the other name.
pub proof fn law_the_preferred_name_comes_first<T>(preferred: T, other: Option<T>)
    ensures
        first_of(Some(preferred), other) == Some(preferred),
        first_of(None, other) == other,
{
}

} // verus!
