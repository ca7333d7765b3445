//! The provider that runs OpenAI's `whisper` program.

use crate::commands::{find_program, found_under, FoundProgram, Place, PlacePath, Program};
use crate::file_name::{byte_stem, stem_text, text_stem, Stem};
use crate::text::{trim, trimmed};
use crate::whisper::process::Deadline;
use crate::whisper::provider::{
    argument_views, result_view, texts, Argument, ModelStatus, ModelStatusSnapshot, ProviderError,
    TranscriptionProvider,
};
use vstd::prelude::*;
use vstd::utf8::{decode_utf8, encode_utf8, valid_utf8};

verus! {

/// The `whisper` program and the model that it is run with.
pub struct OpenAIWhisperCliProvider {
    pub command_path: Program,
    pub model: String,
}

/// One text occurs in another.
pub open spec fn occurs(part: Seq<char>, whole: Seq<char>) -> bool {
    exists|i: int| occurs_at(part, whole, i)
}

/// One text occurs in another at a place.
pub open spec fn occurs_at(part: Seq<char>, whole: Seq<char>, i: int) -> bool {
    0 <= i && i + part.len() <= whole.len() && whole.subrange(i, i + part.len()) == part
}

/// One text occurs in another.
pub fn contains(whole: &str, part: &str) -> (r: bool)
    ensures
        r == occurs(part@, whole@),
{
    let w = crate::text::chars_of(whole);
    let p = crate::text::chars_of(part);
    if p.len() > w.len() {
        return false;
    }
    let last: usize = w.len() - p.len();
    let mut i: usize = 0;
    while i <= last
        invariant
            w@ == whole@,
            p@ == part@,
            last == w.len() - p.len(),
            i <= last + 1,
            forall|k: int| 0 <= k < i ==> !#[trigger] occurs_at(part@, whole@, k),
        decreases last + 1 - i,
    {
        let mut k: usize = 0;
        while k < p.len() && w[i + k] == p[k]
            invariant
                w@ == whole@,
                p@ == part@,
                last == w.len() - p.len(),
                i <= last,
                k <= p.len(),
                forall|j: int| 0 <= j < k ==> whole@[i + j] == #[trigger] part@[j],
            decreases p.len() - k,
        {
            k += 1;
        }
        if k == p.len() {
            assert(whole@.subrange(i as int, i + part@.len()) =~= part@);
            assert(occurs_at(part@, whole@, i as int));
            return true;
        }
        proof {
            assert(whole@.subrange(i as int, i + part@.len())[k as int] == whole@[i + k]);
            assert(!occurs_at(part@, whole@, i as int));
        }
        if i == last {
            assert forall|k: int| !#[trigger] occurs_at(part@, whole@, k) by {
                if 0 <= k <= last {
                }
            }
            return false;
        }
        i += 1;
    }
    false
}

/// The help is that of OpenAI's program.
pub open spec fn is_openai_help(help: Option<Seq<char>>) -> bool {
    help matches Some(text) && occurs("--output_format"@, text) && occurs("--output_dir"@, text)
}

/// Where the program lies: the path that is set, if it exists, else where it was found.
pub open spec fn located(
    command_path: Option<String>,
    exists: bool,
    found: Option<FoundProgram>,
) -> Option<Program> {
    match (command_path, found) {
        (Some(path), _) => if exists {
            Some(Program::Given(path))
        } else {
            None
        },
        (None, Some(program)) => Some(Program::Found(program)),
        (None, None) => None,
    }
}

/// The result of formatting a path for debugging: in quotes, with special characters escaped.
pub uninterp spec fn quoted(path: Seq<char>) -> Seq<char>;

/// `std::path::Path` formatted with `{:?}`: the result depends on the path alone.
#[verifier::external_body]
fn quote_path(path: &str) -> (r: String)
    ensures
        r@ == quoted(path@),
{
    format!("{:?}", std::path::Path::new(path))
}

/// The message for a path that is set but does not exist.
pub open spec fn missing_message(path: Seq<char>) -> Seq<char> {
    "Custom whisper path does not exist: "@ + quoted(path)
}

/// The error of a path that is set but does not exist.
pub fn missing_command(path: &str) -> (r: ProviderError)
    ensures
        r.message@ == missing_message(path@),
{
    let mut message = "Custom whisper path does not exist: ".to_owned();
    message.append(quote_path(path).as_str());
    ProviderError { message }
}

/// The result is what was located: an error where nothing was.
pub open spec fn finds(r: Result<Program, ProviderError>, place: Option<Program>) -> bool {
    match r {
        Ok(command) => place == Some(command),
        Err(_) => place is None,
    }
}

/// The program, where it was found on the search path if no path is set. `exists` says whether
/// the path that is set exists.
pub fn choose_command(
    command_path: Option<String>,
    exists: bool,
    found: Option<FoundProgram>,
    not_found: &'static str,
) -> (r: Result<Program, ProviderError>)
    ensures
        finds(r, located(command_path, exists, found)),
        r matches Err(error) ==> error.message@ == (match command_path {
            Some(path) => missing_message(path@),
            None => not_found@,
        }),
{
    match command_path {
        Some(path) => {
            if exists {
                Ok(Program::Given(path))
            } else {
                Err(missing_command(path.as_str()))
            }
        },
        None => match found {
            Some(program) => Ok(Program::Found(program)),
            None => Err(ProviderError::new(not_found)),
        },
    }
}

/// The name that OpenAI's program is looked for by.
pub fn openai_program() -> (r: &'static str)
    ensures
        r@ == "whisper"@,
{
    "whisper"
}

/// Where OpenAI's program lies: the path that is set, if it exists, else a program named `whisper`
/// on the search path. Whether there is one depends on the machine. `exists` says whether the path
/// that is set exists.
pub fn locate_openai(command_path: Option<String>, exists: bool) -> (r: Result<
    Program,
    ProviderError,
>)
    ensures
        command_path matches Some(path) ==> match r {
            Ok(command) => exists && command == Program::Given(path),
            Err(error) => !exists && error.message@ == missing_message(path@),
        },
        command_path is None ==> match r {
            Ok(command) => command matches Program::Found(program) && found_under(
                "whisper"@,
                Some(program),
            ),
            Err(error) => error.message@
                == "OpenAI Whisper CLI not found. Please install openai-whisper"@,
        },
        exists|found: Option<FoundProgram>|
            #![trigger located(command_path, exists, found)]
            found_under("whisper"@, found) && finds(r, located(command_path, exists, found)),
{
    proof {
        reveal_strlit("whisper");
    }
    let found = match &command_path {
        Some(_) => None,
        None => find_program(openai_program()),
    };
    let ghost set = command_path;
    let ghost lookup = found;
    let r = choose_command(
        command_path,
        exists,
        found,
        "OpenAI Whisper CLI not found. Please install openai-whisper",
    );
    assert(found_under("whisper"@, lookup) && finds(r, located(set, exists, lookup)));
    r
}

impl OpenAIWhisperCliProvider {
    /// The provider, if the program that was located is OpenAI's. `help` is what the program says
    /// when it is asked for help, or nothing where it could not be asked.
    pub fn new(
        command: Result<Program, ProviderError>,
        help: Option<&str>,
        model: String,
    ) -> (r: Result<Self, ProviderError>)
        ensures
            match command {
                Err(error) => r == Err::<Self, ProviderError>(error),
                Ok(command_path) => if is_openai_help(
                    match help {
                        Some(text) => Some(text@),
                        None => None,
                    },
                ) {
                    r == Ok::<Self, ProviderError>(OpenAIWhisperCliProvider { command_path, model })
                } else {
                    r matches Err(error) && error.message@
                        == "Detected whisper CLI is not OpenAI Whisper"@
                },
            },
    {
        match command {
            Err(error) => Err(error),
            Ok(command_path) => {
                let is_openai = match help {
                    Some(text) => contains(text, "--output_format") && contains(
                        text,
                        "--output_dir",
                    ),
                    None => false,
                };
                if is_openai {
                    Ok(OpenAIWhisperCliProvider { command_path, model })
                } else {
                    Err(ProviderError::new("Detected whisper CLI is not OpenAI Whisper"))
                }
            },
        }
    }

    /// What the program is run with.
    pub open spec fn arguments<A>(&self, audio_path: A, language: Seq<char>) -> Seq<
        Argument<A, Seq<char>>,
    > {
        seq![Argument::Audio(audio_path)] + texts(
            seq![
                "--model"@,
                self.model@,
                "--language"@,
                language,
                "--output_format"@,
                "txt"@,
                "--output_dir"@,
                "/tmp"@,
            ],
        )
    }

    /// What the program is run with.
    pub fn args<A>(&self, audio_path: A, language: &str) -> (r: Vec<Argument<A, String>>)
        ensures
            argument_views(r@) == self.arguments(audio_path, language@),
    {
        let mut out: Vec<Argument<A, String>> = Vec::new();
        out.push(Argument::Audio(audio_path));
        out.push(Argument::Text("--model".to_owned()));
        out.push(Argument::Text(self.model.clone()));
        out.push(Argument::Text("--language".to_owned()));
        out.push(Argument::Text(language.to_owned()));
        out.push(Argument::Text("--output_format".to_owned()));
        out.push(Argument::Text("txt".to_owned()));
        out.push(Argument::Text("--output_dir".to_owned()));
        out.push(Argument::Text("/tmp".to_owned()));
        assert(argument_views(out@) =~= self.arguments(audio_path, language@));
        out
    }
}

/// The order of the time limit and the exit in a run of OpenAI's program.
pub const OPENAI_DEADLINE: Deadline = Deadline::BeforeExit;

/// The file that the program writes the text to.
pub fn output_path(audio_stem: &str) -> (r: String)
    ensures
        r@ == "/tmp/"@ + audio_stem@ + ".txt"@,
{
    let mut out = "/tmp/".to_owned();
    out.append(audio_stem);
    out.append(".txt");
    out
}

/// The file that the program writes the text to: it is named after the audio file. The path of that
/// file is given as the bytes that the system holds.
pub fn output_path_for(audio_path: &[u8]) -> (r: Result<String, &'static str>)
    ensures
        match byte_stem(audio_path@) {
            None => r matches Err(error) && error@ == "Invalid audio path"@,
            Some(stem) => if valid_utf8(stem) {
                r matches Ok(path) && path@ == "/tmp/"@ + decode_utf8(stem) + ".txt"@
            } else {
                r matches Err(error) && error@ == "Invalid audio filename"@
            },
        },
        forall|text: Seq<char>|
            audio_path@ == #[trigger] encode_utf8(text) ==> match text_stem(text) {
                Some(stem) => r matches Ok(path) && path@ == "/tmp/"@ + stem + ".txt"@,
                None => r matches Err(error) && error@ == "Invalid audio path"@,
            },
{
    match stem_text(audio_path) {
        Stem::Missing => Err("Invalid audio path"),
        Stem::NotText => Err("Invalid audio filename"),
        Stem::Text(stem) => Ok(output_path(stem.as_str())),
    }
}

impl TranscriptionProvider for OpenAIWhisperCliProvider {
    open spec fn title(&self) -> Seq<char> {
        "OpenAI Whisper CLI"@
    }

    open spec fn needs_path(&self) -> Option<Place> {
        Some(self.command_path.place())
    }

    open spec fn chunks(&self) -> bool {
        false
    }

    open spec fn aged(&self, now: u128) -> Self {
        *self
    }

    open spec fn status(&self) -> Option<ModelStatus> {
        None
    }

    open spec fn unloaded(&self) -> Self {
        *self
    }

    open spec fn completed(&self) -> Self {
        *self
    }

    open spec fn preparing(&self, now: u128) -> (Self, Option<Seq<char>>) {
        (*self, None)
    }

    open spec fn prepared(&self, result: Result<(), String>, now: u128) -> Self {
        *self
    }

    fn name(&self) -> (r: &'static str) {
        "OpenAI Whisper CLI"
    }

    fn required_path(&self) -> (r: Option<PlacePath<'_>>) {
        Some(self.command_path.path())
    }

    fn supports_chunking(&self) -> (r: bool) {
        false
    }

    fn model_status(&mut self, now: u128) -> (r: Option<ModelStatusSnapshot>) {
        None
    }

    fn unload_model(&mut self) -> (r: Result<(), ProviderError>) {
        Ok(())
    }

    fn recording_complete(&mut self) -> (r: Result<(), ProviderError>) {
        Ok(())
    }

    fn prepare(&mut self, now: u128) -> (r: Option<String>) {
        None
    }

    fn finish_prepare(&mut self, result: Result<(), String>, now: u128) {
    }
}

/// How a program ended.
#[derive(Debug, PartialEq, Eq)]
pub struct CommandOutput<T> {
    pub success: bool,
    pub stdout: T,
    pub stderr: T,
}

impl View for CommandOutput<String> {
    type V = CommandOutput<Seq<char>>;

    open spec fn view(&self) -> CommandOutput<Seq<char>> {
        CommandOutput { success: self.success, stdout: self.stdout@, stderr: self.stderr@ }
    }
}

/// What is to be done to transcribe a file with OpenAI's program.
#[derive(Debug, PartialEq, Eq)]
pub enum CliAction<T> {
    /// Run the program.
    Run,
    /// Read the file that it wrote.
    ReadOutput,
    /// Remove the file that it wrote, if there is one.
    RemoveOutput,
    /// The transcription is over; this is its text, or the message of what failed.
    Finish { result: Result<T, T> },
}

/// What came of it.
#[derive(Debug, PartialEq, Eq)]
pub enum CliEvent<T> {
    Done,
    /// The program did not run to its end.
    NotRun { error: T },
    /// The program ended.
    Ran { output: CommandOutput<T> },
    /// The file was read, or could not be.
    Read { result: Result<T, T> },
}

/// Where the transcription stands.
pub enum CliState<T> {
    Begin,
    Running,
    Reading,
    /// The file is being removed, and then this is the result.
    Removing { result: Result<T, T> },
    Finished,
}

impl View for CliAction<String> {
    type V = CliAction<Seq<char>>;

    open spec fn view(&self) -> CliAction<Seq<char>> {
        match *self {
            CliAction::Run => CliAction::Run,
            CliAction::ReadOutput => CliAction::ReadOutput,
            CliAction::RemoveOutput => CliAction::RemoveOutput,
            CliAction::Finish { result } => CliAction::Finish { result: result_view(result) },
        }
    }
}

impl View for CliEvent<String> {
    type V = CliEvent<Seq<char>>;

    open spec fn view(&self) -> CliEvent<Seq<char>> {
        match *self {
            CliEvent::Done => CliEvent::Done,
            CliEvent::NotRun { error } => CliEvent::NotRun { error: error@ },
            CliEvent::Ran { output } => CliEvent::Ran { output: output@ },
            CliEvent::Read { result } => CliEvent::Read { result: result_view(result) },
        }
    }
}

impl View for CliState<String> {
    type V = CliState<Seq<char>>;

    open spec fn view(&self) -> CliState<Seq<char>> {
        match *self {
            CliState::Begin => CliState::Begin,
            CliState::Running => CliState::Running,
            CliState::Reading => CliState::Reading,
            CliState::Removing { result } => CliState::Removing { result: result_view(result) },
            CliState::Finished => CliState::Finished,
        }
    }
}

/// The event is one that the state waits for.
pub open spec fn cli_expects(state: CliState<Seq<char>>, event: CliEvent<Seq<char>>) -> bool {
    match state {
        CliState::Running => event is NotRun || event is Ran,
        CliState::Reading => event is Read,
        CliState::Finished => false,
        _ => event is Done,
    }
}

/// The end: the file goes, and then there is the result.
pub open spec fn cli_end(result: Result<Seq<char>, Seq<char>>) -> (
    CliState<Seq<char>>,
    CliAction<Seq<char>>,
) {
    (CliState::Removing { result }, CliAction::RemoveOutput)
}

/// One step of a transcription with OpenAI's program. Whatever comes of it, the file that the
/// program wrote is removed.
pub open spec fn cli_step(state: CliState<Seq<char>>, event: CliEvent<Seq<char>>) -> (
    CliState<Seq<char>>,
    CliAction<Seq<char>>,
) {
    match (state, event) {
        (CliState::Begin, _) => (CliState::Running, CliAction::Run),
        (CliState::Running, CliEvent::NotRun { error }) => cli_end(Err(error)),
        (CliState::Running, CliEvent::Ran { output }) => if output.success {
            (CliState::Reading, CliAction::ReadOutput)
        } else {
            cli_end(Err("Whisper transcription failed: "@ + output.stderr))
        },
        (CliState::Reading, CliEvent::Read { result }) => cli_end(
            match result {
                Ok(text) => Ok(trimmed(text)),
                Err(error) => Err(error),
            },
        ),
        (CliState::Removing { result }, _) => (CliState::Finished, CliAction::Finish { result }),
        _ => (CliState::Finished, CliAction::Finish { result: Err(Seq::empty()) }),
    }
}

/// A transcription with OpenAI's program.
pub struct CliFlow {
    pub state: CliState<String>,
}

fn end(result: Result<String, String>) -> (r: (CliFlow, CliAction<String>))
    ensures
        (r.0.state@, r.1@) == cli_end(result_view(result)),
{
    (CliFlow { state: CliState::Removing { result } }, CliAction::RemoveOutput)
}

impl CliFlow {
    pub fn new() -> (r: Self)
        ensures
            r.state@ == CliState::<Seq<char>>::Begin,
    {
        CliFlow { state: CliState::Begin }
    }

    /// The next step.
    pub fn step(self, event: CliEvent<String>) -> (r: (Self, CliAction<String>))
        requires
            cli_expects(self.state@, event@),
        ensures
            (r.0.state@, r.1@) == cli_step(self.state@, event@),
    {
        match (self.state, event) {
            (CliState::Begin, _) => (CliFlow { state: CliState::Running }, CliAction::Run),
            (CliState::Running, CliEvent::NotRun { error }) => end(Err(error)),
            (CliState::Running, CliEvent::Ran { output }) => {
                if output.success {
                    (CliFlow { state: CliState::Reading }, CliAction::ReadOutput)
                } else {
                    let mut message = "Whisper transcription failed: ".to_owned();
                    message.append(output.stderr.as_str());
                    end(Err(message))
                }
            },
            (CliState::Reading, CliEvent::Read { result }) => match result {
                Ok(text) => end(Ok(trim(text.as_str()).to_owned())),
                Err(error) => end(Err(error)),
            },
            (CliState::Removing { result }, _) => (
                CliFlow { state: CliState::Finished },
                CliAction::Finish { result },
            ),
            _ => {
                let none = String::new();
                assert(none@ =~= Seq::empty());
                (
                    CliFlow { state: CliState::Finished },
                    CliAction::Finish { result: Err(none) },
                )
            },
        }
    }
}

/// Law: a transcription with OpenAI's program ends only after the file that it wrote was removed,
/// whether it succeeded, failed or was cancelled.
pub proof fn law_the_output_file_is_removed(state: CliState<Seq<char>>, event: CliEvent<Seq<char>>)
    requires
        cli_expects(state, event),
    ensures
        cli_step(state, event).1 is Finish <==> state is Removing,
        cli_step(state, event).0 is Removing <==> cli_step(state, event).1 is RemoveOutput,
{
}

/// Law: a file is transcribed by a run of the program, and the text is what it wrote to its file,
/// without the white space around it. A run that did not end, or ended without success, and a file
/// that cannot be read, fail with their messages. In any case the file is removed first.
pub proof fn law_the_text_is_read_from_the_output_file(
    output: CommandOutput<Seq<char>>,
    read: Result<Seq<char>, Seq<char>>,
    error: Seq<char>,
)
    ensures
        ({
            let (running, run) = cli_step(CliState::Begin, CliEvent::<Seq<char>>::Done);
            let (ran, after) = cli_step(running, CliEvent::Ran { output });
            let (unrun, failed) = cli_step(running, CliEvent::NotRun { error });
            &&& run is Run
            &&& failed is RemoveOutput && cli_step(unrun, CliEvent::Done).1 == (
            CliAction::Finish { result: Err::<Seq<char>, Seq<char>>(error) })
            &&& output.success ==> after is ReadOutput && {
                let (removing, remove) = cli_step(ran, CliEvent::Read { result: read });
                remove is RemoveOutput && cli_step(removing, CliEvent::Done).1 == (
                CliAction::Finish {
                    result: match read {
                        Ok(text) => Ok::<Seq<char>, Seq<char>>(trimmed(text)),
                        Err(message) => Err(message),
                    },
                })
            }
            &&& !output.success ==> after is RemoveOutput && cli_step(ran, CliEvent::Done).1 == (
            CliAction::Finish {
                result: Err::<Seq<char>, Seq<char>>(
                    "Whisper transcription failed: "@ + output.stderr,
                ),
            })
        }),
{
}

/// Law: the program is told the audio file, the model, the language, and to write a text file to the
/// directory that it is read from.
pub proof fn law_the_program_is_told_what_to_write<A>(
    p: OpenAIWhisperCliProvider,
    audio_path: A,
    language: Seq<char>,
)
    ensures
        ({
            let args = p.arguments(audio_path, language);
            &&& args.len() == 9
            &&& args[0] == Argument::<A, Seq<char>>::Audio(audio_path)
            &&& args[1] == Argument::<A, Seq<char>>::Text("--model"@)
            &&& args[2] == Argument::<A, Seq<char>>::Text(p.model@)
            &&& args[3] == Argument::<A, Seq<char>>::Text("--language"@)
            &&& args[4] == Argument::<A, Seq<char>>::Text(language)
            &&& args[5] == Argument::<A, Seq<char>>::Text("--output_format"@)
            &&& args[6] == Argument::<A, Seq<char>>::Text("txt"@)
            &&& args[7] == Argument::<A, Seq<char>>::Text("--output_dir"@)
            &&& args[8] == Argument::<A, Seq<char>>::Text("/tmp"@)
        }),
{
}

/// Law: a program is OpenAI's just where its help speaks of both options that the library uses.
pub proof fn law_openai_is_known_by_its_help(before: Seq<char>, between: Seq<char>, after: Seq<char>)
    ensures
        is_openai_help(
            Some(before + "--output_format"@ + between + "--output_dir"@ + after),
        ),
        is_openai_help(
            Some(before + "--output_dir"@ + between + "--output_format"@ + after),
        ),
        !is_openai_help(None),
{
    lemma_occurs_inside(before, "--output_format"@, between + "--output_dir"@ + after);
    lemma_occurs_inside(before + "--output_format"@ + between, "--output_dir"@, after);
    lemma_occurs_inside(before, "--output_dir"@, between + "--output_format"@ + after);
    lemma_occurs_inside(before + "--output_dir"@ + between, "--output_format"@, after);
    assert(before + "--output_format"@ + (between + "--output_dir"@ + after) =~= before
        + "--output_format"@ + between + "--output_dir"@ + after);
    assert(before + "--output_dir"@ + (between + "--output_format"@ + after) =~= before
        + "--output_dir"@ + between + "--output_format"@ + after);
}

proof fn lemma_occurs_inside(before: Seq<char>, part: Seq<char>, after: Seq<char>)
    ensures
        occurs(part, before + part + after),
{
    let whole = before + part + after;
    let at = before.len() as int;
    assert(whole.subrange(at, at + part.len()) =~= part);
    assert(occurs_at(part, whole, at));
}

/// Law: a path that is set is the one that is used, if it exists, whatever else was found; without
/// one it is what was found.
pub proof fn law_a_path_that_is_set_is_used(
    path: String,
    exists: bool,
    found: Option<FoundProgram>,
    program: FoundProgram,
)
    ensures
        located(Some(path), true, found) == Some(Program::Given(path)),
        located(Some(path), false, found) is None,
        located(None, exists, Some(program)) == Some(Program::Found(program)),
        located(None, exists, None) is None,
{
}

} // verus!
