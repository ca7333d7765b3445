//! Helper programs: where they are looked for, and how long one is waited for.

use crate::text::{ascii_lowered, decimal, decimal_string};
use vstd::prelude::*;

verus! {

/// A path as the system writes it, which need not be text.
#[verifier::external_type_specification]
#[verifier::external_body]
pub struct ExPathBuf(std::path::PathBuf);

/// A program that was found on the search path.
#[derive(Debug, PartialEq, Eq)]
pub struct FoundProgram {
    /// Where it lies.
    pub path: std::path::PathBuf,
    /// The name of its file.
    pub file: String,
}

/// Where a program lies.
#[derive(Debug, PartialEq, Eq)]
pub enum Program {
    /// At the path that is set.
    Given(String),
    /// Where the search path led.
    Found(FoundProgram),
}

/// A path that something lies at.
#[derive(Clone, Copy, Debug, PartialEq, Eq)]
pub enum PlacePath<'a> {
    Text(&'a str),
    System(&'a std::path::PathBuf),
}

/// A path that something lies at, by view.
pub enum Place {
    Text(Seq<char>),
    System(std::path::PathBuf),
}

impl<'a> PlacePath<'a> {
    /// This is that path.
    pub open spec fn is(self, place: Place) -> bool {
        match (self, place) {
            (PlacePath::Text(path), Place::Text(text)) => path@ == text,
            (PlacePath::System(path), Place::System(other)) => *path == other,
            _ => false,
        }
    }
}

impl Program {
    pub open spec fn place(self) -> Place {
        match self {
            Program::Given(path) => Place::Text(path@),
            Program::Found(program) => Place::System(program.path),
        }
    }

    /// The path that the program lies at.
    pub fn path(&self) -> (r: PlacePath<'_>)
        ensures
            r.is(self.place()),
    {
        match self {
            Program::Given(path) => PlacePath::Text(path.as_str()),
            Program::Found(program) => PlacePath::System(&program.path),
        }
    }
}

/// A name that a program can be looked for by: small letters and hyphens.
pub open spec fn plain_name(name: Seq<char>) -> bool {
    &&& name.len() > 0
    &&& forall|i: int|
        0 <= i < name.len() ==> (#[trigger] name[i] == '-' || ('a' <= name[i] && name[i] <= 'z'))
}

/// What a search for a program of this name can find: nothing, or a program whose file bears the
/// name, in any case and perhaps with an extension.
pub open spec fn found_under(name: Seq<char>, found: Option<FoundProgram>) -> bool {
    found matches Some(program) ==> name.is_prefix_of(ascii_lowered(program.file@))
}

/// `which::which`: the first program of this name in the directories of the search path, if there is
/// one. A directory and the name make up its path; some systems add an extension, and write the
/// name as the directory has it. Which programs are there depends on the machine, and is left
/// unsaid.
#[verifier::external_body]
pub(crate) fn find_program(name: &str) -> (r: Option<FoundProgram>)
    requires
        plain_name(name@),
    ensures
        found_under(name@, r),
{
    let path = which::which(name).ok()?;
    let file = path.file_name()?.to_string_lossy().into_owned();
    Some(FoundProgram { path, file })
}

/// The time limit of a helper program, in milliseconds.
pub const COMMAND_TIMEOUT_MS: u64 = 2_000;

/// What is to be done about a program that was started.
#[derive(Clone, Copy, Debug, PartialEq, Eq, Structural)]
pub enum ChildPoll {
    /// It is over.
    Exited,
    /// It is to be killed: its time is up.
    TimedOut,
    /// It is to be looked at again after so many milliseconds.
    Wait { ms: u64 },
}

/// What is to be done about a program: one that is over is over, however long it took.
pub open spec fn polled(exited: bool, elapsed_ns: u128, timeout_ms: u64) -> ChildPoll {
    if exited {
        ChildPoll::Exited
    } else if elapsed_ns >= timeout_ms * 1_000_000 {
        ChildPoll::TimedOut
    } else {
        ChildPoll::Wait { ms: 10 }
    }
}

/// What is to be done about a program that was started `elapsed_ns` nanoseconds ago and may take
/// `timeout_ms` milliseconds.
pub fn wait_for_child_with_timeout(exited: bool, elapsed_ns: u128, timeout_ms: u64) -> (r: ChildPoll)
    ensures
        r == polled(exited, elapsed_ns, timeout_ms),
{
    if exited {
        ChildPoll::Exited
    } else if elapsed_ns >= timeout_ms as u128 * 1_000_000 {
        ChildPoll::TimedOut
    } else {
        ChildPoll::Wait { ms: 10 }
    }
}

/// The message for a program whose time was up.
pub open spec fn timeout_text(timeout_ms: u64) -> Seq<char> {
    "command timed out after "@ + decimal(timeout_ms as nat) + "ms"@
}

/// The message for a program whose time was up.
pub fn timeout_message(timeout_ms: u64) -> (r: String)
    ensures
        r@ == timeout_text(timeout_ms),
{
    let mut out = "command timed out after ".to_owned();
    out.append(decimal_string(timeout_ms).as_str());
    out.append("ms");
    out
}

/// How a program ended: it could not be run, or it ran and wrote something to its error output.
#[derive(Debug, PartialEq, Eq)]
pub enum RunOutcome<T> {
    NotRun,
    Ran { success: bool, stderr: T },
}

impl View for RunOutcome<String> {
    type V = RunOutcome<Seq<char>>;

    open spec fn view(&self) -> RunOutcome<Seq<char>> {
        match *self {
            RunOutcome::NotRun => RunOutcome::NotRun,
            RunOutcome::Ran { success, stderr } => RunOutcome::Ran { success, stderr: stderr@ },
        }
    }
}

/// What a run comes to: its message where it did not succeed.
pub open spec fn checked(label: Seq<char>, outcome: RunOutcome<Seq<char>>) -> Option<Seq<char>> {
    match outcome {
        RunOutcome::NotRun => Some("Failed to execute "@ + label),
        RunOutcome::Ran { success, stderr } => if success {
            None
        } else {
            Some(label + " failed: "@ + stderr)
        },
    }
}

/// What a run comes to: its message where it did not succeed.
pub fn run_checked(label: &str, outcome: RunOutcome<String>) -> (r: Result<(), String>)
    ensures
        (match r {
            Ok(_) => None,
            Err(message) => Some(message@),
        }) == checked(label@, outcome@),
{
    match outcome {
        RunOutcome::NotRun => {
            let mut message = "Failed to execute ".to_owned();
            message.append(label);
            Err(message)
        },
        RunOutcome::Ran { success, stderr } => {
            if success {
                Ok(())
            } else {
                let mut message = label.to_owned();
                message.append(" failed: ");
                message.append(stderr.as_str());
                Err(message)
            }
        },
    }
}

/// Law: a program that does not end is killed once its time is up, and one that ends is never
/// killed.
pub proof fn law_programs_have_a_hard_limit(elapsed_ns: u128, timeout_ms: u64)
    ensures
        polled(true, elapsed_ns, timeout_ms) == ChildPoll::Exited,
        polled(false, elapsed_ns, timeout_ms) == ChildPoll::TimedOut <==> elapsed_ns >= timeout_ms
            * 1_000_000,
{
}

/// Law: a run fails just where the program could not be run or did not succeed, and its message
/// names the program, with what it wrote to its error output if it ran.
pub proof fn law_a_failed_run_names_its_program(label: Seq<char>, stderr: Seq<char>)
    ensures
        checked(label, RunOutcome::Ran { success: true, stderr }) is None,
        checked(label, RunOutcome::Ran { success: false, stderr }) == Some(
            label + " failed: "@ + stderr,
        ),
        checked(label, RunOutcome::NotRun) == Some("Failed to execute "@ + label),
{
}

/// Law: a program that runs and has time left is looked at again ten milliseconds later, and the
/// message for one that had none names its limit.
pub proof fn law_programs_are_polled(elapsed_ns: u128, timeout_ms: u64)
    ensures
        elapsed_ns < timeout_ms * 1_000_000 ==> polled(false, elapsed_ns, timeout_ms) == (
        ChildPoll::Wait { ms: 10 }),
        timeout_text(timeout_ms) == "command timed out after "@ + decimal(timeout_ms as nat)
            + "ms"@,
{
}

} // verus!
