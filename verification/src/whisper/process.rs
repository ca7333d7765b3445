//! Running a transcription program: which of cancellation, time and exit decides, and what follows.

use vstd::prelude::*;

verus! {

/// Why a program gave no output.
#[derive(Debug, PartialEq, Eq)]
pub enum ProcessError<T> {
    Cancelled,
    TimedOut,
    Other { message: T },
}

impl View for ProcessError<String> {
    type V = ProcessError<Seq<char>>;

    open spec fn view(&self) -> ProcessError<Seq<char>> {
        match *self {
            ProcessError::Cancelled => ProcessError::Cancelled,
            ProcessError::TimedOut => ProcessError::TimedOut,
            ProcessError::Other { message } => ProcessError::Other { message: message@ },
        }
    }
}

impl ProcessError<String> {
    pub open spec fn text(self) -> Seq<char> {
        match self {
            ProcessError::Cancelled => "transcription cancelled"@,
            ProcessError::TimedOut => "command timed out"@,
            ProcessError::Other { message } => message@,
        }
    }

    pub fn message(&self) -> (r: String)
        ensures
            r@ == self.text(),
    {
        match self {
            ProcessError::Cancelled => "transcription cancelled".to_owned(),
            ProcessError::TimedOut => "command timed out".to_owned(),
            ProcessError::Other { message } => message.clone(),
        }
    }
}

/// What is to be done about a program that was started.
#[derive(Debug, PartialEq, Eq)]
pub enum ProcessAction<T> {
    /// Wait until it exits, is cancelled or runs out of time.
    Wait,
    /// Kill it, and wait until it is gone.
    Terminate,
    /// Read what is left of its output, and drop it.
    DrainOutput,
    /// Read its output.
    CollectOutput,
    /// Its output is complete.
    Succeed,
    /// There is no output.
    Fail { error: ProcessError<T> },
}

/// What happened to the program.
#[derive(Debug, PartialEq, Eq)]
pub enum ProcessEvent<T> {
    /// What is known of it after a wait: more than one of these may hold.
    Polled { cancelled: bool, timed_out: bool, exited: Option<Result<(), T>> },
    /// It was killed, or could not be.
    Terminated { result: Result<(), T> },
    /// The rest of its output was dropped.
    Drained,
    /// Its output was read, or could not be.
    Collected { result: Result<(), T> },
}

/// Which comes first where a program has ended and its time is up too.
#[derive(Clone, Copy, Debug, PartialEq, Eq, Structural)]
pub enum Deadline {
    /// The time limit: the program is killed and its output dropped.
    BeforeExit,
    /// The exit: the program's output counts. One that is killed at the limit has run out of time,
    /// whether or not it could be killed.
    AfterExit,
}

/// Where the run of a program stands.
#[derive(Clone, Copy, Debug, PartialEq, Eq, Structural)]
pub enum ProcessState {
    Waiting,
    TerminatingCancelled,
    TerminatingTimedOut,
    DrainingCancelled,
    DrainingTimedOut,
    Collecting,
    Finished,
}

/// The result of a step of the work, by view.
pub open spec fn unit_view(r: Result<(), String>) -> Result<(), Seq<char>> {
    match r {
        Ok(_) => Ok(()),
        Err(error) => Err(error@),
    }
}

impl View for ProcessAction<String> {
    type V = ProcessAction<Seq<char>>;

    open spec fn view(&self) -> ProcessAction<Seq<char>> {
        match *self {
            ProcessAction::Wait => ProcessAction::Wait,
            ProcessAction::Terminate => ProcessAction::Terminate,
            ProcessAction::DrainOutput => ProcessAction::DrainOutput,
            ProcessAction::CollectOutput => ProcessAction::CollectOutput,
            ProcessAction::Succeed => ProcessAction::Succeed,
            ProcessAction::Fail { error } => ProcessAction::Fail { error: error@ },
        }
    }
}

impl View for ProcessEvent<String> {
    type V = ProcessEvent<Seq<char>>;

    open spec fn view(&self) -> ProcessEvent<Seq<char>> {
        match *self {
            ProcessEvent::Polled { cancelled, timed_out, exited } => ProcessEvent::Polled {
                cancelled,
                timed_out,
                exited: match exited {
                    Some(status) => Some(unit_view(status)),
                    None => None,
                },
            },
            ProcessEvent::Terminated { result } => ProcessEvent::Terminated {
                result: unit_view(result),
            },
            ProcessEvent::Drained => ProcessEvent::Drained,
            ProcessEvent::Collected { result } => ProcessEvent::Collected {
                result: unit_view(result),
            },
        }
    }
}

/// The event is one that the state waits for.
pub open spec fn process_expects(state: ProcessState, event: ProcessEvent<Seq<char>>) -> bool {
    match state {
        ProcessState::Waiting => event is Polled,
        ProcessState::TerminatingCancelled => event is Terminated,
        ProcessState::TerminatingTimedOut => event is Terminated,
        ProcessState::DrainingCancelled => event is Drained,
        ProcessState::DrainingTimedOut => event is Drained,
        ProcessState::Collecting => event is Collected,
        ProcessState::Finished => false,
    }
}

/// The end without an output.
pub open spec fn process_failed(message: Seq<char>) -> (ProcessState, ProcessAction<Seq<char>>) {
    (ProcessState::Finished, ProcessAction::Fail { error: ProcessError::Other { message } })
}

/// One step of the run of a program. A cancellation comes before both the time limit and the exit.
pub open spec fn process_step(
    deadline: Deadline,
    state: ProcessState,
    event: ProcessEvent<Seq<char>>,
) -> (ProcessState, ProcessAction<Seq<char>>) {
    match (state, event) {
        (
            ProcessState::Waiting,
            ProcessEvent::Polled { cancelled, timed_out, exited },
        ) => if cancelled {
            (ProcessState::TerminatingCancelled, ProcessAction::Terminate)
        } else if timed_out && (deadline == Deadline::BeforeExit || exited is None) {
            (ProcessState::TerminatingTimedOut, ProcessAction::Terminate)
        } else {
            match exited {
                None => (ProcessState::Waiting, ProcessAction::Wait),
                Some(Ok(_)) => (ProcessState::Collecting, ProcessAction::CollectOutput),
                Some(Err(message)) => process_failed(message),
            }
        },
        (
            ProcessState::TerminatingCancelled,
            ProcessEvent::Terminated { result },
        ) => match result {
            Ok(_) => (ProcessState::DrainingCancelled, ProcessAction::DrainOutput),
            Err(message) => process_failed(message),
        },
        (ProcessState::TerminatingTimedOut, ProcessEvent::Terminated { result }) => match result {
            Err(message) if deadline == Deadline::BeforeExit => process_failed(message),
            _ => (ProcessState::DrainingTimedOut, ProcessAction::DrainOutput),
        },
        (ProcessState::DrainingCancelled, _) => (
            ProcessState::Finished,
            ProcessAction::Fail { error: ProcessError::Cancelled },
        ),
        (ProcessState::DrainingTimedOut, _) => (
            ProcessState::Finished,
            ProcessAction::Fail { error: ProcessError::TimedOut },
        ),
        (ProcessState::Collecting, ProcessEvent::Collected { result }) => match result {
            Ok(_) => (ProcessState::Finished, ProcessAction::Succeed),
            Err(message) => process_failed(message),
        },
        _ => (ProcessState::Finished, ProcessAction::Succeed),
    }
}

/// The run of a program that was started.
pub struct ProcessFlow {
    pub deadline: Deadline,
    pub state: ProcessState,
}

fn fail(message: String) -> (r: (ProcessState, ProcessAction<String>))
    ensures
        (r.0, r.1@) == process_failed(message@),
{
    (ProcessState::Finished, ProcessAction::Fail { error: ProcessError::Other { message } })
}

impl ProcessFlow {
    pub fn new(deadline: Deadline) -> (r: Self)
        ensures
            r.deadline == deadline,
            r.state == ProcessState::Waiting,
    {
        ProcessFlow { deadline, state: ProcessState::Waiting }
    }

    /// The next step.
    pub fn step(&mut self, event: ProcessEvent<String>) -> (r: ProcessAction<String>)
        requires
            process_expects(old(self).state, event@),
        ensures
            final(self).deadline == old(self).deadline,
            (final(self).state, r@) == process_step(old(self).deadline, old(self).state, event@),
    {
        let (state, action): (ProcessState, ProcessAction<String>) = match (self.state, event) {
            (ProcessState::Waiting, ProcessEvent::Polled { cancelled, timed_out, exited }) => {
                if cancelled {
                    (ProcessState::TerminatingCancelled, ProcessAction::Terminate)
                } else if timed_out && (self.deadline == Deadline::BeforeExit || exited.is_none()) {
                    (ProcessState::TerminatingTimedOut, ProcessAction::Terminate)
                } else {
                    match exited {
                        None => (ProcessState::Waiting, ProcessAction::Wait),
                        Some(Ok(_)) => (ProcessState::Collecting, ProcessAction::CollectOutput),
                        Some(Err(message)) => fail(message),
                    }
                }
            },
            (ProcessState::TerminatingCancelled, ProcessEvent::Terminated { result }) => {
                match result {
                    Ok(_) => (ProcessState::DrainingCancelled, ProcessAction::DrainOutput),
                    Err(message) => fail(message),
                }
            },
            (ProcessState::TerminatingTimedOut, ProcessEvent::Terminated { result }) => {
                match result {
                    Err(message) if self.deadline == Deadline::BeforeExit => fail(message),
                    _ => (ProcessState::DrainingTimedOut, ProcessAction::DrainOutput),
                }
            },
            (ProcessState::DrainingCancelled, _) => (
                ProcessState::Finished,
                ProcessAction::Fail { error: ProcessError::Cancelled },
            ),
            (ProcessState::DrainingTimedOut, _) => (
                ProcessState::Finished,
                ProcessAction::Fail { error: ProcessError::TimedOut },
            ),
            (ProcessState::Collecting, ProcessEvent::Collected { result }) => {
                match result {
                    Ok(_) => (ProcessState::Finished, ProcessAction::Succeed),
                    Err(message) => fail(message),
                }
            },
            _ => (ProcessState::Finished, ProcessAction::Succeed),
        };
        self.state = state;
        action
    }
}

/// What came of an attempt to kill a program: one that could not be killed but is gone is gone.
/// `gone` says what was found after a failed attempt.
pub fn terminate_outcome(kill: Result<(), String>, gone: Result<bool, String>) -> (r: Result<
    (),
    String,
>)
    ensures
        match (kill, gone) {
            (Ok(_), _) => r is Ok,
            (Err(_), Err(error)) => r == Err::<(), String>(error),
            (Err(error), Ok(gone)) => if gone {
                r is Ok
            } else {
                r == Err::<(), String>(error)
            },
        },
{
    match kill {
        Ok(_) => Ok(()),
        Err(error) => match gone {
            Err(wait_error) => Err(wait_error),
            Ok(gone) => if gone {
                Ok(())
            } else {
                Err(error)
            },
        },
    }
}

/// The time limit is reached: `elapsed` nanoseconds are no less than its seconds.
pub fn deadline_passed(elapsed: u128, timeout_secs: Option<u64>) -> (r: bool)
    ensures
        r == (timeout_secs matches Some(secs) && elapsed >= secs * 1_000_000_000),
{
    match timeout_secs {
        Some(secs) => elapsed >= secs as u128 * 1_000_000_000,
        None => false,
    }
}

/// Law: a cancelled program never gives an output. Once it is seen to be cancelled it is killed, and
/// the run fails, whether or not it had exited or run out of time.
pub proof fn law_cancellation_comes_first(
    deadline: Deadline,
    timed_out: bool,
    exited: Option<Result<(), Seq<char>>>,
    result: Result<(), Seq<char>>,
)
    ensures
        ({
            let (state, action) = process_step(
                deadline,
                ProcessState::Waiting,
                ProcessEvent::Polled { cancelled: true, timed_out, exited },
            );
            let (next, second) = process_step(
                deadline,
                state,
                ProcessEvent::Terminated { result },
            );
            &&& action is Terminate
            &&& match result {
                Ok(_) => second is DrainOutput && process_step(
                    deadline,
                    next,
                    ProcessEvent::Drained,
                ).1 == (ProcessAction::<Seq<char>>::Fail { error: ProcessError::Cancelled }),
                Err(message) => second == (ProcessAction::<Seq<char>>::Fail {
                    error: ProcessError::Other { message },
                }),
            }
        }),
{
}

/// Law: where the exit comes before the time limit, a program that has ended and is not cancelled is
/// never killed. Its output is read, also when its time is up.
pub proof fn law_an_exit_can_come_before_the_deadline(timed_out: bool)
    ensures
        process_step(
            Deadline::AfterExit,
            ProcessState::Waiting,
            ProcessEvent::Polled { cancelled: false, timed_out, exited: Some(Ok(())) },
        ) == (ProcessState::Collecting, ProcessAction::<Seq<char>>::CollectOutput),
{
}

/// Law: a program that has not ended when its time is up is killed, and the run fails for want of
/// time.
pub proof fn law_a_program_runs_out_of_time(deadline: Deadline)
    ensures
        ({
            let (state, action) = process_step(
                deadline,
                ProcessState::Waiting,
                ProcessEvent::Polled { cancelled: false, timed_out: true, exited: None },
            );
            let (next, second) = process_step(
                deadline,
                state,
                ProcessEvent::Terminated { result: Ok(()) },
            );
            &&& action is Terminate
            &&& second is DrainOutput
            &&& process_step(deadline, next, ProcessEvent::Drained).1 == (
            ProcessAction::<Seq<char>>::Fail { error: ProcessError::TimedOut })
        }),
{
}

/// Law: a program that is neither cancelled nor out of time is waited for until it exits; then its
/// output is read, unless it failed, and then its message is told.
pub proof fn law_a_program_is_waited_for(deadline: Deadline, message: Seq<char>)
    ensures
        ({
            let nothing = ProcessEvent::<Seq<char>>::Polled {
                cancelled: false,
                timed_out: false,
                exited: None,
            };
            let (waiting, wait) = process_step(deadline, ProcessState::Waiting, nothing);
            let (collecting, collect) = process_step(
                deadline,
                waiting,
                ProcessEvent::Polled { cancelled: false, timed_out: false, exited: Some(Ok(())) },
            );
            &&& wait is Wait
            &&& waiting == ProcessState::Waiting
            &&& collect is CollectOutput
            &&& process_step(
                deadline,
                collecting,
                ProcessEvent::Collected { result: Ok(()) },
            ).1 == ProcessAction::<Seq<char>>::Succeed
            &&& process_step(
                deadline,
                collecting,
                ProcessEvent::Collected { result: Err(message) },
            ).1 == (ProcessAction::<Seq<char>>::Fail { error: ProcessError::Other { message } })
            &&& process_step(
                deadline,
                waiting,
                ProcessEvent::Polled {
                    cancelled: false,
                    timed_out: false,
                    exited: Some(Err(message)),
                },
            ).1 == (ProcessAction::<Seq<char>>::Fail { error: ProcessError::Other { message } })
        }),
{
}

/// Law: a run succeeds only once the output of a program that exited by itself was read. Nothing
/// else ends it with success.
pub proof fn law_success_needs_the_output(
    deadline: Deadline,
    state: ProcessState,
    event: ProcessEvent<Seq<char>>,
    answer: ProcessEvent<Seq<char>>,
)
    requires
        process_expects(state, event),
        process_expects(process_step(deadline, state, event).0, answer),
    ensures
        process_step(deadline, process_step(deadline, state, event).0, answer).1 is Succeed ==>
            process_step(deadline, state, event).1 is CollectOutput && (answer matches
            ProcessEvent::Collected { result } && result is Ok),
        process_step(deadline, state, event).1 is CollectOutput ==> (event matches
            ProcessEvent::Polled { cancelled, exited, .. } && !cancelled && exited is Some
            && exited->Some_0 is Ok),
{
}

/// Law: where the time limit comes before the exit, a program whose time is up is killed though it
/// has ended, and one that cannot be killed fails with what stopped that; where the exit comes
/// first, one that has ended is told of as it ended, and one that is killed has run out of time
/// whether or not that worked.
pub proof fn law_the_deadline_decides_the_order(
    exited: Option<Result<(), Seq<char>>>,
    message: Seq<char>,
)
    ensures
        ({
            let late = ProcessEvent::Polled { cancelled: false, timed_out: true, exited };
            let stuck = ProcessEvent::<Seq<char>>::Terminated { result: Err(message) };
            let (killing, kill) = process_step(Deadline::BeforeExit, ProcessState::Waiting, late);
            let (after, seen) = process_step(Deadline::AfterExit, ProcessState::Waiting, late);
            &&& kill is Terminate
            &&& process_step(Deadline::BeforeExit, killing, stuck).1 == (ProcessAction::<
                Seq<char>,
            >::Fail { error: ProcessError::Other { message } })
            &&& exited == Some(Err::<(), Seq<char>>(message)) ==> seen == (ProcessAction::<
                Seq<char>,
            >::Fail { error: ProcessError::Other { message } })
            &&& exited is None ==> seen is Terminate && {
                let (draining, drain) = process_step(Deadline::AfterExit, after, stuck);
                drain is DrainOutput && process_step(
                    Deadline::AfterExit,
                    draining,
                    ProcessEvent::Drained,
                ).1 == (ProcessAction::<Seq<char>>::Fail { error: ProcessError::TimedOut })
            }
        }),
{
}

/// Law: what is told of a run without an output.
pub proof fn law_a_run_without_output_says_why(error: ProcessError<String>)
    ensures
        match error {
            ProcessError::Cancelled => error.text() == "transcription cancelled"@,
            ProcessError::TimedOut => error.text() == "command timed out"@,
            ProcessError::Other { message } => error.text() == message@,
        },
{
}

} // verus!
