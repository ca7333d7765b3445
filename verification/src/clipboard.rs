//! Copying to the clipboard, with a helper program where the clipboard itself cannot be reached.

use vstd::prelude::*;

verus! {

/// Copies text to the clipboard.
pub struct ClipboardManager {
    pub preserve_previous: bool,
}

impl ClipboardManager {
    pub fn new() -> (r: Self)
        ensures
            !r.preserve_previous,
    {
        ClipboardManager { preserve_previous: false }
    }

    pub fn with_preserve(self, preserve: bool) -> (r: Self)
        ensures
            r.preserve_previous == preserve,
    {
        ClipboardManager { preserve_previous: preserve }
    }
}

/// What is to be done to copy a text.
#[derive(Debug, PartialEq, Eq)]
pub enum ClipboardAction<T> {
    /// Read what the clipboard holds.
    ReadPrevious,
    /// Put the text on the clipboard.
    SetText,
    /// Start `wl-copy`.
    SpawnHelper,
    /// Hand the text to it.
    WriteHelper,
    /// Kill it, and wait until it is gone.
    KillHelper,
    /// Wait until it ends.
    WaitHelper,
    /// The copy is over; the message says what failed.
    Finish { result: Result<(), T> },
}

/// What came of it.
#[derive(Debug, PartialEq, Eq)]
pub enum ClipboardEvent<T> {
    Done,
    Failed { error: T },
    /// The helper ended; its status is given as text.
    Exited { success: bool, status: T },
}

/// Where the copy stands.
pub enum ClipboardState<T> {
    Begin,
    ReadingPrevious,
    Setting,
    Spawning,
    Writing,
    /// The helper is being killed, and then this is what failed.
    Killing { error: T },
    Waiting,
    Finished,
}

/// The result of a copy, by view.
pub open spec fn done_view(r: Result<(), String>) -> Result<(), Seq<char>> {
    match r {
        Ok(_) => Ok(()),
        Err(error) => Err(error@),
    }
}

impl View for ClipboardAction<String> {
    type V = ClipboardAction<Seq<char>>;

    open spec fn view(&self) -> ClipboardAction<Seq<char>> {
        match *self {
            ClipboardAction::ReadPrevious => ClipboardAction::ReadPrevious,
            ClipboardAction::SetText => ClipboardAction::SetText,
            ClipboardAction::SpawnHelper => ClipboardAction::SpawnHelper,
            ClipboardAction::WriteHelper => ClipboardAction::WriteHelper,
            ClipboardAction::KillHelper => ClipboardAction::KillHelper,
            ClipboardAction::WaitHelper => ClipboardAction::WaitHelper,
            ClipboardAction::Finish { result } => ClipboardAction::Finish {
                result: done_view(result),
            },
        }
    }
}

impl View for ClipboardEvent<String> {
    type V = ClipboardEvent<Seq<char>>;

    open spec fn view(&self) -> ClipboardEvent<Seq<char>> {
        match *self {
            ClipboardEvent::Done => ClipboardEvent::Done,
            ClipboardEvent::Failed { error } => ClipboardEvent::Failed { error: error@ },
            ClipboardEvent::Exited { success, status } => ClipboardEvent::Exited {
                success,
                status: status@,
            },
        }
    }
}

impl View for ClipboardState<String> {
    type V = ClipboardState<Seq<char>>;

    open spec fn view(&self) -> ClipboardState<Seq<char>> {
        match *self {
            ClipboardState::Begin => ClipboardState::Begin,
            ClipboardState::ReadingPrevious => ClipboardState::ReadingPrevious,
            ClipboardState::Setting => ClipboardState::Setting,
            ClipboardState::Spawning => ClipboardState::Spawning,
            ClipboardState::Writing => ClipboardState::Writing,
            ClipboardState::Killing { error } => ClipboardState::Killing { error: error@ },
            ClipboardState::Waiting => ClipboardState::Waiting,
            ClipboardState::Finished => ClipboardState::Finished,
        }
    }
}

/// The event is one that the state waits for.
pub open spec fn clipboard_expects(
    state: ClipboardState<Seq<char>>,
    event: ClipboardEvent<Seq<char>>,
) -> bool {
    match state {
        ClipboardState::Begin => event is Done,
        ClipboardState::Waiting => event is Exited || event is Failed,
        ClipboardState::Finished => false,
        _ => event is Done || event is Failed,
    }
}

/// The end of a copy.
pub open spec fn clipboard_end(result: Result<(), Seq<char>>) -> (
    ClipboardState<Seq<char>>,
    ClipboardAction<Seq<char>>,
) {
    (ClipboardState::Finished, ClipboardAction::Finish { result })
}

/// How a text is copied.
#[derive(Clone, Copy, Debug, PartialEq, Eq, Structural)]
pub struct CopyPlan {
    /// There is nothing to copy.
    pub empty: bool,
    /// The clipboard is read first.
    pub preserve: bool,
    /// Where the clipboard cannot be reached, `wl-copy` is used.
    pub fallback: bool,
}

/// One step of a copy. An empty text is not copied; where the clipboard cannot be reached, a helper
/// is used if the plan has one.
pub open spec fn clipboard_step(
    plan: CopyPlan,
    state: ClipboardState<Seq<char>>,
    event: ClipboardEvent<Seq<char>>,
) -> (ClipboardState<Seq<char>>, ClipboardAction<Seq<char>>) {
    match (state, event) {
        (ClipboardState::Begin, _) => if plan.empty {
            clipboard_end(Ok(()))
        } else if plan.preserve {
            (ClipboardState::ReadingPrevious, ClipboardAction::ReadPrevious)
        } else {
            (ClipboardState::Setting, ClipboardAction::SetText)
        },
        (ClipboardState::ReadingPrevious, _) => (ClipboardState::Setting, ClipboardAction::SetText),
        (ClipboardState::Setting, ClipboardEvent::Failed { error }) => if plan.fallback {
            (ClipboardState::Spawning, ClipboardAction::SpawnHelper)
        } else {
            clipboard_end(Err(error))
        },
        (ClipboardState::Spawning, ClipboardEvent::Failed { error }) => clipboard_end(Err(error)),
        (ClipboardState::Spawning, _) => (ClipboardState::Writing, ClipboardAction::WriteHelper),
        (ClipboardState::Writing, ClipboardEvent::Failed { error }) => (
            ClipboardState::Killing { error },
            ClipboardAction::KillHelper,
        ),
        (ClipboardState::Writing, _) => (ClipboardState::Waiting, ClipboardAction::WaitHelper),
        (ClipboardState::Killing { error }, _) => clipboard_end(Err(error)),
        (ClipboardState::Waiting, ClipboardEvent::Exited { success, status }) => clipboard_end(
            if success {
                Ok(())
            } else {
                Err("wl-copy failed with status "@ + status)
            },
        ),
        (ClipboardState::Waiting, ClipboardEvent::Failed { error }) => clipboard_end(Err(error)),
        _ => clipboard_end(Ok(())),
    }
}

/// A copy of a text to the clipboard.
pub struct ClipboardFlow {
    plan: CopyPlan,
    state: ClipboardState<String>,
}

fn end(plan: CopyPlan, result: Result<(), String>) -> (r: (
    ClipboardFlow,
    ClipboardAction<String>,
))
    ensures
        r.0.plan() == plan,
        (r.0.state(), r.1@) == clipboard_end(done_view(result)),
{
    (
        ClipboardFlow { plan, state: ClipboardState::Finished },
        ClipboardAction::Finish { result },
    )
}

impl ClipboardManager {
    /// Copies a text: the steps of it.
    pub fn copy_text(&self, text: &str) -> (r: ClipboardFlow)
        ensures
            r.plan() == (CopyPlan {
                empty: text@.len() == 0,
                preserve: self.preserve_previous,
                fallback: false,
            }),
            r.state() == ClipboardState::<Seq<char>>::Begin,
    {
        ClipboardFlow {
            plan: CopyPlan {
                empty: text.is_empty(),
                preserve: self.preserve_previous,
                fallback: false,
            },
            state: ClipboardState::Begin,
        }
    }

    /// Copies a text, with `wl-copy` where the clipboard cannot be reached: the steps of it.
    pub fn copy_with_wayland_fallback(&self, text: &str) -> (r: ClipboardFlow)
        ensures
            r.plan() == (CopyPlan {
                empty: text@.len() == 0,
                preserve: self.preserve_previous,
                fallback: true,
            }),
            r.state() == ClipboardState::<Seq<char>>::Begin,
    {
        ClipboardFlow {
            plan: CopyPlan {
                empty: text.is_empty(),
                preserve: self.preserve_previous,
                fallback: true,
            },
            state: ClipboardState::Begin,
        }
    }
}

impl ClipboardFlow {
    pub closed spec fn plan(&self) -> CopyPlan {
        self.plan
    }

    pub closed spec fn state(&self) -> ClipboardState<Seq<char>> {
        self.state@
    }

    /// The next step.
    pub fn step(self, event: ClipboardEvent<String>) -> (r: (Self, ClipboardAction<String>))
        requires
            clipboard_expects(self.state(), event@),
        ensures
            (r.0.state(), r.1@) == clipboard_step(self.plan(), self.state(), event@),
            r.0.plan() == self.plan(),
    {
        let ClipboardFlow { plan, state } = self;
        match (state, event) {
            (ClipboardState::Begin, _) => {
                if plan.empty {
                    end(plan, Ok(()))
                } else if plan.preserve {
                    (
                        ClipboardFlow { plan, state: ClipboardState::ReadingPrevious },
                        ClipboardAction::ReadPrevious,
                    )
                } else {
                    (
                        ClipboardFlow { plan, state: ClipboardState::Setting },
                        ClipboardAction::SetText,
                    )
                }
            },
            (ClipboardState::ReadingPrevious, _) => (
                ClipboardFlow { plan, state: ClipboardState::Setting },
                ClipboardAction::SetText,
            ),
            (ClipboardState::Setting, ClipboardEvent::Failed { error }) => {
                if plan.fallback {
                    (
                        ClipboardFlow { plan, state: ClipboardState::Spawning },
                        ClipboardAction::SpawnHelper,
                    )
                } else {
                    end(plan, Err(error))
                }
            },
            (ClipboardState::Spawning, ClipboardEvent::Failed { error }) => end(plan, Err(error)),
            (ClipboardState::Spawning, _) => (
                ClipboardFlow { plan, state: ClipboardState::Writing },
                ClipboardAction::WriteHelper,
            ),
            (ClipboardState::Writing, ClipboardEvent::Failed { error }) => (
                ClipboardFlow { plan, state: ClipboardState::Killing { error } },
                ClipboardAction::KillHelper,
            ),
            (ClipboardState::Writing, _) => (
                ClipboardFlow { plan, state: ClipboardState::Waiting },
                ClipboardAction::WaitHelper,
            ),
            (ClipboardState::Killing { error }, _) => end(plan, Err(error)),
            (ClipboardState::Waiting, ClipboardEvent::Exited { success, status }) => {
                if success {
                    end(plan, Ok(()))
                } else {
                    let mut message = "wl-copy failed with status ".to_owned();
                    message.append(status.as_str());
                    end(plan, Err(message))
                }
            },
            (ClipboardState::Waiting, ClipboardEvent::Failed { error }) => end(plan, Err(error)),
            _ => end(plan, Ok(())),
        }
    }
}

/// Law: the helper is started only where the clipboard itself could not be reached, and a helper
/// that does not take the text is killed before the copy ends.
pub proof fn law_the_helper_is_a_fallback(
    plan: CopyPlan,
    state: ClipboardState<Seq<char>>,
    event: ClipboardEvent<Seq<char>>,
)
    requires
        clipboard_expects(state, event),
    ensures
        clipboard_step(plan, state, event).1 is SpawnHelper <==> (state is Setting
            && event is Failed && plan.fallback),
        state is Writing && event is Failed ==> clipboard_step(plan, state, event).1 is KillHelper,
{
}

/// Law: a copy begins with a look at the clipboard where that is wanted, and else by setting the
/// text; of an empty text nothing is copied.
pub proof fn law_a_copy_sets_the_text(plan: CopyPlan, event: ClipboardEvent<Seq<char>>)
    ensures
        ({
            let (next, action) = clipboard_step(
                plan,
                ClipboardState::Begin,
                ClipboardEvent::<Seq<char>>::Done,
            );
            &&& plan.empty ==> action == (ClipboardAction::<Seq<char>>::Finish { result: Ok(()) })
            &&& !plan.empty && !plan.preserve ==> action == ClipboardAction::<Seq<char>>::SetText
            &&& !plan.empty && plan.preserve ==> action == ClipboardAction::<
                Seq<char>,
            >::ReadPrevious && clipboard_step(plan, next, event).1 == ClipboardAction::<
                Seq<char>,
            >::SetText
        }),
{
}

/// Law: a copy succeeds just when the clipboard took the text or the helper did. What each action
/// came to decides what follows, and a failure that nothing makes good is the one that is told.
pub proof fn law_a_copy_succeeds_when_it_was_taken(
    plan: CopyPlan,
    state: ClipboardState<Seq<char>>,
    event: ClipboardEvent<Seq<char>>,
    error: Seq<char>,
    status: Seq<char>,
)
    requires
        clipboard_expects(state, event),
    ensures
        ({
            let (next, action) = clipboard_step(plan, state, event);
            let done = clipboard_step(plan, next, ClipboardEvent::Done).1;
            let failed = clipboard_step(plan, next, ClipboardEvent::Failed { error }).1;
            let ok = ClipboardAction::<Seq<char>>::Finish { result: Ok(()) };
            let broken = ClipboardAction::<Seq<char>>::Finish { result: Err(error) };
            &&& action is SetText ==> done == ok && failed == (if plan.fallback {
                ClipboardAction::<Seq<char>>::SpawnHelper
            } else {
                broken
            })
            &&& action is SpawnHelper ==> done is WriteHelper && failed == broken
            &&& action is WriteHelper ==> done is WaitHelper && failed is KillHelper
                && clipboard_step(
                plan,
                clipboard_step(plan, next, ClipboardEvent::Failed { error }).0,
                ClipboardEvent::Done,
            ).1 == broken
            &&& action is WaitHelper ==> failed == broken && clipboard_step(
                plan,
                next,
                ClipboardEvent::Exited { success: true, status },
            ).1 == ok && clipboard_step(
                plan,
                next,
                ClipboardEvent::Exited { success: false, status },
            ).1 == (ClipboardAction::<Seq<char>>::Finish {
                result: Err("wl-copy failed with status "@ + status),
            })
        }),
{
}

} // verus!
