//! Cancellation of utterances. Each recording session has a token, and all tokens are kept in one
//! ledger, so that a cancellation and a delivery that race for a session are decided in one place.

use vstd::prelude::*;

verus! {

/// What has become of a session.
#[derive(Clone, Copy, Debug, PartialEq, Eq, Structural)]
pub enum TokenState {
    Active,
    Cancelled,
    Committed,
}

/// The states of all sessions, by their number.
pub struct SessionStates {
    states: Vec<TokenState>,
}

impl View for SessionStates {
    type V = Seq<TokenState>;

    closed spec fn view(&self) -> Seq<TokenState> {
        self.states@
    }
}

impl SessionStates {
    /// The ledger before the first session.
    pub fn new() -> (r: Self)
        ensures
            r@ == Seq::<TokenState>::empty(),
    {
        SessionStates { states: Vec::new() }
    }
}

impl Default for SessionStates {
    fn default() -> (r: Self)
        ensures
            r@ == Seq::<TokenState>::empty(),
    {
        SessionStates::new()
    }
}

/// The token of one session. Copies of it stand for the same session.
#[derive(Clone, Copy, Debug, PartialEq, Eq, Structural)]
pub struct CancellationToken {
    session: usize,
}

/// The ledger after an attempt to cancel: a session that is committed stays committed.
pub open spec fn cancelled(states: Seq<TokenState>, id: int) -> Seq<TokenState> {
    if states[id] == TokenState::Active {
        states.update(id, TokenState::Cancelled)
    } else {
        states
    }
}

/// The ledger after an attempt to commit: a session that is cancelled stays cancelled.
pub open spec fn committed(states: Seq<TokenState>, id: int) -> Seq<TokenState> {
    if states[id] == TokenState::Active {
        states.update(id, TokenState::Committed)
    } else {
        states
    }
}

impl CancellationToken {
    /// The number of the session.
    pub closed spec fn id(self) -> int {
        self.session as int
    }

    /// The session is in the ledger.
    pub open spec fn known(self, states: Seq<TokenState>) -> bool {
        0 <= self.id() < states.len()
    }

    /// Opens a session.
    pub fn new(sessions: &mut SessionStates) -> (r: Self)
        ensures
            final(sessions)@ == old(sessions)@.push(TokenState::Active),
            r.id() == old(sessions)@.len(),
            r.known(final(sessions)@),
    {
        let session: usize = sessions.states.len();
        sessions.states.push(TokenState::Active);
        CancellationToken { session }
    }

    /// Cancels the session. False if its text is already being delivered.
    pub fn cancel(&self, sessions: &mut SessionStates) -> (r: bool)
        requires
            self.known(old(sessions)@),
        ensures
            final(sessions)@ == cancelled(old(sessions)@, self.id()),
            r == (old(sessions)@[self.id()] != TokenState::Committed),
    {
        match sessions.states[self.session] {
            TokenState::Active => {
                sessions.states.set(self.session, TokenState::Cancelled);
                true
            },
            TokenState::Cancelled => true,
            TokenState::Committed => false,
        }
    }

    /// True if the session was cancelled.
    pub fn is_cancelled(&self, sessions: &SessionStates) -> (r: bool)
        requires
            self.known(sessions@),
        ensures
            r == (sessions@[self.id()] == TokenState::Cancelled),
    {
        sessions.states[self.session] == TokenState::Cancelled
    }

    /// Claims the session for the delivery of its text. True for the first claim on a session that
    /// was not cancelled.
    pub fn try_commit(&self, sessions: &mut SessionStates) -> (r: bool)
        requires
            self.known(old(sessions)@),
        ensures
            final(sessions)@ == committed(old(sessions)@, self.id()),
            r == (old(sessions)@[self.id()] == TokenState::Active),
    {
        match sessions.states[self.session] {
            TokenState::Active => {
                sessions.states.set(self.session, TokenState::Committed);
                true
            },
            _ => false,
        }
    }

    /// True if both tokens stand for the same session.
    pub fn same_session(&self, other: &Self) -> (r: bool)
        ensures
            r == (self.id() == other.id()),
            r == (*self == *other),
    {
        self.session == other.session
    }
}

/// Law: two tokens stand for the same session exactly when they are equal.
pub proof fn law_a_token_is_its_session(a: CancellationToken, b: CancellationToken)
    ensures
        a == b <==> a.id() == b.id(),
{
}

/// An attempt to cancel or to commit a session.
pub enum Attempt {
    Cancel { id: int },
    Commit { id: int },
}

/// The ledger after attempts in some order.
pub open spec fn after(states: Seq<TokenState>, attempts: Seq<Attempt>) -> Seq<TokenState>
    decreases attempts.len(),
{
    if attempts.len() == 0 {
        states
    } else {
        let before = after(states, attempts.drop_last());
        match attempts.last() {
            Attempt::Cancel { id } => if 0 <= id < states.len() {
                cancelled(before, id)
            } else {
                before
            },
            Attempt::Commit { id } => if 0 <= id < states.len() {
                committed(before, id)
            } else {
                before
            },
        }
    }
}

/// Law: the race between a cancellation and a delivery is decided once. Whatever is attempted
/// later, a session that was cancelled stays cancelled and one that was committed stays committed.
pub proof fn law_the_first_claim_wins(states: Seq<TokenState>, attempts: Seq<Attempt>, id: int)
    requires
        0 <= id < states.len(),
    ensures
        after(states, attempts).len() == states.len(),
        states[id] != TokenState::Active ==> after(states, attempts)[id] == states[id],
    decreases attempts.len(),
{
    if attempts.len() > 0 {
        law_the_first_claim_wins(states, attempts.drop_last(), id);
    }
}

/// Law: a session can be cancelled or committed, but never both. After a cancellation that
/// succeeds every commit fails, and after a commit that succeeds every cancellation fails.
pub proof fn law_cancel_and_commit_exclude_each_other(
    states: Seq<TokenState>,
    attempts: Seq<Attempt>,
    id: int,
)
    requires
        0 <= id < states.len(),
    ensures
        states[id] != TokenState::Committed ==> after(cancelled(states, id), attempts)[id]
            == TokenState::Cancelled,
        states[id] == TokenState::Active ==> after(committed(states, id), attempts)[id]
            == TokenState::Committed,
{
    law_the_first_claim_wins(cancelled(states, id), attempts, id);
    law_the_first_claim_wins(committed(states, id), attempts, id);
}

/// Law: an attempt on one session leaves every other one as it is.
pub proof fn law_sessions_are_independent(states: Seq<TokenState>, id: int, other: int)
    requires
        0 <= id < states.len(),
        0 <= other < states.len(),
        id != other,
    ensures
        cancelled(states, id)[other] == states[other],
        committed(states, id)[other] == states[other],
{
}

} // verus!
