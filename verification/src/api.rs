//! The lifecycle of the daemon, and how requests to start, stop, toggle and cancel change it.
//!
//! A request that needs the daemon's work first reserves it: the lifecycle moves on and a command
//! is handed out. The caller puts the command on its queue, without letting go of the lifecycle,
//! and settles the reservation with whether that succeeded.

use crate::cancellation::{
    cancelled, law_a_token_is_its_session, CancellationToken, SessionStates, TokenState,
};
use crate::config::WaybarConfig;
use crate::text::str_eq;
use vstd::prelude::*;

verus! {

#[derive(Clone, Copy, Debug, PartialEq, Eq, Structural)]
pub enum ApiCommandSource {
    Start,
    Stop,
    Toggle,
}

/// What the daemon is told to do, and for which session.
#[derive(Clone, Copy, Debug, PartialEq, Eq, Structural)]
pub enum RecordingCommand {
    Start(ApiCommandSource, CancellationToken),
    Stop(ApiCommandSource, CancellationToken),
    Cancel(CancellationToken),
}

#[derive(Clone, Copy, Debug, PartialEq, Eq, Structural)]
pub enum AppStatus {
    Idle,
    Recording,
    Processing,
}

/// What the daemon is doing, and for which session.
#[derive(Clone, Copy, Debug, PartialEq, Eq, Structural)]
pub enum AppLifecycle {
    Idle,
    Recording(CancellationToken),
    Processing(CancellationToken),
}

#[derive(Clone, Copy, Debug, PartialEq, Eq, Structural)]
pub enum RecordingRequest {
    Start,
    Stop,
    Toggle,
}

/// The answer to a request.
#[derive(Clone, Copy, Debug)]
pub struct ReservationOutcome {
    pub success: bool,
    pub message: &'static str,
    pub status: AppStatus,
}

/// A command could not be queued.
#[derive(Clone, Copy, Debug, PartialEq, Eq, Structural)]
pub struct Unavailable;

/// A command to queue, and the lifecycle to go back to where that fails.
#[derive(Clone, Copy, Debug, PartialEq, Eq, Structural)]
pub struct Reservation {
    pub command: Option<RecordingCommand>,
    pub rollback: AppLifecycle,
}

impl AppStatus {
    pub open spec fn name(self) -> Seq<char> {
        match self {
            AppStatus::Idle => "idle"@,
            AppStatus::Recording => "recording"@,
            AppStatus::Processing => "processing"@,
        }
    }

    pub fn as_str(self) -> (r: &'static str)
        ensures
            r@ == self.name(),
    {
        match self {
            AppStatus::Idle => "idle",
            AppStatus::Recording => "recording",
            AppStatus::Processing => "processing",
        }
    }
}

/// The status of a lifecycle.
pub open spec fn status_of(lifecycle: AppLifecycle) -> AppStatus {
    match lifecycle {
        AppLifecycle::Idle => AppStatus::Idle,
        AppLifecycle::Recording(_) => AppStatus::Recording,
        AppLifecycle::Processing(_) => AppStatus::Processing,
    }
}

impl AppLifecycle {
    /// The session of the lifecycle is in the ledger.
    pub open spec fn known(self, states: Seq<TokenState>) -> bool {
        match self {
            AppLifecycle::Idle => true,
            AppLifecycle::Recording(token) => token.known(states),
            AppLifecycle::Processing(token) => token.known(states),
        }
    }

    pub fn status(&self) -> (r: AppStatus)
        ensures
            r == status_of(*self),
    {
        match self {
            AppLifecycle::Idle => AppStatus::Idle,
            AppLifecycle::Recording(_) => AppStatus::Recording,
            AppLifecycle::Processing(_) => AppStatus::Processing,
        }
    }
}

/// The source that a request's command is marked with.
pub open spec fn source_of(request: RecordingRequest) -> ApiCommandSource {
    match request {
        RecordingRequest::Start => ApiCommandSource::Start,
        RecordingRequest::Stop => ApiCommandSource::Stop,
        RecordingRequest::Toggle => ApiCommandSource::Toggle,
    }
}

impl RecordingRequest {
    pub fn command_source(self) -> (r: ApiCommandSource)
        ensures
            r == source_of(self),
    {
        match self {
            RecordingRequest::Start => ApiCommandSource::Start,
            RecordingRequest::Stop => ApiCommandSource::Stop,
            RecordingRequest::Toggle => ApiCommandSource::Toggle,
        }
    }
}

/// The request opens a session.
pub open spec fn opens(lifecycle: AppLifecycle, request: RecordingRequest) -> bool {
    lifecycle == AppLifecycle::Idle && request != RecordingRequest::Stop
}

/// The lifecycle that a request reserves, where `fresh` is the session that it opens.
pub open spec fn reserved(
    lifecycle: AppLifecycle,
    request: RecordingRequest,
    fresh: CancellationToken,
) -> AppLifecycle {
    match lifecycle {
        AppLifecycle::Idle if request != RecordingRequest::Stop => AppLifecycle::Recording(fresh),
        AppLifecycle::Recording(
            token,
        ) if request != RecordingRequest::Start => AppLifecycle::Processing(token),
        other => other,
    }
}

/// The command that a request hands out.
pub open spec fn command_for(
    lifecycle: AppLifecycle,
    request: RecordingRequest,
    fresh: CancellationToken,
) -> Option<RecordingCommand> {
    match lifecycle {
        AppLifecycle::Idle if request != RecordingRequest::Stop => Some(
            RecordingCommand::Start(source_of(request), fresh),
        ),
        AppLifecycle::Recording(token) if request != RecordingRequest::Start => Some(
            RecordingCommand::Stop(source_of(request), token),
        ),
        _ => None,
    }
}

/// A toggle is refused while the daemon processes, for then it hands out no command. Every other
/// request succeeds, also a toggle that stops a recording and so leaves the daemon processing.
pub open spec fn succeeds(
    request: RecordingRequest,
    reservation: Reservation,
    status: AppStatus,
) -> bool {
    !(request == RecordingRequest::Toggle && reservation.command is None && status
        == AppStatus::Processing)
}

/// What a request is answered.
pub open spec fn message_for(request: RecordingRequest, success: bool) -> Seq<char> {
    match request {
        RecordingRequest::Start => "Recording started"@,
        RecordingRequest::Stop => "Recording stopped"@,
        RecordingRequest::Toggle => if success {
            "Recording toggled"@
        } else {
            "Previous recording is still processing"@
        },
    }
}

/// Reserves what a request asks for. A request that fits the lifecycle moves it on and hands out a
/// command; any other one changes nothing.
pub fn reserve_recording_command(
    lifecycle: &mut AppLifecycle,
    sessions: &mut SessionStates,
    request: RecordingRequest,
) -> (r: Reservation)
    requires
        old(lifecycle).known(old(sessions)@),
    ensures
        final(sessions)@ == (if opens(*old(lifecycle), request) {
            old(sessions)@.push(TokenState::Active)
        } else {
            old(sessions)@
        }),
        exists|fresh: CancellationToken|
            #![trigger reserved(*old(lifecycle), request, fresh)]
            {
                &&& opens(*old(lifecycle), request) ==> fresh.id() == old(sessions)@.len()
                &&& *final(lifecycle) == reserved(*old(lifecycle), request, fresh)
                &&& r.command == command_for(*old(lifecycle), request, fresh)
            },
        r.rollback == *old(lifecycle),
        final(lifecycle).known(final(sessions)@),
{
    let before = *lifecycle;
    match before {
        AppLifecycle::Idle => {
            if request == RecordingRequest::Stop {
                assert(*lifecycle == reserved(before, request, arbitrary()));
                Reservation { command: None, rollback: before }
            } else {
                let token = CancellationToken::new(sessions);
                *lifecycle = AppLifecycle::Recording(token);
                assert(*lifecycle == reserved(before, request, token));
                Reservation {
                    command: Some(RecordingCommand::Start(request.command_source(), token)),
                    rollback: before,
                }
            }
        },
        AppLifecycle::Recording(token) => {
            if request == RecordingRequest::Start {
                assert(*lifecycle == reserved(before, request, token));
                Reservation { command: None, rollback: before }
            } else {
                *lifecycle = AppLifecycle::Processing(token);
                assert(*lifecycle == reserved(before, request, token));
                Reservation {
                    command: Some(RecordingCommand::Stop(request.command_source(), token)),
                    rollback: before,
                }
            }
        },
        AppLifecycle::Processing(token) => {
            assert(*lifecycle == reserved(before, request, token));
            Reservation { command: None, rollback: before }
        },
    }
}

/// Settles a reservation: `queued` says whether its command was queued, and is not looked at where
/// there is none. A command that was not queued undoes the reservation.
pub fn settle_recording_command(
    lifecycle: &mut AppLifecycle,
    request: RecordingRequest,
    reservation: Reservation,
    queued: bool,
) -> (r: Result<ReservationOutcome, Unavailable>)
    ensures
        (r is Err) == (reservation.command is Some && !queued),
        *final(lifecycle) == (if r is Err {
            reservation.rollback
        } else {
            *old(lifecycle)
        }),
        r matches Ok(outcome) ==> {
            &&& outcome.status == status_of(*old(lifecycle))
            &&& outcome.success == succeeds(request, reservation, outcome.status)
            &&& outcome.message@ == message_for(request, outcome.success)
        },
{
    let handed_out = reservation.command.is_some();
    if handed_out && !queued {
        *lifecycle = reservation.rollback;
        return Err(Unavailable);
    }
    let status = lifecycle.status();
    let success = !(request == RecordingRequest::Toggle && !handed_out && status
        == AppStatus::Processing);
    let message = match request {
        RecordingRequest::Start => "Recording started",
        RecordingRequest::Stop => "Recording stopped",
        RecordingRequest::Toggle => if success {
            "Recording toggled"
        } else {
            "Previous recording is still processing"
        },
    };
    Ok(ReservationOutcome { success, message, status })
}

/// The command that a cancellation hands out: only a running recording has work to tear down.
pub open spec fn cancel_command_for(lifecycle: AppLifecycle) -> Option<RecordingCommand> {
    match lifecycle {
        AppLifecycle::Recording(token) => Some(RecordingCommand::Cancel(token)),
        _ => None,
    }
}

/// The command that a cancellation hands out: only a running recording has work to tear down.
pub fn reserve_cancel_command(lifecycle: &AppLifecycle) -> (r: Option<RecordingCommand>)
    ensures
        r == cancel_command_for(*lifecycle),
{
    match lifecycle {
        AppLifecycle::Recording(token) => Some(RecordingCommand::Cancel(*token)),
        _ => None,
    }
}

/// The cancellation comes too late: the text of the session is being delivered.
pub open spec fn too_late(lifecycle: AppLifecycle, states: Seq<TokenState>) -> bool {
    match lifecycle {
        AppLifecycle::Processing(token) => states[token.id()] == TokenState::Committed,
        _ => false,
    }
}

/// Settles a cancellation: `queued` says whether its command was queued, and is not looked at where
/// there is none. The session of a recording, or of one that is processed, is cancelled and the
/// daemon is idle at once, unless the command was not queued or it is too late.
pub fn settle_cancel_command(
    lifecycle: &mut AppLifecycle,
    sessions: &mut SessionStates,
    queued: bool,
) -> (r: Result<ReservationOutcome, Unavailable>)
    requires
        old(lifecycle).known(old(sessions)@),
    ensures
        (r is Err) == (*old(lifecycle) is Recording && !queued),
        r is Err ==> *final(lifecycle) == *old(lifecycle) && final(sessions)@ == old(sessions)@,
        r matches Ok(outcome) ==> {
            &&& outcome.success == !too_late(*old(lifecycle), old(sessions)@)
            &&& outcome.message@ == (if outcome.success {
                "Recording cancelled"@
            } else {
                "Text insertion has already started"@
            })
            &&& outcome.status == status_of(*final(lifecycle))
            &&& *final(lifecycle) == (if outcome.success {
                AppLifecycle::Idle
            } else {
                *old(lifecycle)
            })
            &&& final(sessions)@ == (match *old(lifecycle) {
                AppLifecycle::Idle => old(sessions)@,
                AppLifecycle::Recording(token) => cancelled(old(sessions)@, token.id()),
                AppLifecycle::Processing(token) => cancelled(old(sessions)@, token.id()),
            })
        },
{
    let mut success = true;
    match *lifecycle {
        AppLifecycle::Idle => {},
        AppLifecycle::Recording(token) => {
            if !queued {
                return Err(Unavailable);
            }
            token.cancel(sessions);
            *lifecycle = AppLifecycle::Idle;
        },
        AppLifecycle::Processing(token) => {
            if token.cancel(sessions) {
                *lifecycle = AppLifecycle::Idle;
            } else {
                success = false;
            }
        },
    }
    let message = if success {
        "Recording cancelled"
    } else {
        "Text insertion has already started"
    };
    Ok(ReservationOutcome { success, message, status: lifecycle.status() })
}

/// The lifecycle after a start that failed: it is idle if that session still records.
pub open spec fn released(lifecycle: AppLifecycle, token: CancellationToken) -> AppLifecycle {
    match lifecycle {
        AppLifecycle::Recording(current) if current.id() == token.id() => AppLifecycle::Idle,
        other => other,
    }
}

/// Gives back the reservation of a start that failed. True if the session still held it.
pub fn release_recording_reservation(
    lifecycle: &mut AppLifecycle,
    cancellation: &CancellationToken,
) -> (r: bool)
    ensures
        *final(lifecycle) == released(*old(lifecycle), *cancellation),
        r == (*final(lifecycle) != *old(lifecycle)),
{
    let owns_current = match &*lifecycle {
        AppLifecycle::Recording(current) => current.same_session(cancellation),
        _ => false,
    };
    if owns_current {
        *lifecycle = AppLifecycle::Idle;
    }
    owns_current
}

/// The lifecycle after a session was processed: it is idle if that session is still processed.
pub open spec fn processed(lifecycle: AppLifecycle, token: CancellationToken) -> AppLifecycle {
    match lifecycle {
        AppLifecycle::Processing(current) if current.id() == token.id() => AppLifecycle::Idle,
        other => other,
    }
}

/// Ends the processing of a session. Whoever processes one holds its guard and resets it when the
/// work is over, whatever came of it.
pub struct ProcessingResetGuard {
    cancellation: CancellationToken,
}

impl ProcessingResetGuard {
    pub closed spec fn token(&self) -> CancellationToken {
        self.cancellation
    }

    pub fn new(cancellation: CancellationToken) -> (r: Self)
        ensures
            r.token() == cancellation,
    {
        ProcessingResetGuard { cancellation }
    }

    /// Makes the daemon idle if it still processes this session. True if it did.
    pub fn reset(&self, lifecycle: &mut AppLifecycle) -> (r: bool)
        ensures
            *final(lifecycle) == processed(*old(lifecycle), self.token()),
            r == (*final(lifecycle) != *old(lifecycle)),
    {
        let owns_current = match &*lifecycle {
            AppLifecycle::Processing(current) => current.same_session(&self.cancellation),
            _ => false,
        };
        if owns_current {
            *lifecycle = AppLifecycle::Idle;
        }
        owns_current
    }
}

/// What a status bar shows.
pub struct WaybarResponse {
    pub text: String,
    pub class: &'static str,
    pub tooltip: String,
}

/// What a status bar shows for a status.
pub fn generate_waybar_response(status: AppStatus, config: &WaybarConfig) -> (r: WaybarResponse)
    ensures
        r.text@ == (match status {
            AppStatus::Idle => config.idle_text@,
            AppStatus::Recording => config.recording_text@,
            AppStatus::Processing => config.processing_text@,
        }),
        r.class@ == (match status {
            AppStatus::Idle => "chezwizper-idle"@,
            AppStatus::Recording => "chezwizper-recording"@,
            AppStatus::Processing => "chezwizper-processing"@,
        }),
        r.tooltip@ == (match status {
            AppStatus::Idle => config.idle_tooltip@,
            AppStatus::Recording => config.recording_tooltip@,
            AppStatus::Processing => config.processing_tooltip@,
        }),
{
    match status {
        AppStatus::Idle => WaybarResponse {
            text: config.idle_text.clone(),
            class: "chezwizper-idle",
            tooltip: config.idle_tooltip.clone(),
        },
        AppStatus::Recording => WaybarResponse {
            text: config.recording_text.clone(),
            class: "chezwizper-recording",
            tooltip: config.recording_tooltip.clone(),
        },
        AppStatus::Processing => WaybarResponse {
            text: config.processing_text.clone(),
            class: "chezwizper-processing",
            tooltip: config.processing_tooltip.clone(),
        },
    }
}

/// The status is asked for in the style of a status bar.
pub fn wants_waybar(style: Option<&str>) -> (r: bool)
    ensures
        r == (style matches Some(style) && style@ == "waybar"@),
{
    match style {
        Some(style) => str_eq(style, "waybar"),
        None => false,
    }
}

/// The status that an answer names: a toggle that succeeds names none.
pub fn answered_status(request: RecordingRequest, outcome: &ReservationOutcome) -> (r: Option<
    &'static str,
>)
    ensures
        r is None == (request == RecordingRequest::Toggle && outcome.success),
        r matches Some(status) ==> status@ == outcome.status.name(),
{
    if request == RecordingRequest::Toggle && outcome.success {
        None
    } else {
        Some(outcome.status.as_str())
    }
}

/// Law: a request that does not fit the lifecycle changes nothing and queues nothing. A start is
/// one unless the daemon is idle, a stop is one unless it records, and a toggle is one while it
/// processes.
pub proof fn law_requests_are_idempotent(
    lifecycle: AppLifecycle,
    request: RecordingRequest,
    fresh: CancellationToken,
)
    requires
        match request {
            RecordingRequest::Start => lifecycle != AppLifecycle::Idle,
            RecordingRequest::Stop => !(lifecycle is Recording),
            RecordingRequest::Toggle => lifecycle is Processing,
        },
    ensures
        reserved(lifecycle, request, fresh) == lifecycle,
        command_for(lifecycle, request, fresh) is None,
{
}

/// Law: a request that was carried out is not carried out again. The same start or stop, repeated,
/// changes nothing and queues nothing.
pub proof fn law_repeated_requests_do_nothing(
    lifecycle: AppLifecycle,
    request: RecordingRequest,
    fresh: CancellationToken,
    other: CancellationToken,
)
    requires
        request != RecordingRequest::Toggle,
    ensures
        reserved(reserved(lifecycle, request, fresh), request, other) == reserved(
            lifecycle,
            request,
            fresh,
        ),
        command_for(reserved(lifecycle, request, fresh), request, other) is None,
{
}

/// Law: a fast start and stop are queued in that order and for the same session.
pub proof fn law_start_then_stop_is_one_session(
    fresh: CancellationToken,
    other: CancellationToken,
)
    ensures
        ({
            let started = reserved(AppLifecycle::Idle, RecordingRequest::Start, fresh);
            &&& command_for(AppLifecycle::Idle, RecordingRequest::Start, fresh) == Some(
                RecordingCommand::Start(ApiCommandSource::Start, fresh),
            )
            &&& command_for(started, RecordingRequest::Stop, other) == Some(
                RecordingCommand::Stop(ApiCommandSource::Stop, fresh),
            )
            &&& reserved(started, RecordingRequest::Stop, other) == AppLifecycle::Processing(fresh)
        }),
{
}

/// Law: a toggle does what a start does while the daemon is idle and what a stop does while it
/// records.
pub proof fn law_toggle_is_start_or_stop(lifecycle: AppLifecycle, fresh: CancellationToken)
    requires
        !(lifecycle is Processing),
    ensures
        reserved(lifecycle, RecordingRequest::Toggle, fresh) == reserved(
            lifecycle,
            if lifecycle == AppLifecycle::Idle {
                RecordingRequest::Start
            } else {
                RecordingRequest::Stop
            },
            fresh,
        ),
        command_for(lifecycle, RecordingRequest::Toggle, fresh) is Some,
{
}

/// Law: a toggle whose command is queued is carried out, and only one that comes while the daemon
/// processes is refused.
pub proof fn law_only_a_toggle_while_processing_is_refused(
    lifecycle: AppLifecycle,
    request: RecordingRequest,
    fresh: CancellationToken,
)
    ensures
        succeeds(
            request,
            (Reservation {
                command: command_for(lifecycle, request, fresh),
                rollback: lifecycle,
            }),
            status_of(reserved(lifecycle, request, fresh)),
        ) == !(request == RecordingRequest::Toggle && lifecycle is Processing),
{
}

/// Law: the work of one session never resets another. A start that failed and a stop that ended
/// leave the lifecycle alone if it belongs to a session that replaced theirs.
pub proof fn law_old_sessions_do_not_reset_new_ones(
    old_token: CancellationToken,
    new_token: CancellationToken,
)
    requires
        old_token.id() != new_token.id(),
    ensures
        released(AppLifecycle::Recording(new_token), old_token) == AppLifecycle::Recording(new_token),
        released(AppLifecycle::Processing(new_token), old_token) == AppLifecycle::Processing(
            new_token,
        ),
        processed(AppLifecycle::Recording(new_token), old_token) == AppLifecycle::Recording(
            new_token,
        ),
        processed(AppLifecycle::Processing(new_token), old_token) == AppLifecycle::Processing(
            new_token,
        ),
{
}

/// Law: once a session was processed, whatever came of it, the next start is accepted.
pub proof fn law_the_next_start_is_accepted(
    token: CancellationToken,
    request: RecordingRequest,
    fresh: CancellationToken,
)
    requires
        request != RecordingRequest::Stop,
    ensures
        ({
            let idle = processed(AppLifecycle::Processing(token), token);
            &&& idle == AppLifecycle::Idle
            &&& reserved(idle, request, fresh) == AppLifecycle::Recording(fresh)
            &&& command_for(idle, request, fresh) == Some(
                RecordingCommand::Start(source_of(request), fresh),
            )
        }),
{
}

/// Law: a session that is opened is no other one, and is neither cancelled nor committed. So a
/// start that follows a cancellation at once is not touched by it.
pub proof fn law_a_new_session_is_fresh(
    states: Seq<TokenState>,
    fresh: CancellationToken,
    old_token: CancellationToken,
)
    requires
        old_token.known(states),
        fresh.id() == states.len(),
    ensures
        fresh.id() != old_token.id(),
        states.push(TokenState::Active)[fresh.id()] == TokenState::Active,
        cancelled(states.push(TokenState::Active), old_token.id())[fresh.id()]
            == TokenState::Active,
{
}

/// Law: a request moves the lifecycle on where it fits, and hands out the command for just that
/// move. A start, or a toggle, of an idle daemon makes it record a fresh session; a stop, or a
/// toggle, of one that records makes it process the same session; the command names the request.
pub proof fn law_a_fitting_request_moves_on(
    token: CancellationToken,
    request: RecordingRequest,
    fresh: CancellationToken,
)
    ensures
        request != RecordingRequest::Stop ==> reserved(AppLifecycle::Idle, request, fresh)
            == AppLifecycle::Recording(fresh) && opens(AppLifecycle::Idle, request),
        request == RecordingRequest::Start ==> command_for(AppLifecycle::Idle, request, fresh)
            == Some(RecordingCommand::Start(ApiCommandSource::Start, fresh)),
        request == RecordingRequest::Toggle ==> command_for(AppLifecycle::Idle, request, fresh)
            == Some(RecordingCommand::Start(ApiCommandSource::Toggle, fresh)),
        request != RecordingRequest::Start ==> reserved(
            AppLifecycle::Recording(token),
            request,
            fresh,
        ) == AppLifecycle::Processing(token),
        request == RecordingRequest::Stop ==> command_for(
            AppLifecycle::Recording(token),
            request,
            fresh,
        ) == Some(RecordingCommand::Stop(ApiCommandSource::Stop, token)),
        request == RecordingRequest::Toggle ==> command_for(
            AppLifecycle::Recording(token),
            request,
            fresh,
        ) == Some(RecordingCommand::Stop(ApiCommandSource::Toggle, token)),
        !opens(AppLifecycle::Recording(token), request),
        !opens(AppLifecycle::Processing(token), request),
        !opens(AppLifecycle::Idle, RecordingRequest::Stop),
{
}

/// Law: a request is answered by what it did. A start and a stop are told so in any case; a toggle
/// is told so unless the daemon processes, and then that it still does.
pub proof fn law_a_request_is_answered(
    lifecycle: AppLifecycle,
    request: RecordingRequest,
    fresh: CancellationToken,
)
    ensures
        ({
            let reservation = Reservation {
                command: command_for(lifecycle, request, fresh),
                rollback: lifecycle,
            };
            let status = status_of(reserved(lifecycle, request, fresh));
            let answer = message_for(request, succeeds(request, reservation, status));
            &&& request == RecordingRequest::Start ==> answer == "Recording started"@
            &&& request == RecordingRequest::Stop ==> answer == "Recording stopped"@
            &&& request == RecordingRequest::Toggle && !(lifecycle is Processing) ==> answer
                == "Recording toggled"@
            &&& request == RecordingRequest::Toggle && lifecycle is Processing ==> answer
                == "Previous recording is still processing"@
            &&& request == RecordingRequest::Start ==> status == (if lifecycle is Processing {
                AppStatus::Processing
            } else {
                AppStatus::Recording
            })
            &&& request == RecordingRequest::Stop ==> status == (if lifecycle is Idle {
                AppStatus::Idle
            } else {
                AppStatus::Processing
            })
            &&& request == RecordingRequest::Toggle ==> status == (if lifecycle is Idle {
                AppStatus::Recording
            } else {
                AppStatus::Processing
            })
        }),
{
}

/// Law: only a running recording is torn down by a cancellation, and only a text that is being
/// delivered comes before one.
pub proof fn law_a_cancellation_reaches_every_session(
    token: CancellationToken,
    states: Seq<TokenState>,
)
    ensures
        cancel_command_for(AppLifecycle::Recording(token)) == Some(RecordingCommand::Cancel(token)),
        cancel_command_for(AppLifecycle::Processing(token)) is None,
        cancel_command_for(AppLifecycle::Idle) is None,
        !too_late(AppLifecycle::Idle, states),
        !too_late(AppLifecycle::Recording(token), states),
        too_late(AppLifecycle::Processing(token), states) <==> states[token.id()]
            == TokenState::Committed,
{
}

/// Law: a start that failed makes the daemon idle again if its session still records, and a session
/// that was processed makes it idle if it is still processed. Neither changes anything else.
pub proof fn law_work_that_is_over_makes_idle(lifecycle: AppLifecycle, token: CancellationToken)
    ensures
        released(lifecycle, token) == (if lifecycle == AppLifecycle::Recording(token) {
            AppLifecycle::Idle
        } else {
            lifecycle
        }),
        processed(lifecycle, token) == (if lifecycle == AppLifecycle::Processing(token) {
            AppLifecycle::Idle
        } else {
            lifecycle
        }),
{
    match lifecycle {
        AppLifecycle::Recording(current) => {
            law_a_token_is_its_session(current, token);
        },
        AppLifecycle::Processing(current) => {
            law_a_token_is_its_session(current, token);
        },
        _ => {},
    }
}

/// Law: the names by which a status is told.
pub proof fn law_the_names_of_a_status(lifecycle: AppLifecycle)
    ensures
        lifecycle is Idle ==> status_of(lifecycle).name() == "idle"@,
        lifecycle is Recording ==> status_of(lifecycle).name() == "recording"@,
        lifecycle is Processing ==> status_of(lifecycle).name() == "processing"@,
{
}

} // verus!
