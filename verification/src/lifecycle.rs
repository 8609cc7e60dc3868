//! How a server is started and how it is stopped, step by step.

use serde_json::Value;
use vstd::prelude::*;

use crate::error::{Fault, McpError};

verus! {

/// How far the start of a server has come.
#[derive(Debug)]
pub enum SpawnPhase {
    /// The process is being launched.
    Launching { cmd: String },
    /// The initialize request waits for its response.
    Initializing,
    /// The initialized notification is being sent.
    Announcing,
    /// The server is being stopped, because of this failure.
    Stopping(McpError),
    /// There is nothing left to do.
    Ended,
}

/// What happens while a server is started.
#[derive(Debug)]
pub enum SpawnEvent {
    Launched,
    LaunchFailed(String),
    StdinMissing,
    StdoutMissing,
    /// The initialize request has come to an end.
    Answered(Result<Value, McpError>),
    /// The initialized notification has been sent, or could not be.
    Announced(Result<(), McpError>),
    /// The attempt to stop the server is over, however it went.
    Stopped,
}

/// What is to be done next.
#[derive(Debug)]
pub enum SpawnAction {
    SendInitialize,
    SendInitialized,
    Stop,
    Succeed,
    Fail(McpError),
    /// Nothing: the event does not belong to the phase.
    Ignore,
}

/// The phase and the action that follow an event.
pub open spec fn spawn_next(phase: SpawnPhase, event: SpawnEvent) -> (SpawnPhase, SpawnAction) {
    match (phase, event) {
        (SpawnPhase::Launching { .. }, SpawnEvent::Launched) => (
            SpawnPhase::Initializing,
            SpawnAction::SendInitialize,
        ),
        (SpawnPhase::Launching { cmd }, SpawnEvent::LaunchFailed(cause)) => (
            SpawnPhase::Ended,
            SpawnAction::Fail(Fault::Launch { cmd, cause }),
        ),
        (SpawnPhase::Launching { .. }, SpawnEvent::StdinMissing) => (
            SpawnPhase::Ended,
            SpawnAction::Fail(Fault::StdinNotPiped),
        ),
        (SpawnPhase::Launching { .. }, SpawnEvent::StdoutMissing) => (
            SpawnPhase::Ended,
            SpawnAction::Fail(Fault::StdoutNotPiped),
        ),
        (SpawnPhase::Initializing, SpawnEvent::Answered(Ok(_))) => (
            SpawnPhase::Announcing,
            SpawnAction::SendInitialized,
        ),
        (SpawnPhase::Initializing, SpawnEvent::Answered(Err(error))) => (
            SpawnPhase::Stopping(Fault::Initialize(Box::new(error))),
            SpawnAction::Stop,
        ),
        (SpawnPhase::Announcing, SpawnEvent::Announced(Ok(_))) => (
            SpawnPhase::Ended,
            SpawnAction::Succeed,
        ),
        (SpawnPhase::Announcing, SpawnEvent::Announced(Err(error))) => (
            SpawnPhase::Stopping(Fault::Announce(Box::new(error))),
            SpawnAction::Stop,
        ),
        (SpawnPhase::Stopping(error), SpawnEvent::Stopped) => (
            SpawnPhase::Ended,
            SpawnAction::Fail(error),
        ),
        (phase, _) => (phase, SpawnAction::Ignore),
    }
}

impl SpawnPhase {
    /// Goes on after an event.
    pub fn step(self, event: SpawnEvent) -> (next: (SpawnPhase, SpawnAction))
        ensures
            next == spawn_next(self, event),
    {
        match (self, event) {
            (SpawnPhase::Launching { .. }, SpawnEvent::Launched) => (
                SpawnPhase::Initializing,
                SpawnAction::SendInitialize,
            ),
            (SpawnPhase::Launching { cmd }, SpawnEvent::LaunchFailed(cause)) => (
                SpawnPhase::Ended,
                SpawnAction::Fail(Fault::Launch { cmd, cause }),
            ),
            (SpawnPhase::Launching { .. }, SpawnEvent::StdinMissing) => (
                SpawnPhase::Ended,
                SpawnAction::Fail(Fault::StdinNotPiped),
            ),
            (SpawnPhase::Launching { .. }, SpawnEvent::StdoutMissing) => (
                SpawnPhase::Ended,
                SpawnAction::Fail(Fault::StdoutNotPiped),
            ),
            (SpawnPhase::Initializing, SpawnEvent::Answered(Ok(_))) => (
                SpawnPhase::Announcing,
                SpawnAction::SendInitialized,
            ),
            (SpawnPhase::Initializing, SpawnEvent::Answered(Err(error))) => (
                SpawnPhase::Stopping(Fault::Initialize(Box::new(error))),
                SpawnAction::Stop,
            ),
            (SpawnPhase::Announcing, SpawnEvent::Announced(Ok(_))) => (
                SpawnPhase::Ended,
                SpawnAction::Succeed,
            ),
            (SpawnPhase::Announcing, SpawnEvent::Announced(Err(error))) => (
                SpawnPhase::Stopping(Fault::Announce(Box::new(error))),
                SpawnAction::Stop,
            ),
            (SpawnPhase::Stopping(error), SpawnEvent::Stopped) => (
                SpawnPhase::Ended,
                SpawnAction::Fail(error),
            ),
            (phase, _) => (phase, SpawnAction::Ignore),
        }
    }
}

/// How far the stop of a server has come.
#[derive(Debug, Clone, Copy, PartialEq, Eq, Structural)]
pub enum ShutdownPhase {
    /// The shutdown request is being sent.
    Asking,
    /// The exit notification is being sent.
    Leaving,
    /// The server's standard input is being closed.
    Closing,
    /// The state of the process is being asked for.
    Polling,
    /// The process is being killed.
    Killing,
    /// The end of the process is awaited.
    Reaping,
    /// The end of the reader is awaited.
    Joining,
    /// There is nothing left to do.
    Ended,
}

/// What happens while a server is stopped.
#[derive(Debug)]
pub enum ShutdownEvent {
    /// A message has been sent, or could not be.
    Tried,
    StdinClosed,
    Exited,
    Running,
    PollFailed(String),
    Killed,
    KillFailed(String),
    Reaped,
    ReapFailed(String),
    Joined,
    JoinFailed(String),
}

/// What is to be done next.
#[derive(Debug)]
pub enum ShutdownAction {
    SendShutdown,
    SendExit,
    CloseStdin,
    Poll,
    Kill,
    Reap,
    Join,
    Succeed,
    Fail(McpError),
    /// Nothing: the event does not belong to the phase.
    Ignore,
}

/// The phase and the action that follow an event.
pub open spec fn shutdown_next(phase: ShutdownPhase, event: ShutdownEvent) -> (
    ShutdownPhase,
    ShutdownAction,
) {
    match (phase, event) {
        (ShutdownPhase::Asking, ShutdownEvent::Tried) => (
            ShutdownPhase::Leaving,
            ShutdownAction::SendExit,
        ),
        (ShutdownPhase::Leaving, ShutdownEvent::Tried) => (
            ShutdownPhase::Closing,
            ShutdownAction::CloseStdin,
        ),
        (ShutdownPhase::Closing, ShutdownEvent::StdinClosed) => (
            ShutdownPhase::Polling,
            ShutdownAction::Poll,
        ),
        (ShutdownPhase::Polling, ShutdownEvent::Exited) => (
            ShutdownPhase::Joining,
            ShutdownAction::Join,
        ),
        (ShutdownPhase::Polling, ShutdownEvent::Running) => (
            ShutdownPhase::Killing,
            ShutdownAction::Kill,
        ),
        (ShutdownPhase::Polling, ShutdownEvent::PollFailed(cause)) => (
            ShutdownPhase::Ended,
            ShutdownAction::Fail(Fault::Poll { cause }),
        ),
        (ShutdownPhase::Killing, ShutdownEvent::Killed) => (
            ShutdownPhase::Reaping,
            ShutdownAction::Reap,
        ),
        (ShutdownPhase::Killing, ShutdownEvent::KillFailed(cause)) => (
            ShutdownPhase::Ended,
            ShutdownAction::Fail(Fault::Kill { cause }),
        ),
        (ShutdownPhase::Reaping, ShutdownEvent::Reaped) => (
            ShutdownPhase::Joining,
            ShutdownAction::Join,
        ),
        (ShutdownPhase::Reaping, ShutdownEvent::ReapFailed(cause)) => (
            ShutdownPhase::Ended,
            ShutdownAction::Fail(Fault::Reap { cause }),
        ),
        (ShutdownPhase::Joining, ShutdownEvent::Joined) => (
            ShutdownPhase::Ended,
            ShutdownAction::Succeed,
        ),
        (ShutdownPhase::Joining, ShutdownEvent::JoinFailed(cause)) => (
            ShutdownPhase::Ended,
            ShutdownAction::Fail(Fault::Join { cause }),
        ),
        (phase, _) => (phase, ShutdownAction::Ignore),
    }
}

impl ShutdownPhase {
    /// Goes on after an event.
    pub fn step(self, event: ShutdownEvent) -> (next: (ShutdownPhase, ShutdownAction))
        ensures
            next == shutdown_next(self, event),
    {
        match (self, event) {
            (ShutdownPhase::Asking, ShutdownEvent::Tried) => (
                ShutdownPhase::Leaving,
                ShutdownAction::SendExit,
            ),
            (ShutdownPhase::Leaving, ShutdownEvent::Tried) => (
                ShutdownPhase::Closing,
                ShutdownAction::CloseStdin,
            ),
            (ShutdownPhase::Closing, ShutdownEvent::StdinClosed) => (
                ShutdownPhase::Polling,
                ShutdownAction::Poll,
            ),
            (ShutdownPhase::Polling, ShutdownEvent::Exited) => (
                ShutdownPhase::Joining,
                ShutdownAction::Join,
            ),
            (ShutdownPhase::Polling, ShutdownEvent::Running) => (
                ShutdownPhase::Killing,
                ShutdownAction::Kill,
            ),
            (ShutdownPhase::Polling, ShutdownEvent::PollFailed(cause)) => (
                ShutdownPhase::Ended,
                ShutdownAction::Fail(Fault::Poll { cause }),
            ),
            (ShutdownPhase::Killing, ShutdownEvent::Killed) => (
                ShutdownPhase::Reaping,
                ShutdownAction::Reap,
            ),
            (ShutdownPhase::Killing, ShutdownEvent::KillFailed(cause)) => (
                ShutdownPhase::Ended,
                ShutdownAction::Fail(Fault::Kill { cause }),
            ),
            (ShutdownPhase::Reaping, ShutdownEvent::Reaped) => (
                ShutdownPhase::Joining,
                ShutdownAction::Join,
            ),
            (ShutdownPhase::Reaping, ShutdownEvent::ReapFailed(cause)) => (
                ShutdownPhase::Ended,
                ShutdownAction::Fail(Fault::Reap { cause }),
            ),
            (ShutdownPhase::Joining, ShutdownEvent::Joined) => (
                ShutdownPhase::Ended,
                ShutdownAction::Succeed,
            ),
            (ShutdownPhase::Joining, ShutdownEvent::JoinFailed(cause)) => (
                ShutdownPhase::Ended,
                ShutdownAction::Fail(Fault::Join { cause }),
            ),
            (phase, _) => (phase, ShutdownAction::Ignore),
        }
    }
}

/// How far the start has come after the events.
pub open spec fn spawn_after(cmd: String, events: Seq<SpawnEvent>) -> SpawnPhase
    decreases events.len(),
{
    if events.len() == 0 {
        SpawnPhase::Launching { cmd }
    } else {
        spawn_next(spawn_after(cmd, events.drop_last()), events.last()).0
    }
}

/// What is to be done after the last of the events.
pub open spec fn spawn_action(cmd: String, events: Seq<SpawnEvent>) -> SpawnAction {
    if events.len() == 0 {
        SpawnAction::Ignore
    } else {
        spawn_next(spawn_after(cmd, events.drop_last()), events.last()).1
    }
}

/// The initialize request was answered with a result.
pub open spec fn answered_well(event: SpawnEvent) -> bool {
    match event {
        SpawnEvent::Answered(answer) => answer is Ok,
        _ => false,
    }
}

/// The initialized notification was sent.
pub open spec fn announced_well(event: SpawnEvent) -> bool {
    match event {
        SpawnEvent::Announced(outcome) => outcome is Ok,
        _ => false,
    }
}

/// A client is ready only when the handshake is complete: the process was launched, after that
/// the initialize request was answered with a result, and after that the initialized
/// notification was sent.
pub proof fn law_ready_means_handshake_complete(cmd: String, events: Seq<SpawnEvent>)
    requires
        spawn_action(cmd, events) is Succeed,
    ensures
        exists|i: int, j: int|
            #![trigger events[i], events[j]]
            0 <= i < j < events.len() - 1 && events[i] is Launched && answered_well(
                events[j],
            ) && announced_well(events.last()),
{
    let front = events.drop_last();
    lemma_announcing(cmd, front);
    let (i, j) = choose|i: int, j: int|
        #![trigger front[i], front[j]]
        0 <= i < j < front.len() && front[i] is Launched && answered_well(front[j]);
    assert(events[i] == front[i] && events[j] == front[j]);
}

/// The initialize request is out only after the launch.
proof fn lemma_initializing(cmd: String, events: Seq<SpawnEvent>)
    requires
        spawn_after(cmd, events) is Initializing,
    ensures
        exists|i: int| 0 <= i < events.len() && (#[trigger] events[i]) is Launched,
    decreases events.len(),
{
    let front = events.drop_last();
    if spawn_after(cmd, front) is Initializing {
        lemma_initializing(cmd, front);
        let i = choose|i: int| 0 <= i < front.len() && (#[trigger] front[i]) is Launched;
        assert(events[i] is Launched);
    } else {
        assert(events[events.len() - 1] is Launched);
    }
}

/// The notification is out only after the launch and a result.
proof fn lemma_announcing(cmd: String, events: Seq<SpawnEvent>)
    requires
        spawn_after(cmd, events) is Announcing,
    ensures
        exists|i: int, j: int|
            #![trigger events[i], events[j]]
            0 <= i < j < events.len() && events[i] is Launched && answered_well(events[j]),
    decreases events.len(),
{
    let front = events.drop_last();
    if spawn_after(cmd, front) is Announcing {
        lemma_announcing(cmd, front);
        let (i, j) = choose|i: int, j: int|
            #![trigger front[i], front[j]]
            0 <= i < j < front.len() && front[i] is Launched && answered_well(front[j]);
        assert(events[i] == front[i] && events[j] == front[j]);
    } else {
        lemma_initializing(cmd, front);
        let i = choose|i: int| 0 <= i < front.len() && (#[trigger] front[i]) is Launched;
        assert(events[i] == front[i]);
        assert(answered_well(events[events.len() - 1]));
    }
}

/// A server whose handshake fails is stopped before the failure is reported: from the initialize
/// request on, there is no failure without a stop before it.
pub proof fn law_failed_handshake_stops_the_server(phase: SpawnPhase, event: SpawnEvent)
    requires
        spawn_next(phase, event).1 is Fail,
    ensures
        phase is Launching || (phase is Stopping && event is Stopped),
        phase matches SpawnPhase::Stopping(error) ==> spawn_next(phase, event).1
            == SpawnAction::Fail(error),
{
}

/// A server is stopped for the failure that is reported afterwards.
pub proof fn law_stop_remembers_the_failure(phase: SpawnPhase, event: SpawnEvent)
    requires
        spawn_next(phase, event).1 is Stop,
    ensures
        spawn_next(phase, event).0 is Stopping,
        spawn_next(spawn_next(phase, event).0, SpawnEvent::Stopped).1 == SpawnAction::Fail(
            spawn_next(phase, event).0->Stopping_0,
        ),
{
}

/// How many phases of a start are left at most.
pub open spec fn start_phases_left(phase: SpawnPhase) -> nat {
    match phase {
        SpawnPhase::Launching { .. } => 4,
        SpawnPhase::Initializing => 3,
        SpawnPhase::Announcing => 2,
        SpawnPhase::Stopping(_) => 1,
        SpawnPhase::Ended => 0,
    }
}

/// Starting comes to an end: an event that counts leaves fewer phases, any other changes nothing,
/// and the outcome is reported just when the end is reached.
pub proof fn law_start_comes_to_an_end(phase: SpawnPhase, event: SpawnEvent)
    ensures
        start_phases_left(spawn_next(phase, event).0) < start_phases_left(phase) || spawn_next(
            phase,
            event,
        ) == (phase, SpawnAction::Ignore),
        spawn_next(phase, event).1 is Succeed || spawn_next(phase, event).1 is Fail <==> (!(
        phase is Ended) && spawn_next(phase, event).0 is Ended),
{
}

/// The event is an outcome of the action.
pub open spec fn spawn_outcome(action: SpawnAction, event: SpawnEvent) -> bool {
    match action {
        SpawnAction::SendInitialize => event is Answered,
        SpawnAction::SendInitialized => event is Announced,
        SpawnAction::Stop => event is Stopped,
        _ => false,
    }
}

/// No outcome is ignored: whatever comes of an action, or of the launch before all of them, leads
/// on.
pub proof fn law_no_outcome_of_a_start_is_ignored(
    cmd: String,
    events: Seq<SpawnEvent>,
    event: SpawnEvent,
)
    requires
        if events.len() == 0 {
            event is Launched || event is LaunchFailed || event is StdinMissing
                || event is StdoutMissing
        } else {
            spawn_outcome(spawn_action(cmd, events), event)
        },
    ensures
        !(spawn_next(spawn_after(cmd, events), event).1 is Ignore),
{
}

/// How many phases of a stop are left at most.
pub open spec fn stop_phases_left(phase: ShutdownPhase) -> nat {
    match phase {
        ShutdownPhase::Asking => 7,
        ShutdownPhase::Leaving => 6,
        ShutdownPhase::Closing => 5,
        ShutdownPhase::Polling => 4,
        ShutdownPhase::Killing => 3,
        ShutdownPhase::Reaping => 2,
        ShutdownPhase::Joining => 1,
        ShutdownPhase::Ended => 0,
    }
}

/// Stopping comes to an end: an event that counts leaves fewer phases, any other changes nothing,
/// and the outcome is reported just when the end is reached.
pub proof fn law_shutdown_comes_to_an_end(phase: ShutdownPhase, event: ShutdownEvent)
    ensures
        stop_phases_left(shutdown_next(phase, event).0) < stop_phases_left(phase) || shutdown_next(
            phase,
            event,
        ) == (phase, ShutdownAction::Ignore),
        shutdown_next(phase, event).1 is Succeed || shutdown_next(phase, event).1 is Fail <==> (
        phase != ShutdownPhase::Ended && shutdown_next(phase, event).0 == ShutdownPhase::Ended),
{
}

/// How far the stop has come after the events.
pub open spec fn shutdown_after(events: Seq<ShutdownEvent>) -> ShutdownPhase
    decreases events.len(),
{
    if events.len() == 0 {
        ShutdownPhase::Asking
    } else {
        shutdown_next(shutdown_after(events.drop_last()), events.last()).0
    }
}

/// What is to be done after the last of the events; before all of them, the shutdown request is
/// to be sent.
pub open spec fn shutdown_action(events: Seq<ShutdownEvent>) -> ShutdownAction {
    if events.len() == 0 {
        ShutdownAction::SendShutdown
    } else {
        shutdown_next(shutdown_after(events.drop_last()), events.last()).1
    }
}

/// The event is an outcome of the action.
pub open spec fn shutdown_outcome(action: ShutdownAction, event: ShutdownEvent) -> bool {
    match action {
        ShutdownAction::SendShutdown => event is Tried,
        ShutdownAction::SendExit => event is Tried,
        ShutdownAction::CloseStdin => event is StdinClosed,
        ShutdownAction::Poll => event is Exited || event is Running || event is PollFailed,
        ShutdownAction::Kill => event is Killed || event is KillFailed,
        ShutdownAction::Reap => event is Reaped || event is ReapFailed,
        ShutdownAction::Join => event is Joined || event is JoinFailed,
        _ => false,
    }
}

/// No outcome is ignored: whatever comes of an action leads on.
pub proof fn law_no_outcome_of_a_stop_is_ignored(
    events: Seq<ShutdownEvent>,
    event: ShutdownEvent,
)
    requires
        shutdown_outcome(shutdown_action(events), event),
    ensures
        !(shutdown_next(shutdown_after(events), event).1 is Ignore),
{
}

/// One of the events says that the process is gone: it has exited, or its end has been awaited.
pub open spec fn process_gone(events: Seq<ShutdownEvent>) -> bool {
    exists|i: int|
        0 <= i < events.len() && ((#[trigger] events[i]) is Exited || events[i] is Reaped)
}

/// Nothing is left behind: a stop succeeds only when the process is gone and the reader has ended.
pub proof fn law_success_leaves_nothing_behind(events: Seq<ShutdownEvent>)
    requires
        shutdown_action(events) is Succeed,
    ensures
        events.last() is Joined,
        process_gone(events.drop_last()),
{
    lemma_joining(events.drop_last());
}

/// The process is killed only if it is still running.
pub proof fn law_only_a_running_process_is_killed(events: Seq<ShutdownEvent>)
    requires
        shutdown_action(events) is Kill,
    ensures
        events.last() is Running,
{
}

/// The reader's end is awaited only once the process is gone.
proof fn lemma_joining(events: Seq<ShutdownEvent>)
    requires
        shutdown_after(events) is Joining,
    ensures
        process_gone(events),
    decreases events.len(),
{
    let front = events.drop_last();
    if shutdown_after(front) is Joining {
        lemma_joining(front);
        let i = choose|i: int|
            0 <= i < front.len() && ((#[trigger] front[i]) is Exited || front[i] is Reaped);
        assert(events[i] is Exited || events[i] is Reaped);
    } else {
        assert(events[events.len() - 1] is Exited || events[events.len() - 1] is Reaped);
    }
}

/// Whether the messages to the server could be sent makes no difference to what is done about its
/// process: after both attempts, its input is closed and its state is asked for.
pub proof fn law_farewell_is_best_effort(events: Seq<ShutdownEvent>)
    requires
        events.len() == 2,
        events[0] is Tried,
        events[1] is Tried,
    ensures
        shutdown_action(events) is CloseStdin,
        shutdown_next(shutdown_after(events), ShutdownEvent::StdinClosed).1 is Poll,
{
    let front = events.drop_last();
    let none = front.drop_last();
    assert(shutdown_after(none) is Asking);
    assert(front.last() == events[0]);
    assert(shutdown_after(front) is Leaving);
}

/// A handshake in which everything goes well succeeds, whatever the server answers to the
/// initialize request: once the process is launched the request is sent, once it is answered with
/// a result the notification is sent, and once that is sent the client is ready.
pub proof fn law_handshake_that_goes_well_succeeds(
    cmd: String,
    result: Value,
    launched: (SpawnPhase, SpawnAction),
    answered: (SpawnPhase, SpawnAction),
    announced: (SpawnPhase, SpawnAction),
)
    requires
        call_ensures(
            SpawnPhase::step,
            (SpawnPhase::Launching { cmd }, SpawnEvent::Launched),
            launched,
        ),
        call_ensures(SpawnPhase::step, (launched.0, SpawnEvent::Answered(Ok(result))), answered),
        call_ensures(SpawnPhase::step, (answered.0, SpawnEvent::Announced(Ok(()))), announced),
    ensures
        launched == (SpawnPhase::Initializing, SpawnAction::SendInitialize),
        answered == (SpawnPhase::Announcing, SpawnAction::SendInitialized),
        announced == (SpawnPhase::Ended, SpawnAction::Succeed),
{
}

/// A server that does not answer the initialize request with a result is stopped, and the start
/// then fails with the request's own failure as the cause.
pub proof fn law_failed_initialize_is_the_cause(
    cmd: String,
    error: McpError,
    launched: (SpawnPhase, SpawnAction),
    answered: (SpawnPhase, SpawnAction),
    stopped: (SpawnPhase, SpawnAction),
)
    requires
        call_ensures(
            SpawnPhase::step,
            (SpawnPhase::Launching { cmd }, SpawnEvent::Launched),
            launched,
        ),
        call_ensures(SpawnPhase::step, (launched.0, SpawnEvent::Answered(Err(error))), answered),
        call_ensures(SpawnPhase::step, (answered.0, SpawnEvent::Stopped), stopped),
    ensures
        answered.1 is Stop,
        stopped.1 matches SpawnAction::Fail(Fault::Initialize(cause)) && *cause == error,
        stopped.0 is Ended,
{
}

/// A server that cannot be told that the client is initialized is stopped, and the start then
/// fails with the failure to tell it as the cause.
pub proof fn law_failed_notification_is_the_cause(
    cmd: String,
    result: Value,
    error: McpError,
    launched: (SpawnPhase, SpawnAction),
    answered: (SpawnPhase, SpawnAction),
    announced: (SpawnPhase, SpawnAction),
    stopped: (SpawnPhase, SpawnAction),
)
    requires
        call_ensures(
            SpawnPhase::step,
            (SpawnPhase::Launching { cmd }, SpawnEvent::Launched),
            launched,
        ),
        call_ensures(SpawnPhase::step, (launched.0, SpawnEvent::Answered(Ok(result))), answered),
        call_ensures(SpawnPhase::step, (answered.0, SpawnEvent::Announced(Err(error))), announced),
        call_ensures(SpawnPhase::step, (announced.0, SpawnEvent::Stopped), stopped),
    ensures
        announced.1 is Stop,
        stopped.1 matches SpawnAction::Fail(Fault::Announce(cause)) && *cause == error,
        stopped.0 is Ended,
{
}

/// A process that cannot be launched, or comes without its pipes, ends the start at once. The
/// failure names the command and the cause, or the pipe.
pub proof fn law_failed_launch_is_reported(
    cmd: String,
    event: SpawnEvent,
    next: (SpawnPhase, SpawnAction),
)
    requires
        call_ensures(SpawnPhase::step, (SpawnPhase::Launching { cmd }, event), next),
    ensures
        match event {
            SpawnEvent::LaunchFailed(cause) => next == (
                SpawnPhase::Ended,
                SpawnAction::Fail(Fault::Launch { cmd, cause }),
            ),
            SpawnEvent::StdinMissing => next == (
                SpawnPhase::Ended,
                SpawnAction::Fail(Fault::StdinNotPiped),
            ),
            SpawnEvent::StdoutMissing => next == (
                SpawnPhase::Ended,
                SpawnAction::Fail(Fault::StdoutNotPiped),
            ),
            _ => true,
        },
{
}

/// Nothing but a failure stops a server, and nothing but its own event moves a start on: a stop
/// follows a request that failed or a notification that could not be sent, and every event out of
/// place is ignored.
pub proof fn law_start_moves_on_its_own_events_only(
    phase: SpawnPhase,
    event: SpawnEvent,
    next: (SpawnPhase, SpawnAction),
)
    requires
        call_ensures(SpawnPhase::step, (phase, event), next),
    ensures
        next.1 is Stop ==> (event matches SpawnEvent::Answered(Err(_))) || (
        event matches SpawnEvent::Announced(Err(_))),
        next.1 is Fail ==> event is LaunchFailed || event is StdinMissing || event is StdoutMissing
            || event is Stopped,
        next.1 is SendInitialize ==> event is Launched,
        next.1 is SendInitialized ==> (event matches SpawnEvent::Answered(Ok(_))),
        next.1 is Succeed ==> (event matches SpawnEvent::Announced(Ok(_))),
        ({
            ||| phase is Launching && !(event is Launched || event is LaunchFailed
                || event is StdinMissing || event is StdoutMissing)
            ||| phase is Initializing && !(event is Answered)
            ||| phase is Announcing && !(event is Announced)
            ||| phase is Stopping && !(event is Stopped)
            ||| phase is Ended
        }) ==> next == (phase, SpawnAction::Ignore),
{
}

/// A stop begins alike whatever becomes of the two messages: both are tried, the input is closed,
/// and the state of the process is asked for.
pub proof fn law_stop_says_farewell_first(
    asked: (ShutdownPhase, ShutdownAction),
    left: (ShutdownPhase, ShutdownAction),
    closed: (ShutdownPhase, ShutdownAction),
)
    requires
        call_ensures(ShutdownPhase::step, (ShutdownPhase::Asking, ShutdownEvent::Tried), asked),
        call_ensures(ShutdownPhase::step, (asked.0, ShutdownEvent::Tried), left),
        call_ensures(ShutdownPhase::step, (left.0, ShutdownEvent::StdinClosed), closed),
    ensures
        asked.1 is SendExit,
        left.1 is CloseStdin,
        closed == (ShutdownPhase::Polling, ShutdownAction::Poll),
{
}

/// A process that has exited is not killed: the reader is joined and the stop succeeds.
pub proof fn law_exited_process_is_left_alone(
    polled: (ShutdownPhase, ShutdownAction),
    joined: (ShutdownPhase, ShutdownAction),
)
    requires
        call_ensures(ShutdownPhase::step, (ShutdownPhase::Polling, ShutdownEvent::Exited), polled),
        call_ensures(ShutdownPhase::step, (polled.0, ShutdownEvent::Joined), joined),
    ensures
        polled.1 is Join,
        joined == (ShutdownPhase::Ended, ShutdownAction::Succeed),
{
}

/// A process that still runs is killed and awaited; then the reader is joined and the stop
/// succeeds.
pub proof fn law_running_process_is_killed_and_awaited(
    polled: (ShutdownPhase, ShutdownAction),
    killed: (ShutdownPhase, ShutdownAction),
    reaped: (ShutdownPhase, ShutdownAction),
    joined: (ShutdownPhase, ShutdownAction),
)
    requires
        call_ensures(ShutdownPhase::step, (ShutdownPhase::Polling, ShutdownEvent::Running), polled),
        call_ensures(ShutdownPhase::step, (polled.0, ShutdownEvent::Killed), killed),
        call_ensures(ShutdownPhase::step, (killed.0, ShutdownEvent::Reaped), reaped),
        call_ensures(ShutdownPhase::step, (reaped.0, ShutdownEvent::Joined), joined),
    ensures
        polled == (ShutdownPhase::Killing, ShutdownAction::Kill),
        killed == (ShutdownPhase::Reaping, ShutdownAction::Reap),
        reaped == (ShutdownPhase::Joining, ShutdownAction::Join),
        joined == (ShutdownPhase::Ended, ShutdownAction::Succeed),
{
}

/// What goes wrong with the process or the reader ends the stop at once and is reported with its
/// cause, and nothing else makes a stop fail.
pub proof fn law_failed_stop_is_reported(
    phase: ShutdownPhase,
    event: ShutdownEvent,
    next: (ShutdownPhase, ShutdownAction),
)
    requires
        call_ensures(ShutdownPhase::step, (phase, event), next),
    ensures
        match (phase, event) {
            (ShutdownPhase::Polling, ShutdownEvent::PollFailed(cause)) => next == (
                ShutdownPhase::Ended,
                ShutdownAction::Fail(Fault::Poll { cause }),
            ),
            (ShutdownPhase::Killing, ShutdownEvent::KillFailed(cause)) => next == (
                ShutdownPhase::Ended,
                ShutdownAction::Fail(Fault::Kill { cause }),
            ),
            (ShutdownPhase::Reaping, ShutdownEvent::ReapFailed(cause)) => next == (
                ShutdownPhase::Ended,
                ShutdownAction::Fail(Fault::Reap { cause }),
            ),
            (ShutdownPhase::Joining, ShutdownEvent::JoinFailed(cause)) => next == (
                ShutdownPhase::Ended,
                ShutdownAction::Fail(Fault::Join { cause }),
            ),
            _ => !(next.1 is Fail),
        },
{
}

/// Nothing but its own event moves a stop on: every event out of place is ignored.
pub proof fn law_stop_moves_on_its_own_events_only(
    phase: ShutdownPhase,
    event: ShutdownEvent,
    next: (ShutdownPhase, ShutdownAction),
)
    requires
        call_ensures(ShutdownPhase::step, (phase, event), next),
        ({
            ||| (phase is Asking || phase is Leaving) && !(event is Tried)
            ||| phase is Closing && !(event is StdinClosed)
            ||| phase is Polling && !(event is Exited || event is Running || event is PollFailed)
            ||| phase is Killing && !(event is Killed || event is KillFailed)
            ||| phase is Reaping && !(event is Reaped || event is ReapFailed)
            ||| phase is Joining && !(event is Joined || event is JoinFailed)
            ||| phase is Ended
        }),
    ensures
        next == (phase, ShutdownAction::Ignore),
{
}

} // verus!
