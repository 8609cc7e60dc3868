use mcp_stdio_rs::lifecycle::{
    ShutdownAction, ShutdownEvent, ShutdownPhase, SpawnAction, SpawnEvent, SpawnPhase,
};
use mcp_stdio_rs::Fault;
use serde_json::Value;

fn launching() -> SpawnPhase {
    SpawnPhase::Launching { cmd: "srv".to_string() }
}

#[test]
fn a_handshake_that_succeeds() {
    let (phase, action) = launching().step(SpawnEvent::Launched);
    assert!(matches!(action, SpawnAction::SendInitialize));
    let (phase, action) = phase.step(SpawnEvent::Answered(Ok(Value::Null)));
    assert!(matches!(action, SpawnAction::SendInitialized));
    let (phase, action) = phase.step(SpawnEvent::Announced(Ok(())));
    assert!(matches!(action, SpawnAction::Succeed));
    assert!(matches!(phase, SpawnPhase::Ended));
}

fn failure(action: SpawnAction) -> Vec<String> {
    match action {
        SpawnAction::Fail(error) => error.messages(),
        other => panic!("{other:?}"),
    }
}

#[test]
fn a_process_that_cannot_be_launched() {
    let (_, action) = launching().step(SpawnEvent::LaunchFailed("gone".to_string()));
    assert_eq!(
        failure(action),
        ["failed to spawn MCP server command `srv`", "gone"]
    );
    let (_, action) = launching().step(SpawnEvent::StdinMissing);
    assert_eq!(failure(action), ["child process stdin was not piped"]);
    let (_, action) = launching().step(SpawnEvent::StdoutMissing);
    assert_eq!(failure(action), ["child process stdout was not piped"]);
}

#[test]
fn a_refused_initialize_request_stops_the_server() {
    let refused = Fault::Refused { id: 0, error: "{}".to_string() };
    let (phase, action) = SpawnPhase::Initializing.step(SpawnEvent::Answered(Err(refused)));
    assert!(matches!(action, SpawnAction::Stop));
    let (phase, action) = phase.step(SpawnEvent::Stopped);
    assert_eq!(
        failure(action),
        ["MCP initialize request failed", "MCP request 0 failed: {}"]
    );
    assert!(matches!(phase, SpawnPhase::Ended));
}

#[test]
fn an_unsent_notification_stops_the_server() {
    let unsent = Fault::Write { cause: "pipe".to_string() };
    let (phase, action) = SpawnPhase::Announcing.step(SpawnEvent::Announced(Err(unsent)));
    assert!(matches!(action, SpawnAction::Stop));
    let (_, action) = phase.step(SpawnEvent::Stopped);
    assert_eq!(
        failure(action),
        [
            "failed to send MCP initialized notification",
            "failed to write JSON-RPC message to MCP server stdin",
            "pipe"
        ]
    );
}

#[test]
fn events_out_of_place_change_nothing() {
    let (phase, action) = launching().step(SpawnEvent::Announced(Ok(())));
    assert!(matches!(phase, SpawnPhase::Launching { .. }));
    assert!(matches!(action, SpawnAction::Ignore));
    let (phase, action) = ShutdownPhase::Asking.step(ShutdownEvent::Joined);
    assert_eq!(phase, ShutdownPhase::Asking);
    assert!(matches!(action, ShutdownAction::Ignore));
    let (phase, action) = ShutdownPhase::Ended.step(ShutdownEvent::Tried);
    assert_eq!(phase, ShutdownPhase::Ended);
    assert!(matches!(action, ShutdownAction::Ignore));
}

#[test]
fn a_server_that_exits_is_not_killed() {
    let (phase, action) = ShutdownPhase::Asking.step(ShutdownEvent::Tried);
    assert!(matches!(action, ShutdownAction::SendExit));
    let (phase, action) = phase.step(ShutdownEvent::Tried);
    assert!(matches!(action, ShutdownAction::CloseStdin));
    let (phase, action) = phase.step(ShutdownEvent::StdinClosed);
    assert!(matches!(action, ShutdownAction::Poll));
    let (phase, action) = phase.step(ShutdownEvent::Exited);
    assert!(matches!(action, ShutdownAction::Join));
    let (phase, action) = phase.step(ShutdownEvent::Joined);
    assert!(matches!(action, ShutdownAction::Succeed));
    assert_eq!(phase, ShutdownPhase::Ended);
}

#[test]
fn a_server_that_runs_on_is_killed() {
    let (phase, action) = ShutdownPhase::Polling.step(ShutdownEvent::Running);
    assert!(matches!(action, ShutdownAction::Kill));
    let (phase, action) = phase.step(ShutdownEvent::Killed);
    assert!(matches!(action, ShutdownAction::Reap));
    let (phase, action) = phase.step(ShutdownEvent::Reaped);
    assert!(matches!(action, ShutdownAction::Join));
    assert_eq!(phase, ShutdownPhase::Joining);
}

fn stopped(phase: ShutdownPhase, event: ShutdownEvent) -> Vec<String> {
    match phase.step(event) {
        (ShutdownPhase::Ended, ShutdownAction::Fail(error)) => error.messages(),
        other => panic!("{other:?}"),
    }
}

#[test]
fn a_stop_that_fails() {
    let why = || "why".to_string();
    assert_eq!(stopped(ShutdownPhase::Polling, ShutdownEvent::PollFailed(why())), ["why"]);
    assert_eq!(
        stopped(ShutdownPhase::Killing, ShutdownEvent::KillFailed(why())),
        ["failed to kill MCP server child", "why"]
    );
    assert_eq!(
        stopped(ShutdownPhase::Reaping, ShutdownEvent::ReapFailed(why())),
        ["failed to wait for MCP server child", "why"]
    );
    assert_eq!(
        stopped(ShutdownPhase::Joining, ShutdownEvent::JoinFailed(why())),
        ["MCP stdout reader task failed to join", "why"]
    );
}

#[test]
fn failures_of_the_outside_in_words() {
    let why = || "why".to_string();
    let cases = [
        (Fault::Encode { cause: why() }, "failed to encode JSON-RPC message"),
        (Fault::Flush { cause: why() }, "failed to flush MCP server stdin"),
        (Fault::ToolList { cause: why() }, "failed to decode MCP tools/list response"),
    ];
    for (fault, words) in cases {
        assert_eq!(fault.messages(), [words, "why"]);
    }
    assert_eq!(Fault::Render { cause: why() }.messages(), ["why"]);
}
