use mcp_stdio_rs::client::{McpStdioClient, Outgoing, Spawning};
use mcp_stdio_rs::content::tool_result_from_value;
use mcp_stdio_rs::lifecycle::{ShutdownPhase, SpawnPhase};
use mcp_stdio_rs::pending::{Dispatch, PendingMap, ReaderEvent, ReaderStep};
use mcp_stdio_rs::response::{read_answer, read_message, Message, Response};
use mcp_stdio_rs::{ContentBlock, Fault};
use serde_json::Value;

fn value(text: &str) -> Value {
    serde_json::from_str(text).unwrap()
}

fn client() -> McpStdioClient<&'static str> {
    McpStdioClient::spawn("server", &[], &[]).client
}

fn line(text: &str) -> ReaderEvent {
    ReaderEvent::Line(text.to_string())
}

#[test]
fn a_session_starts_with_its_process() {
    let spawning: Spawning<()> =
        McpStdioClient::spawn("ssh", &["ultra", "mnemos-mcp"], &[("KEY", "1"), ("B", "")]);
    assert_eq!(spawning.launch.program, "ssh");
    assert_eq!(spawning.launch.args, ["ultra", "mnemos-mcp"]);
    assert_eq!(
        spawning.launch.env,
        [
            ("KEY".to_string(), "1".to_string()),
            ("B".to_string(), String::new())
        ]
    );
    assert!(matches!(spawning.phase, SpawnPhase::Launching { cmd } if cmd == "ssh"));
}

#[test]
fn requests_are_numbered_from_one() {
    let mut c = client();
    let init: Outgoing = c.initialize("init").unwrap();
    assert_eq!(init.id, 0);
    assert_eq!(
        String::from_utf8(init.line).unwrap(),
        "{\"jsonrpc\":\"2.0\",\"id\":0,\"method\":\"initialize\",\"params\":{\"capabilities\":{},\"clientInfo\":{\"name\":\"mcp-stdio-rs\",\"version\":\"0.1.0\"},\"protocolVersion\":\"2024-11-05\"}}\n"
    );
    assert_eq!(
        c.initialized().unwrap(),
        b"{\"jsonrpc\":\"2.0\",\"method\":\"notifications/initialized\",\"params\":{}}\n"
    );
    let list = c.list_tools("list").unwrap();
    assert_eq!(list.id, 1);
    assert_eq!(
        list.line,
        b"{\"jsonrpc\":\"2.0\",\"id\":1,\"method\":\"tools/list\",\"params\":{}}\n"
    );
    let call = c.call_tool("echo", value("{\"msg\":\"hello\"}"), "call").unwrap();
    assert_eq!(call.id, 2);
    assert_eq!(
        String::from_utf8(call.line).unwrap(),
        "{\"jsonrpc\":\"2.0\",\"id\":2,\"method\":\"tools/call\",\"params\":{\"arguments\":{\"msg\":\"hello\"},\"name\":\"echo\"}}\n"
    );
    let farewell = c.shutdown().unwrap();
    assert_eq!(farewell.phase, ShutdownPhase::Asking);
    assert_eq!(
        farewell.request,
        b"{\"jsonrpc\":\"2.0\",\"id\":3,\"method\":\"shutdown\",\"params\":{}}\n"
    );
    assert_eq!(
        farewell.exit,
        b"{\"jsonrpc\":\"2.0\",\"method\":\"notifications/exit\",\"params\":{}}\n"
    );
}

#[test]
fn an_echo_reaches_its_caller() {
    let mut c = client();
    let call = c.call_tool("echo", value("{\"msg\":\"hello\"}"), "caller").unwrap();
    let request: Value = serde_json::from_slice(&call.line).unwrap();
    let said = request.pointer("/params/arguments/msg").and_then(Value::as_str).unwrap();
    let response = format!(
        "{{\"jsonrpc\":\"2.0\",\"id\":{},\"result\":{{\"content\":[{{\"type\":\"text\",\"text\":\"{said}\"}}],\"isError\":false}}}}",
        call.id
    );
    let answer = match c.read(line(&response)) {
        ReaderStep::Dispatched(Dispatch::Deliver(delivery)) => {
            assert_eq!(delivery.waiter, "caller");
            delivery.answer
        }
        other => panic!("{other:?}"),
    };
    let result =
        McpStdioClient::<()>::conclude(call.id, Some(answer)).and_then(tool_result_from_value);
    assert!(result
        .unwrap()
        .content
        .iter()
        .any(|block| matches!(block, ContentBlock::Text(text) if text == "hello")));
}

#[test]
fn responses_come_in_any_order() {
    let mut c = client();
    let a = c.list_tools("a").unwrap();
    let b = c.list_tools("b").unwrap();
    match c.read(line(&format!("{{\"id\":{},\"result\":2}}", b.id))) {
        ReaderStep::Dispatched(Dispatch::Deliver(d)) => {
            assert_eq!((d.id, d.waiter, d.answer.unwrap()), (b.id, "b", value("2")))
        }
        other => panic!("{other:?}"),
    }
    match c.read(line(&format!("{{\"id\":{},\"result\":null}}", a.id))) {
        ReaderStep::Dispatched(Dispatch::Deliver(d)) => {
            assert_eq!((d.id, d.waiter, d.answer.unwrap()), (a.id, "a", Value::Null))
        }
        other => panic!("{other:?}"),
    }
}

#[test]
fn no_request_is_answered_twice() {
    let mut pending = PendingMap::new();
    assert_eq!(pending.insert(4, "w"), None);
    let text = "{\"id\":4,\"result\":{}}";
    assert!(matches!(pending.dispatch_line(text), Dispatch::Deliver(_)));
    assert!(matches!(pending.dispatch_line(text), Dispatch::UnknownId(4)));
}

#[test]
fn what_is_no_response_is_passed_over() {
    let mut pending = PendingMap::new();
    pending.insert(1, "w");
    for text in [
        "{\"method\":\"notifications/progress\"}",
        "{\"id\":\"1\",\"result\":0}",
        "{\"id\":-1,\"result\":0}",
        "{\"id\":1.0,\"result\":0}",
        "{\"id\":null,\"result\":0}",
        "[1]",
        "1",
    ] {
        assert!(matches!(
            pending.dispatch_line(text),
            Dispatch::NotAResponse(shown) if shown == value(text).to_string()
        ));
    }
    assert!(matches!(
        pending.dispatch_line("not json"),
        Dispatch::InvalidJson(wording) if wording == "expected ident at line 1 column 2"
    ));
    assert_eq!(pending.remove(1), Some("w"));
    assert_eq!(pending.remove(1), None);
}

#[test]
fn a_refusal_carries_the_error_s_text() {
    let mut pending = PendingMap::new();
    pending.insert(3, ());
    let text = "{\"id\":3, \"error\": { \"message\":\"no\", \"code\":-32601 }, \"result\":1}";
    match pending.dispatch_line(text) {
        Dispatch::Deliver(delivery) => assert_eq!(
            delivery.answer.unwrap_err().messages(),
            ["MCP request 3 failed: {\"code\":-32601,\"message\":\"no\"}"]
        ),
        other => panic!("{other:?}"),
    }
}

#[test]
fn a_response_without_result_or_error_is_hollow() {
    let mut pending = PendingMap::new();
    pending.insert(12, ());
    match pending.dispatch_line("{\"id\":12}") {
        Dispatch::Deliver(delivery) => assert_eq!(
            delivery.answer.unwrap_err().messages(),
            ["MCP response for request 12 did not contain result or error"]
        ),
        other => panic!("{other:?}"),
    }
}

#[test]
fn messages_are_dispatched_by_their_parts() {
    let mut pending = PendingMap::new();
    pending.insert(5, "five");
    let message = Message::Other("{}".to_string());
    assert!(matches!(
        pending.dispatch_message(message),
        Dispatch::NotAResponse(text) if text == "{}"
    ));
    let message = Message::Response(Response { id: 6, error: None, result: None });
    assert!(matches!(pending.dispatch_message(message), Dispatch::UnknownId(6)));
    let message = Message::Response(Response { id: 5, error: None, result: Some(value("[]")) });
    match pending.dispatch_message(message) {
        Dispatch::Deliver(d) => assert_eq!((d.waiter, d.answer.unwrap()), ("five", value("[]"))),
        other => panic!("{other:?}"),
    }
}

#[test]
fn the_parts_of_a_message() {
    let text = "{\"id\":9,\"error\":[1, 2],\"result\":{\"a\":true}}";
    match read_message(&value(text)) {
        Message::Response(response) => {
            assert_eq!(response.id, 9);
            assert_eq!(response.error.as_deref(), Some("[1,2]"));
            assert_eq!(response.result, Some(value("{\"a\":true}")));
            assert!(matches!(
                read_answer(response),
                Err(Fault::Refused { id: 9, error }) if error == "[1,2]"
            ));
        }
        other => panic!("{other:?}"),
    }
    match read_message(&value("{ \"id\": 0, \"error\": null }")) {
        Message::Response(response) => {
            assert_eq!(response.id, 0);
            assert_eq!(response.error.as_deref(), Some("null"));
            assert_eq!(response.result, None);
        }
        other => panic!("{other:?}"),
    }
    assert!(matches!(
        read_message(&value("{ \"method\": \"m\", \"error\": 1 }")),
        Message::Other(text) if text == "{\"error\":1,\"method\":\"m\"}"
    ));
}

#[test]
fn blank_lines_are_skipped() {
    let mut c = client();
    for text in ["", "  \t ", "\u{a0}"] {
        assert!(matches!(c.read(line(text)), ReaderStep::Skip));
    }
    assert!(matches!(
        c.read(line("x")),
        ReaderStep::Dispatched(Dispatch::InvalidJson(_))
    ));
}

#[test]
fn the_end_of_the_output_fails_everything_that_waits() {
    let mut c = client();
    let a = c.list_tools("a").unwrap();
    let b = c.list_tools("b").unwrap();
    let mut told = match c.read(ReaderEvent::Closed) {
        ReaderStep::Stop(failures) => failures,
        other => panic!("{other:?}"),
    };
    told.sort_by_key(|delivery| delivery.id);
    assert_eq!(told.len(), 2);
    assert_eq!((told[0].id, told[0].waiter), (a.id, "a"));
    assert_eq!((told[1].id, told[1].waiter), (b.id, "b"));
    for delivery in told {
        assert_eq!(
            delivery.answer.unwrap_err().messages(),
            ["MCP server stdout closed"]
        );
    }
    assert!(matches!(
        c.read(line("{\"id\":1,\"result\":0}")),
        ReaderStep::Dispatched(Dispatch::UnknownId(1))
    ));
}

#[test]
fn an_unreadable_output_fails_everything_that_waits() {
    let mut c = client();
    c.list_tools("a").unwrap();
    match c.read(ReaderEvent::Failed("broken".to_string())) {
        ReaderStep::Stop(failures) => {
            assert_eq!(failures.len(), 1);
            assert_eq!(
                failures[0].answer.as_ref().unwrap_err().messages(),
                ["failed to read MCP server stdout: broken"]
            );
        }
        other => panic!("{other:?}"),
    }
}

#[test]
fn a_request_that_was_not_written_does_not_wait() {
    let mut c = client();
    let out = c.list_tools("a").unwrap();
    let broken = Fault::Write { cause: "broken pipe".to_string() };
    let error = c.written(out.id, Err(broken)).unwrap_err();
    assert_eq!(
        error.messages(),
        ["failed to write JSON-RPC message to MCP server stdin", "broken pipe"]
    );
    assert!(matches!(
        c.read(line("{\"id\":1,\"result\":0}")),
        ReaderStep::Dispatched(Dispatch::UnknownId(1))
    ));
    assert_eq!(c.list_tools("b").unwrap().id, 2);
}

#[test]
fn a_request_ends_with_what_it_was_told() {
    assert_eq!(
        McpStdioClient::<()>::conclude(8, None).unwrap_err().messages(),
        ["MCP server closed before responding to request 8"]
    );
    assert_eq!(
        McpStdioClient::<()>::conclude(8, Some(Ok(value("1")))).unwrap(),
        value("1")
    );
}

#[test]
fn other_requests_and_notifications() {
    let mut c = client();
    let out = c.send_request("ping", value("[1]"), "w").unwrap();
    assert_eq!(out.line, b"{\"jsonrpc\":\"2.0\",\"id\":1,\"method\":\"ping\",\"params\":[1]}\n");
    let out = c.send_request_with_id(40, "ping", Value::Null, "x").unwrap();
    assert_eq!(out.line, b"{\"jsonrpc\":\"2.0\",\"id\":40,\"method\":\"ping\",\"params\":null}\n");
    let silent = c.send_request_no_response("bye", value("{}")).unwrap();
    assert_eq!(silent, b"{\"jsonrpc\":\"2.0\",\"id\":2,\"method\":\"bye\",\"params\":{}}\n");
    assert!(matches!(
        c.read(line("{\"id\":2,\"result\":0}")),
        ReaderStep::Dispatched(Dispatch::UnknownId(2))
    ));
    assert!(matches!(
        c.read(line("{\"id\":40,\"result\":0}")),
        ReaderStep::Dispatched(Dispatch::Deliver(d)) if d.waiter == "x"
    ));
    let note = c.send_notification("n", value("0")).unwrap();
    assert_eq!(note, b"{\"jsonrpc\":\"2.0\",\"method\":\"n\",\"params\":0}\n");
}

#[test]
fn a_request_displaces_no_other() {
    let mut c: McpStdioClient<u64> = McpStdioClient::spawn("server", &[], &[]).client;
    assert_eq!(c.initialize(100).unwrap().id, 0);
    for n in 1..=50 {
        assert_eq!(c.list_tools(100 + n).unwrap().id, n);
    }
    match c.read(ReaderEvent::Closed) {
        ReaderStep::Stop(failures) => {
            assert_eq!(failures.len(), 51);
            assert!(failures.iter().all(|delivery| delivery.waiter == 100 + delivery.id));
        }
        other => panic!("{other:?}"),
    }
}

#[test]
fn an_error_counts_before_a_result() {
    let mut pending = PendingMap::new();
    pending.insert(2, "w");
    match pending.dispatch_line("{\"id\":2,\"result\":{},\"error\":null}") {
        Dispatch::Deliver(delivery) => assert!(matches!(
            delivery.answer,
            Err(Fault::Refused { id: 2, error }) if error == "null"
        )),
        other => panic!("{other:?}"),
    }
    assert_eq!(pending.remove(2), None);
}

#[test]
fn a_request_that_was_written_waits() {
    let mut c = client();
    let a = c.list_tools("a").unwrap();
    let b = c.list_tools("b").unwrap();
    assert!(c.written(a.id, Ok(())).is_ok());
    assert!(c.written(b.id, Err(Fault::Flush { cause: "gone".to_string() })).is_err());
    match c.read(ReaderEvent::Closed) {
        ReaderStep::Stop(failures) => {
            assert_eq!(failures.len(), 1);
            assert_eq!((failures[0].id, failures[0].waiter), (a.id, "a"));
        }
        other => panic!("{other:?}"),
    }
}

#[test]
fn a_request_waits_until_it_is_answered() {
    let mut c = client();
    let a = c.list_tools("a").unwrap();
    let b = c.list_tools("b").unwrap();
    for text in ["{\"method\":\"log\"}", "oops", "", "{\"id\":77}", "{\"id\":-1}"] {
        assert!(!matches!(
            c.read(line(text)),
            ReaderStep::Dispatched(Dispatch::Deliver(_))
        ));
    }
    assert!(matches!(
        c.read(line(&format!("{{\"id\":{},\"result\":1}}", b.id))),
        ReaderStep::Dispatched(Dispatch::Deliver(d)) if d.waiter == "b"
    ));
    assert!(matches!(
        c.read(line(&format!("{{\"id\":{},\"result\":1}}", a.id))),
        ReaderStep::Dispatched(Dispatch::Deliver(d)) if d.waiter == "a"
    ));
}
