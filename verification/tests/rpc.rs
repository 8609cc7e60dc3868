use mcp_stdio_rs::client::{empty_params, initialize_params};
use mcp_stdio_rs::rpc::{json_line, JsonRpcNotification, JsonRpcRequest};
use serde_json::Value;

fn value(text: &str) -> Value {
    serde_json::from_str(text).unwrap()
}

fn read(line: &[u8]) -> Value {
    serde_json::from_slice(&line[..line.len() - 1]).unwrap()
}

#[test]
fn json_rpc_request_round_trips() {
    let request = JsonRpcRequest {
        jsonrpc: "2.0".to_string(),
        id: 7,
        method: "tools/list".to_string(),
        params: Some(empty_params()),
    };

    let encoded = request.into_line().unwrap();
    let decoded = read(&encoded);

    assert_eq!(decoded.get("jsonrpc").and_then(Value::as_str), Some("2.0"));
    assert_eq!(decoded.get("id").and_then(Value::as_u64), Some(7));
    assert_eq!(decoded.get("method").and_then(Value::as_str), Some("tools/list"));
    assert_eq!(decoded.get("params"), Some(&value("{}")));
    assert_eq!(decoded.as_object().unwrap().len(), 4);
}

#[test]
fn a_request_is_written_in_the_order_of_its_parts() {
    let line = JsonRpcRequest::new(7, "tools/list", empty_params()).into_line().unwrap();
    assert_eq!(
        line,
        b"{\"jsonrpc\":\"2.0\",\"id\":7,\"method\":\"tools/list\",\"params\":{}}\n"
    );
}

#[test]
fn a_request_may_have_no_parameters() {
    let request = JsonRpcRequest {
        jsonrpc: "2.0".to_string(),
        id: u64::MAX,
        method: "ping".to_string(),
        params: None,
    };
    assert_eq!(
        request.into_line().unwrap(),
        b"{\"jsonrpc\":\"2.0\",\"id\":18446744073709551615,\"method\":\"ping\"}\n"
    );
}

#[test]
fn a_notification_has_no_id() {
    let line = JsonRpcNotification::new("notifications/exit", empty_params()).into_line().unwrap();
    assert_eq!(
        line,
        b"{\"jsonrpc\":\"2.0\",\"method\":\"notifications/exit\",\"params\":{}}\n"
    );
    let line = JsonRpcNotification {
        jsonrpc: "2.0".to_string(),
        method: "x".to_string(),
        params: None,
    }
    .into_line()
    .unwrap();
    assert_eq!(line, b"{\"jsonrpc\":\"2.0\",\"method\":\"x\"}\n");
}

#[test]
fn a_message_is_one_line_whatever_it_holds() {
    let params = value("{\"text\":\"one\\ntwo\\r\\u0000\\u2028\",\"n\":[1.5,-3,null]}");
    let line = JsonRpcRequest::new(1, "a\nb", params.clone()).into_line().unwrap();
    assert_eq!(line.iter().filter(|b| **b == b'\n').count(), 1);
    assert_eq!(line.last(), Some(&b'\n'));
    let decoded = read(&line);
    assert_eq!(decoded.get("method").and_then(Value::as_str), Some("a\nb"));
    assert_eq!(decoded.get("params"), Some(&params));
}

#[test]
fn messages_stay_apart() {
    let mut stream = Vec::new();
    for id in 0..3 {
        let params = value("\"a\\nb\"");
        stream.extend(JsonRpcRequest::new(id, "m", params).into_line().unwrap());
    }
    let text = String::from_utf8(stream).unwrap();
    let ids: Vec<Option<u64>> = text
        .lines()
        .map(|line| value(line).get("id").and_then(Value::as_u64))
        .collect();
    assert_eq!(ids, [Some(0), Some(1), Some(2)]);
}

#[test]
fn members_are_written_in_their_order() {
    let members = vec![
        ("z".to_string(), value("1")),
        ("a\"".to_string(), value("[true,\"\\u00e9\"]")),
    ];
    assert_eq!(json_line(members).unwrap(), "{\"z\":1,\"a\\\"\":[true,\"\u{e9}\"]}\n".as_bytes());
    assert_eq!(json_line(vec![]).unwrap(), b"{}\n");
}

#[test]
fn deeply_nested_parameters_are_read_back() {
    let params = value(&("[".repeat(126) + &"]".repeat(126)));
    let line = JsonRpcRequest::new(1, "m", params.clone()).into_line().unwrap();
    assert_eq!(read(&line).get("params"), Some(&params));
}

#[test]
fn the_handshake_names_the_protocol_and_the_client() {
    assert_eq!(
        initialize_params(),
        value(
            "{\"protocolVersion\":\"2024-11-05\",\"capabilities\":{},\"clientInfo\":{\"name\":\"mcp-stdio-rs\",\"version\":\"0.1.0\"}}"
        )
    );
    assert_eq!(empty_params(), value("{}"));
}

#[test]
fn a_request_with_fractions_reads_back_but_for_them() {
    let params = value("{\"n\":7,\"list\":[0.1,2.5,-0.0,1e300,\"x\"],\"deep\":{\"f\":3.0}}");
    let line = JsonRpcRequest::new(7, "tools/call", params).into_line().unwrap();
    let decoded = read(&line);
    assert_eq!(decoded.as_object().unwrap().len(), 4);
    assert_eq!(decoded.get("jsonrpc").and_then(Value::as_str), Some("2.0"));
    assert_eq!(decoded.get("id").and_then(Value::as_u64), Some(7));
    assert_eq!(decoded.get("method").and_then(Value::as_str), Some("tools/call"));
    let params = decoded.get("params").unwrap();
    assert_eq!(params.get("n").and_then(Value::as_u64), Some(7));
    let list = params.get("list").and_then(Value::as_array).unwrap();
    assert_eq!(list.len(), 5);
    for fraction in &list[..4] {
        assert!(fraction.is_f64());
    }
    assert_eq!(list[4].as_str(), Some("x"));
    assert!(params.pointer("/deep/f").unwrap().is_f64());
}

#[test]
fn a_request_that_nests_too_deep_is_written_but_not_read() {
    let mut params = Value::Null;
    for _ in 0..127 {
        params = Value::Array(vec![params]);
    }
    let line = JsonRpcRequest::new(1, "m", params).into_line().unwrap();
    assert_eq!(line.last(), Some(&b'\n'));
    assert!(serde_json::from_slice::<Value>(&line).is_err());
}
