use mcp_stdio_rs::report::{describe_block, describe_result, describe_tool};
use mcp_stdio_rs::tools::{
    arguments_from_text, call_params, tools_from_list, ToolsListResult, WireToolDef,
};
use mcp_stdio_rs::{ContentBlock, Fault, ToolDef, ToolResult};
use serde_json::Value;

fn value(text: &str) -> Value {
    serde_json::from_str(text).unwrap()
}

#[test]
fn tools_come_in_the_order_of_the_list() {
    let list = ToolsListResult {
        tools: vec![
            WireToolDef {
                name: "echo".to_string(),
                description: Some("Echoes the msg argument.".to_string()),
                input_schema: value("{\"type\":\"object\"}"),
            },
            WireToolDef {
                name: "bare".to_string(),
                description: None,
                input_schema: Value::Null,
            },
        ],
    };
    let tools = tools_from_list(list);
    assert_eq!(tools.len(), 2);
    assert_eq!(tools[0].name, "echo");
    assert_eq!(tools[0].description, "Echoes the msg argument.");
    assert_eq!(tools[0].input_schema, value("{\"type\":\"object\"}"));
    assert_eq!(tools[1].name, "bare");
    assert_eq!(tools[1].description, "");
    assert_eq!(tools[1].input_schema, Value::Null);
    assert!(tools_from_list(ToolsListResult { tools: vec![] }).is_empty());
}

#[test]
fn a_copy_of_a_tool_says_the_same() {
    let tool = ToolDef {
        name: "n".to_string(),
        description: "d".to_string(),
        input_schema: value("[1,{\"a\":2.5}]"),
    };
    let copy = tool.clone();
    assert_eq!(copy.name, tool.name);
    assert_eq!(copy.description, tool.description);
    assert_eq!(copy.input_schema, tool.input_schema);
}

#[test]
fn a_call_carries_its_arguments() {
    assert_eq!(
        call_params("echo", value("{\"msg\":\"hello\"}")),
        value("{\"name\":\"echo\",\"arguments\":{\"msg\":\"hello\"}}")
    );
}

#[test]
fn arguments_are_json() {
    assert_eq!(arguments_from_text("{\"a\":[1]}").unwrap(), value("{\"a\":[1]}"));
    let error = arguments_from_text("{").unwrap_err();
    assert!(matches!(error, Fault::Arguments { .. }));
    assert_eq!(
        error.messages(),
        [
            "failed to parse --args as JSON",
            "EOF while parsing an object at line 1 column 1"
        ]
    );
}

#[test]
fn a_tool_in_lines() {
    let mut tool = ToolDef {
        name: "echo".to_string(),
        description: "Echoes.".to_string(),
        input_schema: value("{\"type\":\"object\"}"),
    };
    assert_eq!(
        describe_tool(&tool).unwrap(),
        [
            "echo",
            "  Echoes.",
            "  input_schema: {\n  \"type\": \"object\"\n}"
        ]
    );
    tool.description = String::new();
    tool.input_schema = Value::Null;
    assert_eq!(describe_tool(&tool).unwrap(), ["echo", "  input_schema: null"]);
}

#[test]
fn a_result_in_lines() {
    let result = ToolResult {
        content: vec![
            ContentBlock::Text("hi".to_string()),
            ContentBlock::Image { data: vec![0; 12], mime_type: "image/png".to_string() },
            ContentBlock::ResourceLink("file:///a".to_string()),
        ],
        is_error: false,
    };
    assert_eq!(
        describe_result(&result),
        [
            "is_error: false",
            "hi",
            "[image: 12 bytes, image/png]",
            "[resource: file:///a]"
        ]
    );
    let failed = ToolResult { content: vec![], is_error: true };
    assert_eq!(describe_result(&failed), ["is_error: true"]);
    assert_eq!(describe_block(&ContentBlock::Text(String::new())), "");
}
