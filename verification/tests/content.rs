use mcp_stdio_rs::content::{decode_content_block, decode_tool_result, tool_result_from_value};
use mcp_stdio_rs::{ContentBlock, Fault, Json, McpError, ToolResult};
use serde_json::Value;

fn json(text: &str) -> Json {
    Json::parse(text).unwrap()
}

fn block(text: &str) -> Result<ContentBlock, McpError> {
    decode_content_block(&json(text))
}

fn result(text: &str) -> Result<ToolResult, McpError> {
    decode_tool_result(&json(text))
}

fn text(s: &str) -> Json {
    Json::Text(s.to_string())
}

#[test]
fn text_blocks() {
    let value = Json::Object(vec![
        ("type".to_string(), text("text")),
        ("text".to_string(), text("hello")),
    ]);
    assert!(matches!(decode_content_block(&value), Ok(ContentBlock::Text(t)) if t == "hello"));
    assert!(matches!(block(r#"{"type":"text"}"#), Ok(ContentBlock::Text(t)) if t.is_empty()));
    assert!(matches!(block(r#"{"type":"text","text":5}"#), Ok(ContentBlock::Text(t)) if t.is_empty()));
}

#[test]
fn image_blocks() {
    match block(r#"{"type":"image","data":"aGVsbG8=","mimeType":"image/png"}"#).unwrap() {
        ContentBlock::Image { data, mime_type } => {
            assert_eq!(data, b"hello");
            assert_eq!(mime_type, "image/png");
        }
        other => panic!("{other:?}"),
    }
    match block(r#"{"type":"image","data":"","mimeType":7}"#).unwrap() {
        ContentBlock::Image { data, mime_type } => {
            assert!(data.is_empty());
            assert_eq!(mime_type, "application/octet-stream");
        }
        other => panic!("{other:?}"),
    }
}

#[test]
fn image_blocks_that_are_refused() {
    let error = block(r#"{"type":"image"}"#).unwrap_err();
    assert!(matches!(error, Fault::NoImageData));
    assert_eq!(error.messages(), ["MCP image content block missing data"]);
    assert!(matches!(block(r#"{"type":"image","data":1}"#), Err(Fault::NoImageData)));
    assert!(matches!(block(r#"{"type":"image","data":"a"}"#), Err(Fault::Base64Length)));
    assert!(matches!(block(r#"{"type":"image","data":"?"}"#), Err(Fault::Base64Byte(63))));
}

fn link(text: &str) -> String {
    match block(text).unwrap() {
        ContentBlock::ResourceLink(uri) => uri,
        other => panic!("{other:?}"),
    }
}

#[test]
fn resource_links() {
    assert_eq!(link(r#"{"type":"resource_link","uri":"file:///a"}"#), "file:///a");
    assert_eq!(link(r#"{"type":"resourceLink","url":"http://b"}"#), "http://b");
    assert_eq!(link(r#"{"type":"resource_link","uri":"u","url":"v"}"#), "u");

    let error = block(r#"{"type":"resource_link"}"#).unwrap_err();
    assert!(matches!(error, Fault::NoLinkUri));
    assert_eq!(error.messages(), ["MCP resource link content block missing uri"]);
    assert!(matches!(
        block(r#"{"type":"resourceLink","uri":null,"url":"v"}"#),
        Err(Fault::NoLinkUri)
    ));
}

#[test]
fn resources() {
    assert_eq!(link(r#"{"type":"resource","resource":{"uri":"u"},"uri":"v"}"#), "u");
    assert_eq!(link(r#"{"type":"resource","resource":{},"uri":"v"}"#), "v");
    assert_eq!(link(r#"{"type":"resource","resource":3,"uri":"v"}"#), "v");
    assert_eq!(link(r#"{"type":"resource","uri":"v"}"#), "v");

    let error = block(r#"{"type":"resource","resource":{"uri":1},"uri":"v"}"#).unwrap_err();
    assert!(matches!(error, Fault::NoResourceUri));
    assert_eq!(error.messages(), ["MCP resource content block missing uri"]);
    assert!(matches!(block(r#"{"type":"resource"}"#), Err(Fault::NoResourceUri)));
}

#[test]
fn other_blocks_are_unsupported() {
    let error = block(r#"{"type":"audio"}"#).unwrap_err();
    assert!(matches!(&error, Fault::UnsupportedBlock { kind } if kind == "audio"));
    assert_eq!(error.messages(), ["unsupported MCP content block type `audio`"]);
    for text in ["{}", r#"{"type":1}"#, "[]", "\"text\"", "null"] {
        let error = block(text).unwrap_err();
        assert_eq!(error.messages(), ["unsupported MCP content block type ``"]);
    }
}

#[test]
fn results_keep_the_order_of_their_blocks() {
    let r = result(
        r#"{"content":[{"type":"text","text":"a"},{"type":"resource","uri":"u"},{"type":"text","text":"b"}],"isError":true}"#,
    )
    .unwrap();
    assert!(r.is_error);
    assert_eq!(r.content.len(), 3);
    assert!(matches!(&r.content[0], ContentBlock::Text(t) if t == "a"));
    assert!(matches!(&r.content[1], ContentBlock::ResourceLink(u) if u == "u"));
    assert!(matches!(&r.content[2], ContentBlock::Text(t) if t == "b"));
}

#[test]
fn results_are_no_errors_unless_they_say_so() {
    for text in [
        r#"{"content":[]}"#,
        r#"{"content":[],"isError":false}"#,
        r#"{"content":[],"isError":"true"}"#,
    ] {
        let r = result(text).unwrap();
        assert!(!r.is_error);
        assert!(r.content.is_empty());
    }
}

#[test]
fn results_need_an_array_of_content() {
    for text in ["{}", r#"{"content":{}}"#, "[]", "null", "7"] {
        let error = result(text).unwrap_err();
        assert!(matches!(error, Fault::NoContent));
        assert_eq!(
            error.messages(),
            ["MCP tools/call response missing content array"]
        );
    }
}

#[test]
fn the_first_bad_block_spoils_the_result() {
    let text = r#"{"content":[{"type":"text"},{"type":"image"},{"type":"video"}]}"#;
    assert!(matches!(result(text), Err(Fault::NoImageData)));
}

#[test]
fn results_are_read_from_values() {
    let value: Value =
        serde_json::from_str(r#"{"content":[{"type":"text","text":"hello"}],"isError":false}"#)
            .unwrap();
    let r = tool_result_from_value(value).unwrap();
    assert!(!r.is_error);
    assert!(matches!(&r.content[0], ContentBlock::Text(t) if t == "hello"));
    assert!(matches!(tool_result_from_value(Value::Null), Err(Fault::NoContent)));
}
