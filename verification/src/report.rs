//! Tools and results as lines of text.

use vstd::prelude::*;
use vstd::string::*;

use crate::content::{ContentBlock, ContentBlockView, ToolResult, ToolResultView};
use crate::error::{Fault, McpError};
use crate::json::pretty_value_text;
use crate::text::{decimal_text, joined, wrapped};
use crate::tools::ToolDef;

verus! {

/// A tool in lines: its name, its description unless that is empty, and its input schema.
pub open spec fn tool_lines(
    name: Seq<char>,
    description: Seq<char>,
    schema: Seq<char>,
) -> Seq<Seq<char>> {
    seq![name] + (if description.len() == 0 {
        seq![]
    } else {
        seq!["  "@ + description]
    }) + seq!["  input_schema: "@ + schema]
}

/// A piece of content in one line.
pub open spec fn block_line(block: ContentBlockView) -> Seq<char> {
    match block {
        ContentBlockView::Text(text) => text,
        ContentBlockView::Image { data, mime_type } => "[image: "@ + crate::text::decimal(
            data.len(),
        ) + " bytes, "@ + mime_type + "]"@,
        ContentBlockView::ResourceLink(uri) => "[resource: "@ + uri + "]"@,
    }
}

/// A tool result in lines: whether it is an error, then its content.
pub open spec fn result_lines(result: ToolResultView) -> Seq<Seq<char>> {
    seq![
        "is_error: "@ + if result.is_error {
            "true"@
        } else {
            "false"@
        },
    ] + result.content.map_values(|block: ContentBlockView| block_line(block))
}

/// Describes a tool.
pub fn describe_tool(tool: &ToolDef) -> (r: Result<Vec<String>, McpError>)
    ensures
        r matches Ok(lines) && crate::text::texts(lines@) == tool_lines(
            tool.name@,
            tool.description@,
            crate::json::pretty_text(crate::json::document(tool.input_schema)),
        ),
{
    let mut lines: Vec<String> = Vec::new();
    lines.push(tool.name.clone());
    if !tool.description.as_str().is_empty() {
        lines.push(joined("  ", tool.description.as_str()));
    }
    match pretty_value_text(&tool.input_schema) {
        Ok(schema) => {
            lines.push(joined("  input_schema: ", schema.as_str()));
            assert(crate::text::texts(lines@) =~= tool_lines(
                tool.name@,
                tool.description@,
                schema@,
            ));
            Ok(lines)
        },
        Err(cause) => Err(Fault::Render { cause }),
    }
}

/// Describes a piece of content.
pub fn describe_block(block: &ContentBlock) -> (line: String)
    ensures
        line@ == block_line(block@),
{
    match block {
        ContentBlock::Text(text) => text.clone(),
        ContentBlock::Image { data, mime_type } => {
            let size: String = decimal_text(data.len() as u64);
            let head: String = wrapped("[image: ", size.as_str(), " bytes, ");
            wrapped(head.as_str(), mime_type.as_str(), "]")
        },
        ContentBlock::ResourceLink(uri) => wrapped("[resource: ", uri.as_str(), "]"),
    }
}

/// Describes a tool result.
pub fn describe_result(result: &ToolResult) -> (lines: Vec<String>)
    ensures
        crate::text::texts(lines@) == result_lines(result@),
{
    let mut lines: Vec<String> = Vec::new();
    let flag: &str = if result.is_error {
        "true"
    } else {
        "false"
    };
    lines.push(joined("is_error: ", flag));
    let ghost expected = result_lines(result@);
    for i in 0..result.content.len()
        invariant
            expected == result_lines(result@),
            lines@.len() == i + 1,
            crate::text::texts(lines@) == expected.take(i + 1),
    {
        lines.push(describe_block(&result.content[i]));
        assert(crate::text::texts(lines@) =~= expected.take(i + 2));
    }
    assert(expected.take(result.content@.len() as int + 1) =~= expected);
    lines
}

/// A tool is described by its name, then its description, indented, unless that is empty, and then
/// its schema as indented JSON.
pub proof fn law_tool_is_described_in_full(tool: &ToolDef, r: Result<Vec<String>, McpError>)
    requires
        call_ensures(describe_tool, (tool,), r),
    ensures
        ({
            let schema = "  input_schema: "@ + crate::json::pretty_text(
                crate::json::document(tool.input_schema),
            );
            &&& r matches Ok(lines)
            &&& lines@.len() == if tool.description@.len() == 0 {
                2int
            } else {
                3int
            }
            &&& lines@[0]@ == tool.name@
            &&& tool.description@.len() > 0 ==> lines@[1]@ == "  "@ + tool.description@
            &&& lines@[lines@.len() - 1]@ == schema
        }),
{
    let lines = r->Ok_0;
    let all = crate::text::texts(lines@);
    assert(all.len() == lines@.len());
    assert(all[0] == lines@[0]@);
    assert(all[lines@.len() - 1] == lines@[lines@.len() - 1]@);
    if tool.description@.len() > 0 {
        assert(all[1] == lines@[1]@);
    }
}

/// Text is shown as it is, an image by its size in bytes and its media type, and a resource by its
/// URI.
pub proof fn law_block_is_shown_by_what_it_holds(
    block: &ContentBlock,
    line: String,
    size: String,
)
    requires
        call_ensures(describe_block, (block,), line),
        *block matches ContentBlock::Image { data, .. } ==> call_ensures(
            decimal_text,
            (data@.len() as u64,),
            size,
        ),
        *block matches ContentBlock::Image { data, .. } ==> data@.len() <= u64::MAX,
    ensures
        match *block {
            ContentBlock::Text(text) => line@ == text@,
            ContentBlock::Image { mime_type, .. } => line@ == "[image: "@ + size@ + " bytes, "@
                + mime_type@ + "]"@,
            ContentBlock::ResourceLink(uri) => line@ == "[resource: "@ + uri@ + "]"@,
        },
{
}

/// A result is described by whether it is an error, and then its pieces of content, one line for
/// each, in their order.
pub proof fn law_result_is_described_in_full(
    result: &ToolResult,
    lines: Vec<String>,
    i: int,
    line: String,
)
    requires
        call_ensures(describe_result, (result,), lines),
        0 <= i < result.content@.len(),
        call_ensures(describe_block, (&result.content@[i],), line),
    ensures
        lines@.len() == result.content@.len() + 1,
        result.is_error ==> lines@[0]@ == "is_error: "@ + "true"@,
        !result.is_error ==> lines@[0]@ == "is_error: "@ + "false"@,
        lines@[i + 1]@ == line@,
{
    let all = crate::text::texts(lines@);
    assert(all.len() == lines@.len());
    assert(all[0] == lines@[0]@);
    assert(result@.content[i] == result.content@[i]@);
    assert(result@.content.len() == result.content@.len());
    assert(all[i + 1] == block_line(result@.content[i]));
    assert(all[i + 1] == lines@[i + 1]@);
}

/// A result without content is described by whether it is an error alone.
pub proof fn law_empty_result_is_its_flag(result: &ToolResult, lines: Vec<String>)
    requires
        call_ensures(describe_result, (result,), lines),
        result.content@.len() == 0,
    ensures
        lines@.len() == 1,
        result.is_error ==> lines@[0]@ == "is_error: "@ + "true"@,
        !result.is_error ==> lines@[0]@ == "is_error: "@ + "false"@,
{
    let all = crate::text::texts(lines@);
    assert(all.len() == lines@.len());
    assert(result@.content.len() == 0);
    assert(all[0] == lines@[0]@);
}

} // verus!
