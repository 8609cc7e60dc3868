//! The content that a tool returns.

use serde_json::Value;
use vstd::prelude::*;
use vstd::string::*;

use crate::base64::decode_base64;
use crate::error::{Fault, McpError};
use crate::json::{Json, JsonView};
use crate::text::same_text;

verus! {

/// What a tool call returned.
#[derive(Debug)]
pub struct ToolResult {
    pub content: Vec<ContentBlock>,
    pub is_error: bool,
}

/// A piece of content.
#[derive(Debug)]
pub enum ContentBlock {
    Text(String),
    Image { data: Vec<u8>, mime_type: String },
    ResourceLink(String),
}

/// What a tool result says.
#[verifier::ext_equal]
pub struct ToolResultView {
    pub content: Seq<ContentBlockView>,
    pub is_error: bool,
}

/// What a piece of content says.
#[verifier::ext_equal]
pub enum ContentBlockView {
    Text(Seq<char>),
    Image { data: Seq<u8>, mime_type: Seq<char> },
    ResourceLink(Seq<char>),
}

impl View for ContentBlock {
    type V = ContentBlockView;

    open spec fn view(&self) -> ContentBlockView {
        match self {
            ContentBlock::Text(text) => ContentBlockView::Text(text@),
            ContentBlock::Image { data, mime_type } => ContentBlockView::Image {
                data: data@,
                mime_type: mime_type@,
            },
            ContentBlock::ResourceLink(uri) => ContentBlockView::ResourceLink(uri@),
        }
    }
}

impl View for ToolResult {
    type V = ToolResultView;

    open spec fn view(&self) -> ToolResultView {
        ToolResultView {
            content: self.content@.map_values(|block: ContentBlock| block@),
            is_error: self.is_error,
        }
    }
}

/// The text, or nothing for text that is not there.
pub open spec fn text_or_empty(text: Option<Seq<char>>) -> Seq<char> {
    match text {
        Some(t) => t,
        None => seq![],
    }
}

/// A link to the resource with the given URI, where there is one.
pub open spec fn link_to(
    uri: Option<Seq<char>>,
    missing: Fault<Seq<char>>,
) -> Result<ContentBlockView, Fault<Seq<char>>> {
    match uri {
        Some(u) => Ok(ContentBlockView::ResourceLink(u)),
        None => Err(missing),
    }
}

/// The image in an image block.
pub open spec fn image_in(block: JsonView) -> Result<ContentBlockView, Fault<Seq<char>>> {
    match block.text_member("data"@) {
        None => Err(Fault::NoImageData),
        Some(data) => match crate::base64::decoded(vstd::utf8::encode_utf8(data)) {
            Err(fault) => Err(fault),
            Ok(bytes) => Ok(
                ContentBlockView::Image {
                    data: bytes,
                    mime_type: match block.text_member("mimeType"@) {
                        Some(mime_type) => mime_type,
                        None => "application/octet-stream"@,
                    },
                },
            ),
        },
    }
}

/// The URI of a resource link block. `url` counts only where there is no `uri` at all.
pub open spec fn link_uri(block: JsonView) -> Option<Seq<char>> {
    if block.member("uri"@) is Some {
        block.text_member("uri"@)
    } else {
        block.text_member("url"@)
    }
}

/// The URI of a resource block. The block's own `uri` counts only where the resource has none
/// at all.
pub open spec fn resource_uri(block: JsonView) -> Option<Seq<char>> {
    match block.member("resource"@) {
        Some(resource) => if resource.member("uri"@) is Some {
            resource.text_member("uri"@)
        } else {
            block.text_member("uri"@)
        },
        None => block.text_member("uri"@),
    }
}

/// The content that a content block holds, by the type that it gives.
pub open spec fn block_content(block: JsonView) -> Result<ContentBlockView, Fault<Seq<char>>> {
    let kind = text_or_empty(block.text_member("type"@));
    if kind == "text"@ {
        Ok(ContentBlockView::Text(text_or_empty(block.text_member("text"@))))
    } else if kind == "image"@ {
        image_in(block)
    } else if kind == "resource_link"@ || kind == "resourceLink"@ {
        link_to(link_uri(block), Fault::NoLinkUri)
    } else if kind == "resource"@ {
        link_to(resource_uri(block), Fault::NoResourceUri)
    } else {
        Err(Fault::UnsupportedBlock { kind })
    }
}

/// The content of blocks in their order, or what is wrong with the first that has none.
pub open spec fn blocks_content(
    blocks: Seq<JsonView>,
) -> Result<Seq<ContentBlockView>, Fault<Seq<char>>>
    decreases blocks.len(),
{
    if blocks.len() == 0 {
        Ok(seq![])
    } else {
        match blocks_content(blocks.drop_last()) {
            Err(fault) => Err(fault),
            Ok(content) => match block_content(blocks.last()) {
                Err(fault) => Err(fault),
                Ok(block) => Ok(content.push(block)),
            },
        }
    }
}

/// The result that the answer to a tool call holds.
pub open spec fn tool_result(answer: JsonView) -> Result<ToolResultView, Fault<Seq<char>>> {
    match answer.member("content"@) {
        Some(JsonView::Array(blocks)) => match blocks_content(blocks) {
            Err(fault) => Err(fault),
            Ok(content) => Ok(
                ToolResultView {
                    content,
                    is_error: match answer.member("isError"@) {
                        Some(flag) => flag.truth() == Some(true),
                        None => false,
                    },
                },
            ),
        },
        _ => Err(Fault::NoContent),
    }
}

/// `r` is `expected`, in what they say.
pub open spec fn block_is(
    r: Result<ContentBlock, McpError>,
    expected: Result<ContentBlockView, Fault<Seq<char>>>,
) -> bool {
    match expected {
        Ok(block) => r matches Ok(b) && b@ == block,
        Err(fault) => r matches Err(e) && e@ == fault,
    }
}

/// `r` is `expected`, in what they say.
pub open spec fn result_is(
    r: Result<ToolResult, McpError>,
    expected: Result<ToolResultView, Fault<Seq<char>>>,
) -> bool {
    match expected {
        Ok(result) => r matches Ok(t) && t@ == result,
        Err(fault) => r matches Err(e) && e@ == fault,
    }
}

/// A link to the resource with the given URI, where there is one.
fn decode_link(uri: Option<&str>, missing: McpError) -> (r: Result<ContentBlock, McpError>)
    ensures
        match uri {
            Some(u) => block_is(r, link_to(Some(u@), missing@)),
            None => block_is(r, link_to(None, missing@)),
        },
{
    match uri {
        Some(u) => Ok(ContentBlock::ResourceLink(u.to_owned())),
        None => Err(missing),
    }
}

/// The image in an image block.
fn decode_image(value: &Json) -> (r: Result<ContentBlock, McpError>)
    ensures
        block_is(r, image_in(value@)),
{
    match value.get_str("data") {
        None => Err(Fault::NoImageData),
        Some(text) => match decode_base64(text) {
            Err(error) => Err(error),
            Ok(data) => {
                let mime_type: String = match value.get_str("mimeType") {
                    Some(mime_type) => mime_type.to_owned(),
                    None => "application/octet-stream".to_owned(),
                };
                Ok(ContentBlock::Image { data, mime_type })
            },
        },
    }
}

/// The URI of a resource link block.
fn find_link_uri(value: &Json) -> (uri: Option<&str>)
    ensures
        match uri {
            Some(u) => link_uri(value@) == Some(u@),
            None => link_uri(value@) is None,
        },
{
    match value.get("uri") {
        Some(uri) => uri.as_str(),
        None => value.get_str("url"),
    }
}

/// The URI of a resource block.
fn find_resource_uri(value: &Json) -> (uri: Option<&str>)
    ensures
        match uri {
            Some(u) => resource_uri(value@) == Some(u@),
            None => resource_uri(value@) is None,
        },
{
    if let Some(resource) = value.get("resource") {
        if let Some(uri) = resource.get("uri") {
            return uri.as_str();
        }
    }
    value.get_str("uri")
}

/// Reads a content block.
pub fn decode_content_block(value: &Json) -> (r: Result<ContentBlock, McpError>)
    ensures
        block_is(r, block_content(value@)),
{
    let kind: String = match value.get_str("type") {
        Some(kind) => kind.to_owned(),
        None => String::new(),
    };
    let kind_text: &str = kind.as_str();
    if same_text(kind_text, "text") {
        let text: String = match value.get_str("text") {
            Some(text) => text.to_owned(),
            None => String::new(),
        };
        Ok(ContentBlock::Text(text))
    } else if same_text(kind_text, "image") {
        decode_image(value)
    } else if same_text(kind_text, "resource_link") || same_text(kind_text, "resourceLink") {
        decode_link(find_link_uri(value), Fault::NoLinkUri)
    } else if same_text(kind_text, "resource") {
        decode_link(find_resource_uri(value), Fault::NoResourceUri)
    } else {
        Err(Fault::UnsupportedBlock { kind })
    }
}

/// Reads the answer to a tool call.
pub fn decode_tool_result(value: &Json) -> (r: Result<ToolResult, McpError>)
    ensures
        result_is(r, tool_result(value@)),
{
    let is_error: bool = match value.get("isError") {
        Some(flag) => match flag.as_bool() {
            Some(truth) => truth,
            None => false,
        },
        None => false,
    };
    let blocks: &Vec<Json> = match value.get("content") {
        Some(content) => match content.as_array() {
            Some(blocks) => blocks,
            None => {
                return Err(Fault::NoContent);
            },
        },
        None => {
            return Err(Fault::NoContent);
        },
    };
    let ghost documents = blocks@.map_values(|block: Json| block@);
    let mut content: Vec<ContentBlock> = Vec::new();
    let ghost mut said: Seq<ContentBlockView> = seq![];
    for i in 0..blocks.len()
        invariant
            documents == blocks@.map_values(|block: Json| block@),
            value@.member("content"@) == Some(JsonView::Array(documents)),
            said == content@.map_values(|block: ContentBlock| block@),
            blocks_content(documents.take(i as int)) == Ok::<
                Seq<ContentBlockView>,
                Fault<Seq<char>>,
            >(said),
    {
        assert(documents.take(i + 1).drop_last() =~= documents.take(i as int));
        match decode_content_block(&blocks[i]) {
            Ok(block) => {
                content.push(block);
                proof {
                    said = said.push(block@);
                    assert(said =~= content@.map_values(|block: ContentBlock| block@));
                }
            },
            Err(error) => {
                proof {
                    lemma_first_fault_stays(documents, i + 1);
                }
                return Err(error);
            },
        }
    }
    assert(documents.take(blocks@.len() as int) =~= documents);
    Ok(ToolResult { content, is_error })
}

/// Reads the answer to a tool call from the value that came with the response.
pub fn tool_result_from_value(value: Value) -> (r: Result<ToolResult, McpError>)
    ensures
        result_is(r, tool_result(crate::json::document(value))),
{
    decode_tool_result(&Json::from_value(value))
}

/// Blocks have content if and only if each of them has, and then there is one piece for each, in
/// their order.
pub proof fn law_content_keeps_the_blocks(blocks: Seq<JsonView>)
    ensures
        blocks_content(blocks) is Ok <==> forall|i: int|
            0 <= i < blocks.len() ==> block_content(#[trigger] blocks[i]) is Ok,
        blocks_content(blocks) matches Ok(content) ==> content.len() == blocks.len() && forall|
            i: int,
        |
            0 <= i < blocks.len() ==> block_content(#[trigger] blocks[i]) == Ok::<
                ContentBlockView,
                Fault<Seq<char>>,
            >(content[i]),
    decreases blocks.len(),
{
    if blocks.len() > 0 {
        let front = blocks.drop_last();
        law_content_keeps_the_blocks(front);
        assert forall|i: int| 0 <= i < front.len() implies front[i] == #[trigger] blocks[i] by {}
        if blocks_content(front) is Err {
            let bad = choose|i: int|
                0 <= i < front.len() && !(block_content(#[trigger] front[i]) is Ok);
            assert(block_content(blocks[bad]) is Err);
        } else {
            assert(block_content(blocks[blocks.len() - 1]) == block_content(blocks.last()));
            if block_content(blocks.last()) is Ok {
                assert forall|i: int| 0 <= i < blocks.len() implies block_content(
                    #[trigger] blocks[i],
                ) is Ok by {
                    if i < front.len() {
                        assert(block_content(front[i]) is Ok);
                    }
                }
            }
        }
    }
}

/// The bytes of an image arrive: a block that carries their base64 text holds an image of just
/// these bytes.
pub proof fn law_image_bytes_arrive(block: JsonView, text: Seq<char>, bytes: Seq<u8>)
    requires
        block.text_member("type"@) == Some("image"@),
        block.text_member("data"@) == Some(text),
        vstd::utf8::encode_utf8(text) == crate::base64::encoded(bytes),
    ensures
        block_content(block) matches Ok(ContentBlockView::Image { data, .. }) && data == bytes,
{
    crate::base64::law_decode_undoes_encode(bytes);
    reveal_strlit("text");
    reveal_strlit("image");
    assert("text"@.len() != "image"@.len());
}

/// What is wrong with one of the first `n` blocks is wrong with the whole.
proof fn lemma_first_fault_stays(blocks: Seq<JsonView>, n: int)
    requires
        0 <= n <= blocks.len(),
        blocks_content(blocks.take(n)) is Err,
    ensures
        blocks_content(blocks) == blocks_content(blocks.take(n)),
    decreases blocks.len(),
{
    if n < blocks.len() {
        assert(blocks.drop_last().take(n) =~= blocks.take(n));
        lemma_first_fault_stays(blocks.drop_last(), n);
    } else {
        assert(blocks.take(n) =~= blocks);
    }
}

/// The names of the kinds of block differ from each other.
proof fn lemma_kinds_differ()
    ensures
        "text"@ != "image"@,
        "text"@ != "resource_link"@,
        "text"@ != "resourceLink"@,
        "text"@ != "resource"@,
        "image"@ != "resource_link"@,
        "image"@ != "resourceLink"@,
        "image"@ != "resource"@,
        "resource_link"@ != "resource"@,
        "resourceLink"@ != "resource"@,
{
    reveal_strlit("text");
    reveal_strlit("image");
    reveal_strlit("resource_link");
    reveal_strlit("resourceLink");
    reveal_strlit("resource");
    assert("text"@.len() == 4 && "image"@.len() == 5 && "resource_link"@.len() == 13
        && "resourceLink"@.len() == 12 && "resource"@.len() == 8);
}

/// A text block gives its text, character by character; without a string there it gives the
/// empty text.
pub proof fn law_text_block_gives_its_text(value: &Json, r: Result<ContentBlock, McpError>)
    requires
        call_ensures(decode_content_block, (value,), r),
        value@.member("type"@) == Some(JsonView::Text("text"@)),
    ensures
        r matches Ok(ContentBlock::Text(text)) && text@ == match value@.member("text"@) {
            Some(JsonView::Text(said)) => said,
            _ => Seq::<char>::empty(),
        },
{
}

/// An image block gives the bytes that its data decodes to, under the media type that it names or
/// else that of plain bytes. It fails if there is no data, or as the decoding fails.
pub proof fn law_image_block_gives_its_bytes(
    value: &Json,
    r: Result<ContentBlock, McpError>,
    input: &str,
    bytes: Result<Vec<u8>, McpError>,
)
    requires
        call_ensures(decode_content_block, (value,), r),
        value@.member("type"@) == Some(JsonView::Text("image"@)),
        call_ensures(decode_base64, (input,), bytes),
    ensures
        match value@.member("data"@) {
            Some(JsonView::Text(text)) => text == input@ ==> match bytes {
                Ok(decoded) => r matches Ok(ContentBlock::Image { data, mime_type }) && data@
                    == decoded@ && mime_type@ == match value@.member("mimeType"@) {
                    Some(JsonView::Text(named)) => named,
                    _ => "application/octet-stream"@,
                },
                Err(fault) => r matches Err(error) && error@ == fault@ && (
                fault matches Fault::Base64Byte(byte) ==> error == Fault::<String>::Base64Byte(
                    byte,
                )) && (fault is Base64Length ==> error is Base64Length),
            },
            _ => r matches Err(Fault::NoImageData),
        },
{
    lemma_kinds_differ();
    assert(input.spec_bytes() == vstd::utf8::encode_utf8(input@));
    match value@.member("data"@) {
        Some(JsonView::Text(text)) => {
            if text == input@ {
                if let Err(fault) = bytes {
                    assert(r is Err);
                    assert(r->Err_0@ == fault@);
                }
            }
        },
        _ => {
            assert(r is Err);
            assert(r->Err_0@ is NoImageData);
        },
    }
}

/// A resource link block gives its `uri`, or its `url` where there is no `uri`. What is given for
/// the one that counts must be a string.
pub proof fn law_link_block_gives_its_uri(value: &Json, r: Result<ContentBlock, McpError>)
    requires
        call_ensures(decode_content_block, (value,), r),
        value@.member("type"@) == Some(JsonView::Text("resource_link"@)) || value@.member("type"@)
            == Some(JsonView::Text("resourceLink"@)),
    ensures
        match value@.member("uri"@) {
            Some(JsonView::Text(uri)) => r matches Ok(ContentBlock::ResourceLink(link)) && link@
                == uri,
            Some(_) => r matches Err(Fault::NoLinkUri),
            None => match value@.member("url"@) {
                Some(JsonView::Text(url)) => r matches Ok(ContentBlock::ResourceLink(link))
                    && link@ == url,
                _ => r matches Err(Fault::NoLinkUri),
            },
        },
{
    lemma_kinds_differ();
    if r is Err {
        assert(r->Err_0@ is NoLinkUri);
    }
}

/// A resource block gives the `uri` of its resource, or its own where the resource has none. What
/// is given for the one that counts must be a string.
pub proof fn law_resource_block_gives_its_uri(value: &Json, r: Result<ContentBlock, McpError>)
    requires
        call_ensures(decode_content_block, (value,), r),
        value@.member("type"@) == Some(JsonView::Text("resource"@)),
    ensures
        ({
            let inner = match value@.member("resource"@) {
                Some(resource) => resource.member("uri"@),
                None => None,
            };
            let counts = if inner is Some {
                inner
            } else {
                value@.member("uri"@)
            };
            match counts {
                Some(JsonView::Text(uri)) => r matches Ok(ContentBlock::ResourceLink(link))
                    && link@ == uri,
                _ => r matches Err(Fault::NoResourceUri),
            }
        }),
{
    lemma_kinds_differ();
    if r is Err {
        assert(r->Err_0@ is NoResourceUri);
    }
}

/// A block of any other type is refused, and the refusal names the type.
pub proof fn law_other_block_is_refused(
    value: &Json,
    r: Result<ContentBlock, McpError>,
    kind: Seq<char>,
)
    requires
        call_ensures(decode_content_block, (value,), r),
        kind == match value@.member("type"@) {
            Some(JsonView::Text(named)) => named,
            _ => Seq::<char>::empty(),
        },
        kind != "text"@,
        kind != "image"@,
        kind != "resource_link"@,
        kind != "resourceLink"@,
        kind != "resource"@,
    ensures
        r matches Err(Fault::UnsupportedBlock { kind: named }) && named@ == kind,
{
    assert(r is Err);
    assert(r->Err_0@ == (Fault::<Seq<char>>::UnsupportedBlock { kind }));
}

/// The two pieces of content are of one kind and hold the same.
pub open spec fn same_content(a: ContentBlock, b: ContentBlock) -> bool {
    match (a, b) {
        (ContentBlock::Text(text), ContentBlock::Text(other)) => text@ == other@,
        (
            ContentBlock::Image { data, mime_type },
            ContentBlock::Image { data: other, mime_type: other_type },
        ) => data@ == other@ && mime_type@ == other_type@,
        (ContentBlock::ResourceLink(uri), ContentBlock::ResourceLink(other)) => uri@ == other@,
        _ => false,
    }
}

/// A result holds the content of each of its blocks, in their order, and it is an error just if it
/// says so, whatever its content: if `isError` is a boolean, the flag is that boolean, and without
/// a boolean there it is false.
pub proof fn law_result_holds_its_blocks_and_its_flag(
    value: &Json,
    r: Result<ToolResult, McpError>,
    items: Seq<Json>,
    decoded: Seq<Result<ContentBlock, McpError>>,
)
    requires
        call_ensures(decode_tool_result, (value,), r),
        value@.member("content"@) == Some(
            JsonView::Array(items.map_values(|item: Json| item@)),
        ),
        decoded.len() == items.len(),
        forall|i: int|
            0 <= i < items.len() ==> call_ensures(
                decode_content_block,
                (&items[i],),
                #[trigger] decoded[i],
            ),
        forall|i: int| 0 <= i < items.len() ==> (#[trigger] decoded[i]) is Ok,
    ensures
        r matches Ok(result) && result.content@.len() == items.len() && (forall|i: int|
            0 <= i < items.len() ==> same_content(
                #[trigger] result.content@[i],
                decoded[i]->Ok_0,
            )) && result.is_error == match value@.member("isError"@) {
            Some(JsonView::Bool(flag)) => flag,
            _ => false,
        },
{
    let blocks = items.map_values(|item: Json| item@);
    assert forall|i: int| 0 <= i < blocks.len() implies block_content(#[trigger] blocks[i])
        == Ok::<ContentBlockView, Fault<Seq<char>>>(decoded[i]->Ok_0@) by {
        assert(blocks[i] == items[i]@);
        assert(decoded[i] is Ok);
        assert(block_is(decoded[i], block_content(items[i]@)));
    }
    law_content_keeps_the_blocks(blocks);
    let said = blocks_content(blocks)->Ok_0;
    let result = r->Ok_0;
    assert(result@.content == said);
    assert(result@.content.len() == result.content@.len());
    assert forall|i: int| 0 <= i < items.len() implies same_content(
        #[trigger] result.content@[i],
        decoded[i]->Ok_0,
    ) by {
        assert(result@.content[i] == result.content@[i]@);
        assert(block_content(blocks[i]) == Ok::<ContentBlockView, Fault<Seq<char>>>(said[i]));
    }
}

/// A result fails as the first of its blocks that fails.
pub proof fn law_result_fails_as_its_first_bad_block(
    value: &Json,
    r: Result<ToolResult, McpError>,
    items: Seq<Json>,
    decoded: Seq<Result<ContentBlock, McpError>>,
    bad: int,
)
    requires
        call_ensures(decode_tool_result, (value,), r),
        value@.member("content"@) == Some(
            JsonView::Array(items.map_values(|item: Json| item@)),
        ),
        decoded.len() == items.len(),
        forall|i: int|
            0 <= i < items.len() ==> call_ensures(
                decode_content_block,
                (&items[i],),
                #[trigger] decoded[i],
            ),
        0 <= bad < items.len(),
        forall|i: int| 0 <= i < bad ==> (#[trigger] decoded[i]) is Ok,
        decoded[bad] is Err,
    ensures
        r matches Err(error) && error@ == decoded[bad]->Err_0@,
{
    let blocks = items.map_values(|item: Json| item@);
    let front = blocks.take(bad);
    assert forall|i: int| 0 <= i < front.len() implies block_content(#[trigger] front[i]) is Ok by {
        assert(front[i] == items[i]@);
        assert(decoded[i] is Ok);
        assert(block_is(decoded[i], block_content(items[i]@)));
    }
    law_content_keeps_the_blocks(front);
    let through = blocks.take(bad + 1);
    assert(through.drop_last() =~= front);
    assert(through.last() == items[bad]@);
    assert(block_is(decoded[bad], block_content(items[bad]@)));
    lemma_first_fault_stays(blocks, bad + 1);
}

/// An answer without an array of content is refused for that, and only then.
pub proof fn law_result_needs_content(value: &Json, r: Result<ToolResult, McpError>)
    requires
        call_ensures(decode_tool_result, (value,), r),
        !(value@.member("content"@) matches Some(JsonView::Array(_))),
    ensures
        r matches Err(Fault::NoContent),
{
    assert(r is Err);
    assert(r->Err_0@ is NoContent);
}

/// A result is read from a value as from the tree of its document.
pub proof fn law_result_is_read_from_the_document(
    value: Value,
    json: &Json,
    of_value: Result<ToolResult, McpError>,
    of_tree: Result<ToolResult, McpError>,
)
    requires
        call_ensures(tool_result_from_value, (value,), of_value),
        call_ensures(decode_tool_result, (json,), of_tree),
        json@ == crate::json::document(value),
    ensures
        match of_tree {
            Ok(result) => of_value matches Ok(other) && other.is_error == result.is_error
                && other.content@.len() == result.content@.len() && forall|i: int|
                0 <= i < result.content@.len() ==> same_content(
                    #[trigger] other.content@[i],
                    result.content@[i],
                ),
            Err(fault) => of_value matches Err(error) && error@ == fault@,
        },
{
    if let Ok(result) = of_tree {
        let other = of_value->Ok_0;
        assert(result@ == other@);
        assert(result@.content.len() == result.content@.len());
        assert(other@.content.len() == other.content@.len());
        assert forall|i: int| 0 <= i < result.content@.len() implies same_content(
            #[trigger] other.content@[i],
            result.content@[i],
        ) by {
            assert(other@.content[i] == other.content@[i]@);
            assert(result@.content[i] == result.content@[i]@);
        }
    }
}

} // verus!
