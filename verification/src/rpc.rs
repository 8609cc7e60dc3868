//! JSON-RPC messages, one to a line.

use serde_json::Value;
use vstd::prelude::*;
use vstd::string::*;
use vstd::utf8::*;

use crate::error::{Fault, McpError};
use crate::json::{encode_members, natural_value, text_value, JsonView};

verus! {

/// The byte that ends a line.
pub const LINE_FEED: u8 = 0x0a;

/// A call that the server answers under its `id`.
#[derive(Debug)]
pub struct JsonRpcRequest {
    pub jsonrpc: String,
    pub id: u64,
    pub method: String,
    pub params: Option<Value>,
}

/// A call without an answer.
#[derive(Debug)]
pub struct JsonRpcNotification {
    pub jsonrpc: String,
    pub method: String,
    pub params: Option<Value>,
}

/// What a request says.
#[verifier::ext_equal]
pub struct RequestView {
    pub jsonrpc: Seq<char>,
    pub id: u64,
    pub method: Seq<char>,
    pub params: Option<JsonView>,
}

/// What a notification says.
#[verifier::ext_equal]
pub struct NotificationView {
    pub jsonrpc: Seq<char>,
    pub method: Seq<char>,
    pub params: Option<JsonView>,
}

/// The document of a value that may be absent.
pub open spec fn optional_document(value: Option<Value>) -> Option<JsonView> {
    match value {
        Some(v) => Some(crate::json::document(v)),
        None => None,
    }
}

impl View for JsonRpcRequest {
    type V = RequestView;

    open spec fn view(&self) -> RequestView {
        RequestView {
            jsonrpc: self.jsonrpc@,
            id: self.id,
            method: self.method@,
            params: optional_document(self.params),
        }
    }
}

impl View for JsonRpcNotification {
    type V = NotificationView;

    open spec fn view(&self) -> NotificationView {
        NotificationView {
            jsonrpc: self.jsonrpc@,
            method: self.method@,
            params: optional_document(self.params),
        }
    }
}

/// The member `params`, where there is one.
pub open spec fn params_member(params: Option<JsonView>) -> Seq<(Seq<char>, JsonView)> {
    match params {
        Some(document) => seq![("params"@, document)],
        None => seq![],
    }
}

/// How deep parameters may nest for the parser, which leaves room for the level of the message
/// around them.
pub open spec fn params_depth() -> nat {
    126
}

/// The numbers in the parameters are integers, and the parser goes as deep as they nest: nothing
/// in them is lost when they are written and read again.
pub open spec fn exact_params(params: Option<JsonView>) -> bool {
    match params {
        Some(document) => document.exact_within(params_depth()),
        None => true,
    }
}

/// The numbers in the parameters are integers or are written without an exponent, and the parser
/// goes as deep as they nest: they can be read again.
pub open spec fn plain_params(params: Option<JsonView>) -> bool {
    match params {
        Some(document) => document.plain_within(params_depth()),
        None => true,
    }
}

/// Both are absent, or both are there and the same but for numbers that are no integers.
pub open spec fn alike_params(params: Option<JsonView>, others: Option<JsonView>) -> bool {
    match (params, others) {
        (Some(document), Some(other)) => document.alike_within(other, params_depth()),
        (None, None) => true,
        _ => false,
    }
}

impl RequestView {
    /// The request under the version of the protocol that this library speaks.
    pub open spec fn of(id: u64, method: Seq<char>, params: JsonView) -> RequestView {
        RequestView { jsonrpc: "2.0"@, id, method, params: Some(params) }
    }

    /// The members in the order in which they are written.
    pub open spec fn members(self) -> Seq<(Seq<char>, JsonView)> {
        seq![
            ("jsonrpc"@, JsonView::Text(self.jsonrpc)),
            ("id"@, JsonView::of_natural(self.id)),
            ("method"@, JsonView::Text(self.method)),
        ] + params_member(self.params)
    }

    /// The JSON document that the request is.
    pub open spec fn document(self) -> JsonView {
        JsonView::Object(crate::json::entered(self.members()))
    }
}

impl NotificationView {
    /// The notification under the version of the protocol that this library speaks.
    pub open spec fn of(method: Seq<char>, params: JsonView) -> NotificationView {
        NotificationView { jsonrpc: "2.0"@, method, params: Some(params) }
    }

    /// The members in the order in which they are written.
    pub open spec fn members(self) -> Seq<(Seq<char>, JsonView)> {
        seq![
            ("jsonrpc"@, JsonView::Text(self.jsonrpc)),
            ("method"@, JsonView::Text(self.method)),
        ] + params_member(self.params)
    }

    /// The JSON document that the notification is.
    pub open spec fn document(self) -> JsonView {
        JsonView::Object(crate::json::entered(self.members()))
    }
}

/// The line with these members: their bytes and the line feed.
pub open spec fn message_line(members: Seq<(Seq<char>, JsonView)>) -> Seq<u8> {
    crate::json::encoded_members(members).push(LINE_FEED)
}

/// The bytes are one line, and its only line feed is the last byte.
pub open spec fn is_one_line(bytes: Seq<u8>) -> bool {
    bytes.len() > 0 && bytes.last() == LINE_FEED && !bytes.drop_last().contains(LINE_FEED)
}

/// Without its line feed, the line is JSON text that says what `document` says.
pub open spec fn line_denotes(line: Seq<u8>, document: JsonView) -> bool {
    valid_utf8(line.drop_last()) && crate::json::denotes(decode_utf8(line.drop_last()), document)
}

/// Without its line feed, the line is what `document` is written as.
pub open spec fn line_spells(line: Seq<u8>, document: JsonView) -> bool {
    valid_utf8(line.drop_last()) && crate::json::spells(decode_utf8(line.drop_last()), document)
}

/// Without its line feed, the line is JSON text.
pub open spec fn line_is_json(line: Seq<u8>) -> bool {
    valid_utf8(line.drop_last()) && crate::json::parsed_document(
        decode_utf8(line.drop_last()),
    ) is Ok
}

/// Writes a message with the given members as a line.
pub fn json_line(members: Vec<(String, Value)>) -> (r: Result<Vec<u8>, McpError>)
    ensures
        r matches Ok(line) && {
            let pairs = crate::json::member_documents(members@);
            &&& line@ == message_line(pairs)
            &&& is_one_line(line@)
            &&& crate::json::distinct_keys(pairs) ==> line_spells(
                line@,
                JsonView::Object(crate::json::entered(pairs)),
            )
        },
{
    match encode_members(&members) {
        Ok(bytes) => {
            let mut line: Vec<u8> = bytes;
            line.push(LINE_FEED);
            assert(line@.drop_last() =~= bytes@);
            Ok(line)
        },
        Err(cause) => Err(Fault::Encode { cause }),
    }
}

impl JsonRpcRequest {
    /// A request under the version of the protocol that this library speaks.
    pub fn new(id: u64, method: &str, params: Value) -> (request: JsonRpcRequest)
        ensures
            request@ == RequestView::of(id, method@, crate::json::document(params)),
    {
        JsonRpcRequest {
            jsonrpc: "2.0".to_owned(),
            id,
            method: method.to_owned(),
            params: Some(params),
        }
    }

    /// Writes the request as a line.
    pub fn into_line(self) -> (r: Result<Vec<u8>, McpError>)
        ensures
            r matches Ok(line) && {
                &&& line@ == message_line(self@.members())
                &&& is_one_line(line@)
                &&& line_spells(line@, self@.document())
                &&& exact_params(self@.params) ==> line_denotes(line@, self@.document())
            },
    {
        let mut members: Vec<(String, Value)> = Vec::new();
        members.push(("jsonrpc".to_owned(), text_value(self.jsonrpc.as_str())));
        members.push(("id".to_owned(), natural_value(self.id)));
        members.push(("method".to_owned(), text_value(self.method.as_str())));
        if let Some(params) = self.params {
            members.push(("params".to_owned(), params));
        }
        proof {
            assert(crate::json::member_documents(members@) =~= self@.members());
            lemma_member_names_differ();
        }
        let r = json_line(members);
        proof {
            if exact_params(self@.params) {
                lemma_exact_request_is_denoted(r->Ok_0@, self@);
            }
        }
        r
    }
}

impl JsonRpcNotification {
    /// A notification under the version of the protocol that this library speaks.
    pub fn new(method: &str, params: Value) -> (notification: JsonRpcNotification)
        ensures
            notification@ == NotificationView::of(method@, crate::json::document(params)),
    {
        JsonRpcNotification {
            jsonrpc: "2.0".to_owned(),
            method: method.to_owned(),
            params: Some(params),
        }
    }

    /// Writes the notification as a line.
    pub fn into_line(self) -> (r: Result<Vec<u8>, McpError>)
        ensures
            r matches Ok(line) && {
                &&& line@ == message_line(self@.members())
                &&& is_one_line(line@)
                &&& line_spells(line@, self@.document())
                &&& exact_params(self@.params) ==> line_denotes(line@, self@.document())
            },
    {
        let mut members: Vec<(String, Value)> = Vec::new();
        members.push(("jsonrpc".to_owned(), text_value(self.jsonrpc.as_str())));
        members.push(("method".to_owned(), text_value(self.method.as_str())));
        if let Some(params) = self.params {
            members.push(("params".to_owned(), params));
        }
        proof {
            assert(crate::json::member_documents(members@) =~= self@.members());
            lemma_member_names_differ();
        }
        let r = json_line(members);
        proof {
            if exact_params(self@.params) {
                lemma_exact_notification_is_denoted(r->Ok_0@, self@);
            }
        }
        r
    }
}

/// The names of a message's members differ from each other.
proof fn lemma_member_names_differ()
    ensures
        "jsonrpc"@ != "id"@,
        "jsonrpc"@ != "method"@,
        "jsonrpc"@ != "params"@,
        "id"@ != "method"@,
        "id"@ != "params"@,
        "method"@ != "params"@,
{
    reveal_strlit("jsonrpc");
    reveal_strlit("id");
    reveal_strlit("method");
    reveal_strlit("params");
    assert("jsonrpc"@.len() == 7 && "id"@.len() == 2 && "method"@.len() == 6 && "params"@.len()
        == 6);
    assert("method"@[0] == 'm' && "params"@[0] == 'p');
}

/// A request whose parameters are exact is denoted by its line.
proof fn lemma_exact_request_is_denoted(line: Seq<u8>, request: RequestView)
    requires
        exact_params(request.params),
        line_spells(line, request.document()),
    ensures
        line_denotes(line, request.document()),
{
    crate::json::lemma_entered_exact(request.members(), params_depth());
    crate::json::lemma_exact_is_denoted(decode_utf8(line.drop_last()), request.document());
}

/// A notification whose parameters are exact is denoted by its line.
proof fn lemma_exact_notification_is_denoted(line: Seq<u8>, notification: NotificationView)
    requires
        exact_params(notification.params),
        line_spells(line, notification.document()),
    ensures
        line_denotes(line, notification.document()),
{
    crate::json::lemma_entered_exact(notification.members(), params_depth());
    crate::json::lemma_exact_is_denoted(decode_utf8(line.drop_last()), notification.document());
}

/// A request can be read from the document that it is written as: each of its parts is under its
/// name.
pub proof fn law_request_reads_back(request: RequestView)
    ensures
        request.document().text_member("jsonrpc"@) == Some(request.jsonrpc),
        request.document().member("id"@) matches Some(id) && id.natural() == Some(request.id),
        request.document().text_member("method"@) == Some(request.method),
        request.document().member("params"@) == request.params,
{
    lemma_member_names_differ();
    let members = request.members();
    crate::json::lemma_entered_present(members, 0);
    crate::json::lemma_entered_present(members, 1);
    crate::json::lemma_entered_present(members, 2);
    if request.params is Some {
        crate::json::lemma_entered_present(members, 3);
    } else {
        crate::json::lemma_entered_absent(members, "params"@);
    }
}

/// Requests that differ are written as documents that differ.
pub proof fn law_requests_are_told_apart(a: RequestView, b: RequestView)
    requires
        a.document() == b.document(),
    ensures
        a == b,
{
    law_request_reads_back(a);
    law_request_reads_back(b);
}

/// A written request can be read, unless its parameters nest too deep or hold a number with an
/// exponent.
pub proof fn law_written_request_is_json(line: Seq<u8>, request: RequestView)
    requires
        line_spells(line, request.document()),
        plain_params(request.params),
    ensures
        line_is_json(line),
{
    crate::json::lemma_entered_plain(request.members(), params_depth());
}

/// Whoever reads a written request finds what was written: just the members of the request, the
/// version, the `id` and the method as they were, and the parameters but for their fractions.
/// Whatever in it has no fractions is as it was.
pub proof fn law_written_request_reads_back(line: Seq<u8>, request: RequestView, read: JsonView)
    requires
        line_spells(line, request.document()),
        line_denotes(line, read),
    ensures
        read is Object,
        read->Object_0.dom() == request.document()->Object_0.dom(),
        read.text_member("jsonrpc"@) == Some(request.jsonrpc),
        read.member("id"@) == Some(JsonView::of_natural(request.id)),
        read.text_member("method"@) == Some(request.method),
        alike_params(request.params, read.member("params"@)),
        exact_params(request.params) ==> read == request.document(),
{
    lemma_member_names_differ();
    let written = request.document();
    let members = request.members();
    crate::json::lemma_entered_present(members, 1);
    law_request_reads_back(request);
    crate::json::lemma_alike_member(written, read, "jsonrpc"@, params_depth());
    crate::json::lemma_alike_member(written, read, "id"@, params_depth());
    crate::json::lemma_alike_member(written, read, "method"@, params_depth());
    crate::json::lemma_alike_member(written, read, "params"@, params_depth());
    if exact_params(request.params) {
        lemma_exact_request_is_denoted(line, request);
    }
}

/// A request survives being written and read: a request that its line reads as has the same
/// version, `id` and method, and the same parameters but for their fractions. Without fractions
/// it is the same request.
pub proof fn law_request_round_trips(line: Seq<u8>, request: RequestView, read: RequestView)
    requires
        line_spells(line, request.document()),
        line_denotes(line, read.document()),
    ensures
        read.jsonrpc == request.jsonrpc,
        read.id == request.id,
        read.method == request.method,
        alike_params(request.params, read.params),
        exact_params(request.params) ==> read == request,
{
    law_written_request_reads_back(line, request, read.document());
    law_request_reads_back(read);
    if exact_params(request.params) {
        law_requests_are_told_apart(request, read);
    }
}

/// Whoever reads a written notification finds what was written: just the members of the
/// notification, and so no `id`, the version and the method as they were, and the parameters but
/// for their fractions. Whatever in it has no fractions is as it was.
pub proof fn law_written_notification_reads_back(
    line: Seq<u8>,
    notification: NotificationView,
    read: JsonView,
)
    requires
        line_spells(line, notification.document()),
        line_denotes(line, read),
    ensures
        read is Object,
        read->Object_0.dom() == notification.document()->Object_0.dom(),
        read.text_member("jsonrpc"@) == Some(notification.jsonrpc),
        read.member("id"@) is None,
        read.text_member("method"@) == Some(notification.method),
        alike_params(notification.params, read.member("params"@)),
        exact_params(notification.params) ==> read == notification.document(),
{
    let written = notification.document();
    law_notification_reads_back(notification);
    crate::json::lemma_alike_member(written, read, "jsonrpc"@, params_depth());
    crate::json::lemma_alike_member(written, read, "id"@, params_depth());
    crate::json::lemma_alike_member(written, read, "method"@, params_depth());
    crate::json::lemma_alike_member(written, read, "params"@, params_depth());
    if exact_params(notification.params) {
        lemma_exact_notification_is_denoted(line, notification);
    }
}

/// A written notification can be read, unless its parameters nest too deep or hold a number with
/// an exponent.
pub proof fn law_written_notification_is_json(line: Seq<u8>, notification: NotificationView)
    requires
        line_spells(line, notification.document()),
        plain_params(notification.params),
    ensures
        line_is_json(line),
{
    crate::json::lemma_entered_plain(notification.members(), params_depth());
}

/// A notification can be read from the document that it is written as, and it cannot be taken for
/// a request: it has no `id`.
pub proof fn law_notification_reads_back(notification: NotificationView)
    ensures
        notification.document().text_member("jsonrpc"@) == Some(notification.jsonrpc),
        notification.document().member("id"@) is None,
        notification.document().text_member("method"@) == Some(notification.method),
        notification.document().member("params"@) == notification.params,
{
    lemma_member_names_differ();
    let members = notification.members();
    crate::json::lemma_entered_present(members, 0);
    crate::json::lemma_entered_absent(members, "id"@);
    crate::json::lemma_entered_present(members, 1);
    if notification.params is Some {
        crate::json::lemma_entered_present(members, 2);
    } else {
        crate::json::lemma_entered_absent(members, "params"@);
    }
}

/// The lines that a stream of bytes holds, each without its line feed; what stands behind the
/// last line feed is no line yet.
pub open spec fn lines(stream: Seq<u8>) -> Seq<Seq<u8>>
    decreases stream.len(),
{
    if stream.contains(LINE_FEED) {
        let end = stream.index_of_first(LINE_FEED)->0;
        if 0 <= end < stream.len() {
            seq![stream.take(end)] + lines(stream.skip(end + 1))
        } else {
            seq![]
        }
    } else {
        seq![]
    }
}

/// Lines one after the other.
pub open spec fn stream_of(parts: Seq<Seq<u8>>) -> Seq<u8>
    decreases parts.len(),
{
    if parts.len() == 0 {
        seq![]
    } else {
        parts[0] + stream_of(parts.skip(1))
    }
}

/// Messages do not run into each other: written one after the other, they are just the lines that
/// the stream holds.
pub proof fn law_messages_stay_apart(messages: Seq<Seq<u8>>)
    requires
        forall|i: int| 0 <= i < messages.len() ==> is_one_line(#[trigger] messages[i]),
    ensures
        lines(stream_of(messages)) == messages.map_values(|message: Seq<u8>| message.drop_last()),
    decreases messages.len(),
{
    let expected = messages.map_values(|message: Seq<u8>| message.drop_last());
    if messages.len() > 0 {
        let first = messages[0];
        let rest = messages.skip(1);
        assert(is_one_line(first));
        assert forall|i: int| 0 <= i < rest.len() implies is_one_line(#[trigger] rest[i]) by {
            assert(rest[i] == messages[i + 1]);
        }
        law_messages_stay_apart(rest);
        let stream = stream_of(messages);
        let end = first.len() - 1;
        assert(stream == first + stream_of(rest));
        assert(stream[end] == LINE_FEED);
        assert(stream.contains(LINE_FEED));
        assert forall|i: int| 0 <= i < end implies stream[i] != LINE_FEED by {
            assert(first.drop_last()[i] == stream[i]);
        }
        stream.index_of_first_ensures(LINE_FEED);
        assert(stream.index_of_first(LINE_FEED) == Some(end));
        assert(stream.take(end) =~= first.drop_last());
        assert(stream.skip(end + 1) =~= stream_of(rest));
        assert(seq![first.drop_last()] + rest.map_values(
            |message: Seq<u8>| message.drop_last(),
        ) =~= expected);
    } else {
        assert(lines(stream_of(messages)) =~= expected);
    }
}

/// The document that the line says, without its line feed.
pub open spec fn reading(line: Seq<u8>) -> Result<JsonView, Seq<char>> {
    crate::json::parsed_document(decode_utf8(line.drop_last()))
}

/// The line is UTF-8 text whose only line feed is its last byte.
pub open spec fn is_text_line(line: Seq<u8>) -> bool {
    &&& line.len() > 0
    &&& line[line.len() - 1] == 0x0a
    &&& forall|i: int| 0 <= i < line.len() - 1 ==> #[trigger] line[i] != 0x0a
    &&& valid_utf8(line.drop_last())
}

/// The document, read from a line, carries the parameters: they are there, the same but for
/// fractions, and just the same if there are none.
pub open spec fn carries_params(document: JsonView, params: JsonView) -> bool {
    &&& document.member("params"@) matches Some(read)
    &&& params.alike_within(read, 126)
    &&& params.exact_within(126) ==> read == params
}

/// The line is a call of `method` under `id` with the parameters: whoever reads it finds the
/// version, the `id`, the method and the parameters, and nothing else; and it can be read, unless
/// the parameters nest too deep or hold a number with an exponent.
pub open spec fn says_request(
    line: Seq<u8>,
    id: u64,
    method: Seq<char>,
    params: JsonView,
) -> bool {
    &&& is_text_line(line)
    &&& params.plain_within(126) ==> reading(line) is Ok
    &&& reading(line) matches Ok(read) ==> {
        &&& read.member("jsonrpc"@) == Some(JsonView::Text("2.0"@))
        &&& read.member("id"@) matches Some(JsonView::Number { unsigned, .. }) && unsigned == Some(
            id,
        )
        &&& read.member("method"@) == Some(JsonView::Text(method))
        &&& carries_params(read, params)
        &&& forall|key: Seq<char>|
            (#[trigger] read.member(key)) is Some ==> key == "jsonrpc"@ || key == "id"@ || key
                == "method"@ || key == "params"@
    }
}

/// The line is a call of `method` with the parameters that asks for no answer: whoever reads it
/// finds the version, the method and the parameters, and nothing else; and it can be read, unless
/// the parameters nest too deep or hold a number with an exponent.
pub open spec fn says_notification(
    line: Seq<u8>,
    method: Seq<char>,
    params: JsonView,
) -> bool {
    &&& is_text_line(line)
    &&& params.plain_within(126) ==> reading(line) is Ok
    &&& reading(line) matches Ok(read) ==> {
        &&& read.member("jsonrpc"@) == Some(JsonView::Text("2.0"@))
        &&& read.member("method"@) == Some(JsonView::Text(method))
        &&& carries_params(read, params)
        &&& forall|key: Seq<char>|
            (#[trigger] read.member(key)) is Some ==> key == "jsonrpc"@ || key == "method"@ || key
                == "params"@
    }
}

/// A line that spells a request with the given parts says them.
pub proof fn lemma_spelled_request_says(
    line: Seq<u8>,
    id: u64,
    method: Seq<char>,
    params: JsonView,
)
    requires
        is_one_line(line),
        line_spells(line, RequestView::of(id, method, params).document()),
    ensures
        says_request(line, id, method, params),
{
    let request = RequestView::of(id, method, params);
    let written = request.document();
    let members = request.members();
    assert forall|i: int| 0 <= i < line.len() - 1 implies #[trigger] line[i] != 0x0a by {
        assert(line.drop_last()[i] == line[i]);
    }
    if params.plain_within(126) {
        law_written_request_is_json(line, request);
    }
    if let Ok(read) = reading(line) {
        law_written_request_reads_back(line, request, read);
        lemma_member_names_differ();
        law_request_reads_back(request);
        crate::json::lemma_alike_member(written, read, "jsonrpc"@, 126);
        crate::json::lemma_alike_member(written, read, "method"@, 126);
        crate::json::lemma_alike_member(written, read, "params"@, 126);
        assert forall|key: Seq<char>| (#[trigger] read.member(key)) is Some implies key
            == "jsonrpc"@ || key == "id"@ || key == "method"@ || key == "params"@ by {
            crate::json::lemma_alike_member(written, read, key, 126);
            if key != "jsonrpc"@ && key != "id"@ && key != "method"@ && key != "params"@ {
                crate::json::lemma_entered_absent(members, key);
            }
        }
    }
}

/// A line that spells a notification with the given parts says them.
pub proof fn lemma_spelled_notification_says(
    line: Seq<u8>,
    method: Seq<char>,
    params: JsonView,
)
    requires
        is_one_line(line),
        line_spells(line, NotificationView::of(method, params).document()),
    ensures
        says_notification(line, method, params),
{
    let notification = NotificationView::of(method, params);
    let written = notification.document();
    let members = notification.members();
    assert forall|i: int| 0 <= i < line.len() - 1 implies #[trigger] line[i] != 0x0a by {
        assert(line.drop_last()[i] == line[i]);
    }
    if params.plain_within(126) {
        law_written_notification_is_json(line, notification);
    }
    if let Ok(read) = reading(line) {
        law_written_notification_reads_back(line, notification, read);
        lemma_member_names_differ();
        law_notification_reads_back(notification);
        crate::json::lemma_alike_member(written, read, "jsonrpc"@, 126);
        crate::json::lemma_alike_member(written, read, "method"@, 126);
        crate::json::lemma_alike_member(written, read, "params"@, 126);
        assert forall|key: Seq<char>| (#[trigger] read.member(key)) is Some implies key
            == "jsonrpc"@ || key == "method"@ || key == "params"@ by {
            crate::json::lemma_alike_member(written, read, key, 126);
            if key != "jsonrpc"@ && key != "method"@ && key != "params"@ {
                crate::json::lemma_entered_absent(members, key);
            }
        }
    }
}

/// A request that is put out carries what it was given, under version 2.0.
pub proof fn law_request_carries_what_it_was_given(
    id: u64,
    method: &str,
    params: Value,
    request: JsonRpcRequest,
)
    requires
        call_ensures(JsonRpcRequest::new, (id, method, params), request),
    ensures
        request.jsonrpc@ == "2.0"@,
        request.id == id,
        request.method@ == method@,
        request.params matches Some(carried) && crate::json::document(carried)
            == crate::json::document(params),
{
    assert(request@ == RequestView::of(id, method@, crate::json::document(params)));
    assert(request@.params is Some);
}

/// A notification that is put out carries what it was given, under version 2.0.
pub proof fn law_notification_carries_what_it_was_given(
    method: &str,
    params: Value,
    notification: JsonRpcNotification,
)
    requires
        call_ensures(JsonRpcNotification::new, (method, params), notification),
    ensures
        notification.jsonrpc@ == "2.0"@,
        notification.method@ == method@,
        notification.params matches Some(carried) && crate::json::document(carried)
            == crate::json::document(params),
{
    assert(notification@ == NotificationView::of(method@, crate::json::document(params)));
    assert(notification@.params is Some);
}

/// The line of a request says the request: its version, `id` and method, its parameters if it has
/// any, and nothing else.
pub proof fn law_line_says_its_request(request: JsonRpcRequest, r: Result<Vec<u8>, McpError>)
    requires
        call_ensures(JsonRpcRequest::into_line, (request,), r),
    ensures
        r matches Ok(line) && is_text_line(line@) && (reading(line@) matches Ok(read) ==> {
            &&& read.member("jsonrpc"@) == Some(JsonView::Text(request.jsonrpc@))
            &&& read.member("id"@) matches Some(JsonView::Number { unsigned, .. }) && unsigned
                == Some(request.id)
            &&& read.member("method"@) == Some(JsonView::Text(request.method@))
            &&& match request.params {
                Some(params) => carries_params(read, crate::json::document(params)),
                None => read.member("params"@) is None,
            }
            &&& forall|key: Seq<char>|
                (#[trigger] read.member(key)) is Some ==> key == "jsonrpc"@ || key == "id"@ || key
                    == "method"@ || key == "params"@
        }),
        match request.params {
            Some(params) => crate::json::document(params).plain_within(126) ==> reading(
                r->Ok_0@,
            ) is Ok,
            None => reading(r->Ok_0@) is Ok,
        },
{
    let line = r->Ok_0@;
    let said = request@;
    assert forall|i: int| 0 <= i < line.len() - 1 implies #[trigger] line[i] != 0x0a by {
        assert(line.drop_last()[i] == line[i]);
    }
    if plain_params(said.params) {
        law_written_request_is_json(line, said);
    }
    if let Ok(read) = reading(line) {
        law_written_request_reads_back(line, said, read);
        law_request_reads_back(said);
        crate::json::lemma_alike_member(said.document(), read, "params"@, 126);
        assert forall|key: Seq<char>| (#[trigger] read.member(key)) is Some implies key
            == "jsonrpc"@ || key == "id"@ || key == "method"@ || key == "params"@ by {
            crate::json::lemma_alike_member(said.document(), read, key, 126);
            if key != "jsonrpc"@ && key != "id"@ && key != "method"@ && key != "params"@ {
                crate::json::lemma_entered_absent(said.members(), key);
            }
        }
    }
}

/// The line of a notification says the notification: its version and method, its parameters if it
/// has any, and nothing else, so no `id`.
pub proof fn law_line_says_its_notification(
    notification: JsonRpcNotification,
    r: Result<Vec<u8>, McpError>,
)
    requires
        call_ensures(JsonRpcNotification::into_line, (notification,), r),
    ensures
        r matches Ok(line) && is_text_line(line@) && (reading(line@) matches Ok(read) ==> {
            &&& read.member("jsonrpc"@) == Some(JsonView::Text(notification.jsonrpc@))
            &&& read.member("id"@) is None
            &&& read.member("method"@) == Some(JsonView::Text(notification.method@))
            &&& match notification.params {
                Some(params) => carries_params(read, crate::json::document(params)),
                None => read.member("params"@) is None,
            }
            &&& forall|key: Seq<char>|
                (#[trigger] read.member(key)) is Some ==> key == "jsonrpc"@ || key == "method"@
                    || key == "params"@
        }),
        match notification.params {
            Some(params) => crate::json::document(params).plain_within(126) ==> reading(
                r->Ok_0@,
            ) is Ok,
            None => reading(r->Ok_0@) is Ok,
        },
{
    let line = r->Ok_0@;
    let said = notification@;
    assert forall|i: int| 0 <= i < line.len() - 1 implies #[trigger] line[i] != 0x0a by {
        assert(line.drop_last()[i] == line[i]);
    }
    if plain_params(said.params) {
        law_written_notification_is_json(line, said);
    }
    if let Ok(read) = reading(line) {
        law_written_notification_reads_back(line, said, read);
        law_notification_reads_back(said);
        crate::json::lemma_alike_member(said.document(), read, "params"@, 126);
        assert forall|key: Seq<char>| (#[trigger] read.member(key)) is Some implies key
            == "jsonrpc"@ || key == "method"@ || key == "params"@ by {
            crate::json::lemma_alike_member(said.document(), read, key, 126);
            if key != "jsonrpc"@ && key != "method"@ && key != "params"@ {
                crate::json::lemma_entered_absent(said.members(), key);
            }
        }
    }
}

/// The line of a message says its members: each is there under its name, the same but for
/// fractions, and nothing else is there.
pub proof fn law_line_says_its_members(
    members: Vec<(String, Value)>,
    r: Result<Vec<u8>, McpError>,
    at: int,
    key: Seq<char>,
)
    requires
        call_ensures(json_line, (members,), r),
        forall|i: int, j: int|
            0 <= i < j < members@.len() ==> (#[trigger] members@[i]).0@ != (
            #[trigger] members@[j]).0@,
        0 <= at < members@.len(),
    ensures
        r matches Ok(line) && is_text_line(line@) && (reading(line@) matches Ok(read) ==> {
            let said = crate::json::document(members@[at].1);
            &&& read.member(members@[at].0@) matches Some(part)
            &&& said.alike_within(part, 126)
            &&& said.exact_within(126) ==> part == said
            &&& read.member(key) is Some ==> exists|i: int|
                0 <= i < members@.len() && (#[trigger] members@[i]).0@ == key
        }),
{
    let line = r->Ok_0@;
    let pairs = crate::json::member_documents(members@);
    assert forall|i: int, j: int| 0 <= i < j < pairs.len() implies (#[trigger] pairs[i]).0 != (
    #[trigger] pairs[j]).0 by {
        assert(pairs[i].0 == members@[i].0@ && pairs[j].0 == members@[j].0@);
    }
    assert forall|i: int| 0 <= i < line.len() - 1 implies #[trigger] line[i] != 0x0a by {
        assert(line.drop_last()[i] == line[i]);
    }
    if let Ok(read) = reading(line) {
        let written = JsonView::Object(crate::json::entered(pairs));
        assert(pairs[at] == (members@[at].0@, crate::json::document(members@[at].1)));
        crate::json::lemma_entered_present(pairs, at);
        crate::json::lemma_alike_member(written, read, pairs[at].0, 126);
        crate::json::lemma_alike_member(written, read, key, 126);
        if read.member(key) is Some {
            if forall|i: int| 0 <= i < members@.len() ==> (#[trigger] members@[i]).0@ != key {
                assert forall|i: int| 0 <= i < pairs.len() implies (#[trigger] pairs[i]).0
                    != key by {
                    assert(pairs[i].0 == members@[i].0@);
                }
                crate::json::lemma_entered_absent(pairs, key);
            }
        }
    }
}

} // verus!
