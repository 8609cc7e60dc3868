//! The tools that a server offers, and calls of them.

use serde_json::Value;
use vstd::prelude::*;
use vstd::string::*;

use crate::error::{Fault, McpError};
use crate::json::{object_value, parse_value, text_value, JsonView};

verus! {

/// A tool that a server offers.
#[derive(Debug)]
pub struct ToolDef {
    pub name: String,
    pub description: String,
    pub input_schema: Value,
}

impl Clone for ToolDef {
    fn clone(&self) -> (tool: ToolDef)
        ensures
            tool.name@ == self.name@,
            tool.description@ == self.description@,
            crate::json::document(tool.input_schema) == crate::json::document(self.input_schema),
    {
        ToolDef {
            name: self.name.clone(),
            description: self.description.clone(),
            input_schema: self.input_schema.clone(),
        }
    }
}

/// A tool as the server describes it.
#[derive(Debug)]
pub struct WireToolDef {
    pub name: String,
    pub description: Option<String>,
    pub input_schema: Value,
}

/// The tools that the server lists.
#[derive(Debug)]
pub struct ToolsListResult {
    pub tools: Vec<WireToolDef>,
}

/// `tool` is what `wire` describes; a description that is not there is empty.
pub open spec fn tool_described(wire: WireToolDef, tool: ToolDef) -> bool {
    &&& tool.name == wire.name
    &&& match wire.description {
        Some(description) => tool.description == description,
        None => tool.description@ == Seq::<char>::empty(),
    }
    &&& tool.input_schema == wire.input_schema
}

/// The tools of a list, in its order.
pub fn tools_from_list(list: ToolsListResult) -> (tools: Vec<ToolDef>)
    ensures
        tools@.len() == list.tools@.len(),
        forall|i: int|
            0 <= i < tools@.len() ==> tool_described(list.tools@[i], #[trigger] tools@[i]),
{
    let ghost given = list.tools@;
    let mut tools: Vec<ToolDef> = Vec::new();
    for wire in it: list.tools
        invariant
            it.seq() == given,
            tools@.len() == it.index(),
            forall|i: int| 0 <= i < tools@.len() ==> tool_described(given[i], #[trigger] tools@[i]),
    {
        let description: String = match wire.description {
            Some(description) => description,
            None => String::new(),
        };
        tools.push(
            ToolDef { name: wire.name, description, input_schema: wire.input_schema },
        );
    }
    tools
}

/// The parameters of a tool call.
pub open spec fn call_document(name: Seq<char>, arguments: JsonView) -> JsonView {
    JsonView::Object(
        crate::json::entered(
            seq![("name"@, JsonView::Text(name)), ("arguments"@, arguments)],
        ),
    )
}

/// The parameters of a tool call.
pub fn call_params(name: &str, arguments: Value) -> (params: Value)
    ensures
        crate::json::document(params) == call_document(
            name@,
            crate::json::document(arguments),
        ),
{
    let mut members: Vec<(String, Value)> = Vec::new();
    members.push(("name".to_owned(), text_value(name)));
    members.push(("arguments".to_owned(), arguments));
    proof {
        reveal_strlit("name");
        reveal_strlit("arguments");
        assert("name"@.len() != "arguments"@.len());
        assert(crate::json::member_documents(members@) =~= seq![
            ("name"@, JsonView::Text(name@)),
            ("arguments"@, crate::json::document(arguments)),
        ]);
    }
    object_value(members)
}

/// Reads the arguments of a tool call from JSON text.
pub fn arguments_from_text(text: &str) -> (r: Result<Value, McpError>)
    ensures
        match crate::json::parsed_document(text@) {
            Ok(document) => r matches Ok(value) && crate::json::document(value) == document,
            Err(wording) => r matches Err(error) && error@ == (Fault::<Seq<char>>::Arguments {
                cause: wording,
            }),
        },
{
    match parse_value(text) {
        Ok(value) => Ok(value),
        Err(cause) => Err(Fault::Arguments { cause }),
    }
}

/// The arguments of a call arrive: the parameters hold the tool's name and what was given for it.
pub proof fn law_call_carries_its_arguments(name: Seq<char>, arguments: JsonView)
    ensures
        call_document(name, arguments).text_member("name"@) == Some(name),
        call_document(name, arguments).member("arguments"@) == Some(arguments),
{
    reveal_strlit("name");
    reveal_strlit("arguments");
    assert("name"@.len() != "arguments"@.len());
    let members = seq![("name"@, JsonView::Text(name)), ("arguments"@, arguments)];
    crate::json::lemma_entered_present(members, 0);
    crate::json::lemma_entered_present(members, 1);
}

/// The parameters of a call hold the tool's name and the arguments, and nothing else.
pub proof fn law_call_holds_name_and_arguments(name: &str, arguments: Value, params: Value)
    requires
        call_ensures(call_params, (name, arguments), params),
    ensures
        crate::json::document(params) is Object,
        crate::json::document(params).member("name"@) == Some(JsonView::Text(name@)),
        crate::json::document(params).member("arguments"@) == Some(
            crate::json::document(arguments),
        ),
        forall|key: Seq<char>|
            (#[trigger] crate::json::document(params).member(key)) is Some ==> key == "name"@
                || key == "arguments"@,
{
    let given = crate::json::document(arguments);
    law_call_carries_its_arguments(name@, given);
    let members = seq![("name"@, JsonView::Text(name@)), ("arguments"@, given)];
    assert(call_document(name@, given).text_member("name"@) is Some);
    assert forall|key: Seq<char>|
        (#[trigger] crate::json::document(params).member(key)) is Some implies key == "name"@ || key
        == "arguments"@ by {
        if key != "name"@ && key != "arguments"@ {
            crate::json::lemma_entered_absent(members, key);
        }
    }
}

/// Each tool of a list is there, in its place, with the name, the description and the schema that
/// the server gives; one that the server does not describe has an empty description.
pub proof fn law_tools_are_those_of_the_list(list: ToolsListResult, tools: Vec<ToolDef>)
    requires
        call_ensures(tools_from_list, (list,), tools),
    ensures
        tools@.len() == list.tools@.len(),
        forall|i: int|
            0 <= i < tools@.len() ==> {
                let wire = list.tools@[i];
                &&& (#[trigger] tools@[i]).name@ == wire.name@
                &&& match wire.description {
                    Some(description) => tools@[i].description@ == description@,
                    None => tools@[i].description@.len() == 0,
                }
                &&& tools@[i].input_schema == wire.input_schema
            },
{
    assert forall|i: int| 0 <= i < tools@.len() implies {
        let wire = list.tools@[i];
        &&& (#[trigger] tools@[i]).name@ == wire.name@
        &&& match wire.description {
            Some(description) => tools@[i].description@ == description@,
            None => tools@[i].description@.len() == 0,
        }
        &&& tools@[i].input_schema == wire.input_schema
    } by {
        assert(tool_described(list.tools@[i], tools@[i]));
    }
}

/// Text that is JSON is taken as arguments just as it reads, and any other is refused in the words
/// of the parser: arguments are read as a document is.
pub proof fn law_arguments_are_the_document(
    text: &str,
    r: Result<Value, McpError>,
    read: Result<crate::json::Json, String>,
)
    requires
        call_ensures(arguments_from_text, (text,), r),
        call_ensures(crate::json::Json::parse, (text,), read),
    ensures
        match read {
            Ok(json) => r matches Ok(value) && crate::json::document(value) == json@,
            Err(wording) => r matches Err(Fault::Arguments { cause }) && cause@ == wording@,
        },
{
    if r is Err {
        assert(r->Err_0@ is Arguments);
    }
}

} // verus!
