//! What the server sends.

use serde_json::Value;
use vstd::prelude::*;

use crate::error::{Fault, McpError};
use crate::json::{value_member, value_natural, value_text, JsonView};

verus! {

/// A response to request `id`. The error is held as its JSON text.
#[derive(Debug)]
pub struct Response {
    pub id: u64,
    pub error: Option<String>,
    pub result: Option<Value>,
}

/// A message of the server: a response, or anything else, which is held as its JSON text.
#[derive(Debug)]
pub enum Message {
    Response(Response),
    Other(String),
}

/// What a response says.
#[verifier::ext_equal]
pub struct ResponseView {
    pub id: u64,
    pub error: Option<Seq<char>>,
    pub result: Option<JsonView>,
}

/// What a message says.
#[verifier::ext_equal]
pub enum MessageView {
    Response(ResponseView),
    Other(Seq<char>),
}

impl View for Response {
    type V = ResponseView;

    open spec fn view(&self) -> ResponseView {
        ResponseView {
            id: self.id,
            error: match self.error {
                Some(text) => Some(text@),
                None => None,
            },
            result: crate::rpc::optional_document(self.result),
        }
    }
}

impl View for Message {
    type V = MessageView;

    open spec fn view(&self) -> MessageView {
        match self {
            Message::Response(response) => MessageView::Response(response@),
            Message::Other(text) => MessageView::Other(text@),
        }
    }
}

/// The request that the document is a response to. An `id` counts where it is an integer that is
/// not negative.
pub open spec fn request_id(document: JsonView) -> Option<u64> {
    match document.member("id"@) {
        Some(id) => id.natural(),
        None => None,
    }
}

/// The message that a document is.
pub open spec fn message_in(document: JsonView) -> MessageView {
    match request_id(document) {
        Some(id) => MessageView::Response(
            ResponseView {
                id,
                error: match document.member("error"@) {
                    Some(error) => Some(crate::json::compact_text(error)),
                    None => None,
                },
                result: document.member("result"@),
            },
        ),
        None => MessageView::Other(crate::json::compact_text(document)),
    }
}

/// What a response answers.
pub open spec fn answer(response: ResponseView) -> Result<JsonView, Fault<Seq<char>>> {
    match response.error {
        Some(error) => Err(Fault::Refused { id: response.id, error }),
        None => match response.result {
            Some(result) => Ok(result),
            None => Err(Fault::Hollow { id: response.id }),
        },
    }
}

/// What an answer says.
pub open spec fn answer_view(
    answer: Result<Value, McpError>,
) -> Result<JsonView, Fault<Seq<char>>> {
    match answer {
        Ok(value) => Ok(crate::json::document(value)),
        Err(error) => Err(error@),
    }
}

/// Reads a message.
pub fn read_message(value: &Value) -> (message: Message)
    ensures
        message@ == message_in(crate::json::document(*value)),
{
    let id: Option<u64> = match value_member(value, "id") {
        Some(id) => value_natural(id),
        None => None,
    };
    match id {
        Some(id) => {
            let error: Option<String> = match value_member(value, "error") {
                Some(error) => Some(value_text(error)),
                None => None,
            };
            let result: Option<Value> = match value_member(value, "result") {
                Some(result) => Some(result.clone()),
                None => None,
            };
            Message::Response(Response { id, error, result })
        },
        None => Message::Other(value_text(value)),
    }
}

/// What the response answers.
pub fn read_answer(response: Response) -> (r: Result<Value, McpError>)
    ensures
        answer_view(r) == answer(response@),
        r matches Ok(value) ==> response.result == Some(value),
{
    match response.error {
        Some(error) => Err(Fault::Refused { id: response.id, error }),
        None => match response.result {
            Some(result) => Ok(result),
            None => Err(Fault::Hollow { id: response.id }),
        },
    }
}

/// What has a number that is not negative under `id` is a response to the request of that number,
/// whatever else it holds; it refuses the request if there is an `error`, and brings the `result`
/// that is there. Anything else is no response.
pub proof fn law_id_makes_a_response(value: &Value, message: Message)
    requires
        call_ensures(read_message, (value,), message),
    ensures
        ({
            let document = crate::json::document(*value);
            match document.member("id"@) {
                Some(JsonView::Number { unsigned: Some(id), .. }) => {
                    &&& message matches Message::Response(response)
                    &&& response.id == id
                    &&& match document.member("error"@) {
                        Some(error) => response.error matches Some(text) && text@
                            == crate::json::compact_text(error),
                        None => response.error is None,
                    }
                    &&& match document.member("result"@) {
                        Some(result) => response.result matches Some(brought)
                            && crate::json::document(brought) == result,
                        None => response.result is None,
                    }
                },
                _ => message matches Message::Other(text) && text@ == crate::json::compact_text(
                    document,
                ),
            }
        }),
{
    if let Message::Response(response) = message {
        assert(message@ == MessageView::Response(response@));
    }
}

/// A response that holds an error refuses its request with this error; one that holds a result
/// and no error gives this result; one that holds neither is hollow.
pub proof fn law_response_gives_its_answer(response: Response, r: Result<Value, McpError>)
    requires
        call_ensures(read_answer, (response,), r),
    ensures
        match (response.error, response.result) {
            (Some(text), _) => r matches Err(Fault::Refused { id, error }) && id == response.id
                && error@ == text@,
            (None, Some(result)) => r matches Ok(value) && value == result,
            (None, None) => r matches Err(Fault::Hollow { id }) && id == response.id,
        },
{
    if let Err(error) = r {
        assert(answer_view(r) == Err::<JsonView, Fault<Seq<char>>>(error@));
    }
}

} // verus!
