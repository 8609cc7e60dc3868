//! What can go wrong, and how it is put into words.

use vstd::prelude::*;
use vstd::string::*;

use crate::text::{decimal, decimal_text, joined, texts, wrapped};

verus! {

/// A failure. `Text` is how it holds text: `String` in a running program, a sequence of
/// characters in a contract.
///
/// A `cause` is the wording of what failed underneath.
#[derive(Debug)]
pub enum Fault<Text> {
    /// The server process could not be started.
    Launch { cmd: Text, cause: Text },
    /// The server process has no piped standard input.
    StdinNotPiped,
    /// The server process has no piped standard output.
    StdoutNotPiped,
    /// The initialize request failed.
    Initialize(Box<Fault<Text>>),
    /// The initialized notification could not be sent.
    Announce(Box<Fault<Text>>),
    /// A message could not be encoded.
    Encode { cause: Text },
    /// A message could not be written.
    Write { cause: Text },
    /// A written message could not be flushed.
    Flush { cause: Text },
    /// The request was given up before a response came.
    Unanswered { id: u64 },
    /// The server's output ended or could not be read any more.
    Disconnected { reason: Text },
    /// The server answered with an error; `error` is its JSON text.
    Refused { id: u64, error: Text },
    /// The server's response has neither a result nor an error.
    Hollow { id: u64 },
    /// The list of tools does not have the expected form.
    ToolList { cause: Text },
    /// A tool's result has no array of content.
    NoContent,
    /// An image block has no data.
    NoImageData,
    /// A resource link block has no URI.
    NoLinkUri,
    /// A resource block has no URI.
    NoResourceUri,
    /// A content block has a type that is not supported.
    UnsupportedBlock { kind: Text },
    /// A byte that base64 does not use.
    Base64Byte(u8),
    /// Base64 text that breaks off within a group.
    Base64Length,
    /// The state of the server process could not be asked for.
    Poll { cause: Text },
    /// The server process could not be killed.
    Kill { cause: Text },
    /// The end of the server process could not be awaited.
    Reap { cause: Text },
    /// The reader of the server's output did not end well.
    Join { cause: Text },
    /// A command line without an executable.
    NoExecutable,
    /// A command line with a quote that is not closed.
    OpenQuote(char),
    /// Arguments of a call that are not JSON.
    Arguments { cause: Text },
    /// A document could not be written out.
    Render { cause: Text },
}

/// A failure as a running program holds it.
pub type McpError = Fault<String>;

impl View for Fault<String> {
    type V = Fault<Seq<char>>;

    open spec fn view(&self) -> Fault<Seq<char>> {
        self.reading()
    }
}

impl Fault<String> {
    /// The failure with its text as sequences of characters.
    pub open spec fn reading(&self) -> Fault<Seq<char>>
        decreases self,
    {
        match self {
            Fault::Launch { cmd, cause } => Fault::Launch { cmd: cmd@, cause: cause@ },
            Fault::StdinNotPiped => Fault::StdinNotPiped,
            Fault::StdoutNotPiped => Fault::StdoutNotPiped,
            Fault::Initialize(inner) => Fault::Initialize(Box::new(inner.reading())),
            Fault::Announce(inner) => Fault::Announce(Box::new(inner.reading())),
            Fault::Encode { cause } => Fault::Encode { cause: cause@ },
            Fault::Write { cause } => Fault::Write { cause: cause@ },
            Fault::Flush { cause } => Fault::Flush { cause: cause@ },
            Fault::Unanswered { id } => Fault::Unanswered { id: *id },
            Fault::Disconnected { reason } => Fault::Disconnected { reason: reason@ },
            Fault::Refused { id, error } => Fault::Refused { id: *id, error: error@ },
            Fault::Hollow { id } => Fault::Hollow { id: *id },
            Fault::ToolList { cause } => Fault::ToolList { cause: cause@ },
            Fault::NoContent => Fault::NoContent,
            Fault::NoImageData => Fault::NoImageData,
            Fault::NoLinkUri => Fault::NoLinkUri,
            Fault::NoResourceUri => Fault::NoResourceUri,
            Fault::UnsupportedBlock { kind } => Fault::UnsupportedBlock { kind: kind@ },
            Fault::Base64Byte(byte) => Fault::Base64Byte(*byte),
            Fault::Base64Length => Fault::Base64Length,
            Fault::Poll { cause } => Fault::Poll { cause: cause@ },
            Fault::Kill { cause } => Fault::Kill { cause: cause@ },
            Fault::Reap { cause } => Fault::Reap { cause: cause@ },
            Fault::Join { cause } => Fault::Join { cause: cause@ },
            Fault::NoExecutable => Fault::NoExecutable,
            Fault::OpenQuote(quote) => Fault::OpenQuote(*quote),
            Fault::Arguments { cause } => Fault::Arguments { cause: cause@ },
            Fault::Render { cause } => Fault::Render { cause: cause@ },
        }
    }

    /// Puts the failure into words, the most general statement first, each followed by what
    /// caused it.
    pub fn messages(&self) -> (lines: Vec<String>)
        ensures
            texts(lines@) == self@.wording(),
        decreases self,
    {
        match self {
            Fault::Launch { cmd, cause } => two(
                wrapped("failed to spawn MCP server command `", cmd.as_str(), "`"),
                cause.clone(),
            ),
            Fault::StdinNotPiped => one("child process stdin was not piped".to_owned()),
            Fault::StdoutNotPiped => one("child process stdout was not piped".to_owned()),
            Fault::Initialize(inner) => {
                let mut lines = one("MCP initialize request failed".to_owned());
                let mut rest = inner.messages();
                let ghost head = lines@;
                let ghost tail = rest@;
                lines.append(&mut rest);
                assert(texts(head + tail) =~= texts(head) + texts(tail));
                lines
            },
            Fault::Announce(inner) => {
                let mut lines = one("failed to send MCP initialized notification".to_owned());
                let mut rest = inner.messages();
                let ghost head = lines@;
                let ghost tail = rest@;
                lines.append(&mut rest);
                assert(texts(head + tail) =~= texts(head) + texts(tail));
                lines
            },
            Fault::Encode { cause } => two(
                "failed to encode JSON-RPC message".to_owned(),
                cause.clone(),
            ),
            Fault::Write { cause } => two(
                "failed to write JSON-RPC message to MCP server stdin".to_owned(),
                cause.clone(),
            ),
            Fault::Flush { cause } => two(
                "failed to flush MCP server stdin".to_owned(),
                cause.clone(),
            ),
            Fault::Unanswered { id } => one(
                joined(
                    "MCP server closed before responding to request ",
                    decimal_text(*id).as_str(),
                ),
            ),
            Fault::Disconnected { reason } => one(reason.clone()),
            Fault::Refused { id, error } => one(
                joined(
                    wrapped("MCP request ", decimal_text(*id).as_str(), " failed: ").as_str(),
                    error.as_str(),
                ),
            ),
            Fault::Hollow { id } => one(
                wrapped(
                    "MCP response for request ",
                    decimal_text(*id).as_str(),
                    " did not contain result or error",
                ),
            ),
            Fault::ToolList { cause } => two(
                "failed to decode MCP tools/list response".to_owned(),
                cause.clone(),
            ),
            Fault::NoContent => one("MCP tools/call response missing content array".to_owned()),
            Fault::NoImageData => one("MCP image content block missing data".to_owned()),
            Fault::NoLinkUri => one("MCP resource link content block missing uri".to_owned()),
            Fault::NoResourceUri => one("MCP resource content block missing uri".to_owned()),
            Fault::UnsupportedBlock { kind } => one(
                wrapped("unsupported MCP content block type `", kind.as_str(), "`"),
            ),
            Fault::Base64Byte(byte) => one(
                wrapped("invalid base64 byte `", decimal_text(*byte as u64).as_str(), "`"),
            ),
            Fault::Base64Length => one("invalid base64 length".to_owned()),
            Fault::Poll { cause } => one(cause.clone()),
            Fault::Kill { cause } => two(
                "failed to kill MCP server child".to_owned(),
                cause.clone(),
            ),
            Fault::Reap { cause } => two(
                "failed to wait for MCP server child".to_owned(),
                cause.clone(),
            ),
            Fault::Join { cause } => two(
                "MCP stdout reader task failed to join".to_owned(),
                cause.clone(),
            ),
            Fault::NoExecutable => one("--cmd must contain an executable".to_owned()),
            Fault::OpenQuote(quote) => {
                let mut mark = String::new();
                mark.push(*quote);
                assert(mark@ =~= seq![*quote]);
                one(wrapped("unterminated ", mark.as_str(), " quote in --cmd"))
            },
            Fault::Arguments { cause } => two(
                "failed to parse --args as JSON".to_owned(),
                cause.clone(),
            ),
            Fault::Render { cause } => one(cause.clone()),
        }
    }
}

impl Fault<Seq<char>> {
    /// The failure in words, the most general statement first, each followed by what caused it.
    pub open spec fn wording(self) -> Seq<Seq<char>>
        decreases self,
    {
        match self {
            Fault::Launch { cmd, cause } => seq![
                "failed to spawn MCP server command `"@ + cmd + "`"@,
                cause,
            ],
            Fault::StdinNotPiped => seq!["child process stdin was not piped"@],
            Fault::StdoutNotPiped => seq!["child process stdout was not piped"@],
            Fault::Initialize(inner) => seq!["MCP initialize request failed"@] + inner.wording(),
            Fault::Announce(inner) => seq!["failed to send MCP initialized notification"@]
                + inner.wording(),
            Fault::Encode { cause } => seq!["failed to encode JSON-RPC message"@, cause],
            Fault::Write { cause } => seq![
                "failed to write JSON-RPC message to MCP server stdin"@,
                cause,
            ],
            Fault::Flush { cause } => seq!["failed to flush MCP server stdin"@, cause],
            Fault::Unanswered { id } => seq![
                "MCP server closed before responding to request "@ + decimal(id as nat),
            ],
            Fault::Disconnected { reason } => seq![reason],
            Fault::Refused { id, error } => seq![
                "MCP request "@ + decimal(id as nat) + " failed: "@ + error,
            ],
            Fault::Hollow { id } => seq![
                "MCP response for request "@ + decimal(id as nat)
                    + " did not contain result or error"@,
            ],
            Fault::ToolList { cause } => seq!["failed to decode MCP tools/list response"@, cause],
            Fault::NoContent => seq!["MCP tools/call response missing content array"@],
            Fault::NoImageData => seq!["MCP image content block missing data"@],
            Fault::NoLinkUri => seq!["MCP resource link content block missing uri"@],
            Fault::NoResourceUri => seq!["MCP resource content block missing uri"@],
            Fault::UnsupportedBlock { kind } => seq![
                "unsupported MCP content block type `"@ + kind + "`"@,
            ],
            Fault::Base64Byte(byte) => seq![
                "invalid base64 byte `"@ + decimal(byte as nat) + "`"@,
            ],
            Fault::Base64Length => seq!["invalid base64 length"@],
            Fault::Poll { cause } => seq![cause],
            Fault::Kill { cause } => seq!["failed to kill MCP server child"@, cause],
            Fault::Reap { cause } => seq!["failed to wait for MCP server child"@, cause],
            Fault::Join { cause } => seq!["MCP stdout reader task failed to join"@, cause],
            Fault::NoExecutable => seq!["--cmd must contain an executable"@],
            Fault::OpenQuote(quote) => seq!["unterminated "@ + seq![quote] + " quote in --cmd"@],
            Fault::Arguments { cause } => seq!["failed to parse --args as JSON"@, cause],
            Fault::Render { cause } => seq![cause],
        }
    }
}

/// A list of one line.
fn one(line: String) -> (lines: Vec<String>)
    ensures
        texts(lines@) == seq![line@],
{
    let mut lines: Vec<String> = Vec::new();
    lines.push(line);
    assert(texts(lines@) =~= seq![line@]);
    lines
}

/// A list of two lines.
fn two(first: String, second: String) -> (lines: Vec<String>)
    ensures
        texts(lines@) == seq![first@, second@],
{
    let mut lines: Vec<String> = Vec::new();
    lines.push(first);
    lines.push(second);
    assert(texts(lines@) =~= seq![first@, second@]);
    lines
}

/// The lines are these.
pub open spec fn reads(lines: Vec<String>, expected: Seq<Seq<char>>) -> bool {
    lines@.map_values(|line: String| line@) == expected
}

/// A failure is put into words that name what it is about: the command, the number of the request,
/// the error that the server gave, the type, the byte or the quote. What caused it comes last.
pub proof fn law_failure_is_named_in_full(
    fault: &McpError,
    lines: Vec<String>,
    number: u64,
    digits: String,
)
    requires
        call_ensures(Fault::<String>::messages, (fault,), lines),
        call_ensures(decimal_text, (number,), digits),
    ensures
        match *fault {
            Fault::Launch { cmd, cause } => reads(
                lines,
                seq!["failed to spawn MCP server command `"@ + cmd@ + "`"@, cause@],
            ),
            Fault::StdinNotPiped => reads(lines, seq!["child process stdin was not piped"@]),
            Fault::StdoutNotPiped => reads(lines, seq!["child process stdout was not piped"@]),
            Fault::Encode { cause } => reads(
                lines,
                seq!["failed to encode JSON-RPC message"@, cause@],
            ),
            Fault::Write { cause } => reads(
                lines,
                seq!["failed to write JSON-RPC message to MCP server stdin"@, cause@],
            ),
            Fault::Flush { cause } => reads(
                lines,
                seq!["failed to flush MCP server stdin"@, cause@],
            ),
            Fault::Unanswered { id } => id == number ==> reads(
                lines,
                seq!["MCP server closed before responding to request "@ + digits@],
            ),
            Fault::Disconnected { reason } => reads(lines, seq![reason@]),
            Fault::Refused { id, error } => id == number ==> reads(
                lines,
                seq!["MCP request "@ + digits@ + " failed: "@ + error@],
            ),
            Fault::Hollow { id } => id == number ==> reads(
                lines,
                seq![
                    "MCP response for request "@ + digits@ + " did not contain result or error"@,
                ],
            ),
            Fault::ToolList { cause } => reads(
                lines,
                seq!["failed to decode MCP tools/list response"@, cause@],
            ),
            Fault::NoContent => reads(
                lines,
                seq!["MCP tools/call response missing content array"@],
            ),
            Fault::NoImageData => reads(lines, seq!["MCP image content block missing data"@]),
            Fault::NoLinkUri => reads(lines, seq!["MCP resource link content block missing uri"@]),
            Fault::NoResourceUri => reads(lines, seq!["MCP resource content block missing uri"@]),
            Fault::UnsupportedBlock { kind } => reads(
                lines,
                seq!["unsupported MCP content block type `"@ + kind@ + "`"@],
            ),
            Fault::Base64Byte(byte) => byte == number ==> reads(
                lines,
                seq!["invalid base64 byte `"@ + digits@ + "`"@],
            ),
            Fault::Base64Length => reads(lines, seq!["invalid base64 length"@]),
            Fault::Poll { cause } => reads(lines, seq![cause@]),
            Fault::Kill { cause } => reads(lines, seq!["failed to kill MCP server child"@, cause@]),
            Fault::Reap { cause } => reads(
                lines,
                seq!["failed to wait for MCP server child"@, cause@],
            ),
            Fault::Join { cause } => reads(
                lines,
                seq!["MCP stdout reader task failed to join"@, cause@],
            ),
            Fault::NoExecutable => reads(lines, seq!["--cmd must contain an executable"@]),
            Fault::OpenQuote(quote) => reads(
                lines,
                seq!["unterminated "@ + seq![quote] + " quote in --cmd"@],
            ),
            Fault::Arguments { cause } => reads(
                lines,
                seq!["failed to parse --args as JSON"@, cause@],
            ),
            Fault::Render { cause } => reads(lines, seq![cause@]),
            Fault::Initialize(_) => true,
            Fault::Announce(_) => true,
        },
{
    assert(texts(lines@) =~= lines@.map_values(|line: String| line@));
}

/// A failed handshake is put into words by one line of its own, followed by the words of what
/// caused it.
pub proof fn law_handshake_failure_tells_its_cause(
    fault: &McpError,
    lines: Vec<String>,
    cause: &McpError,
    rest: Vec<String>,
)
    requires
        call_ensures(Fault::<String>::messages, (fault,), lines),
        call_ensures(Fault::<String>::messages, (cause,), rest),
    ensures
        fault matches Fault::Initialize(inner) ==> (**inner == *cause ==> reads(
            lines,
            seq!["MCP initialize request failed"@] + rest@.map_values(|line: String| line@),
        )),
        fault matches Fault::Announce(inner) ==> (**inner == *cause ==> reads(
            lines,
            seq!["failed to send MCP initialized notification"@] + rest@.map_values(
                |line: String| line@,
            ),
        )),
{
    assert(texts(lines@) =~= lines@.map_values(|line: String| line@));
    assert(texts(rest@) =~= rest@.map_values(|line: String| line@));
}

} // verus!
