//! The client's side of a session: which requests are out, what is written, what an answer means.

use serde_json::Value;
use vstd::prelude::*;
use vstd::string::*;

use crate::error::{Fault, McpError};
use crate::json::{object_value, text_value, JsonView};
use crate::lifecycle::{ShutdownPhase, SpawnPhase};
use crate::pending::{PendingMap, ReaderEvent, ReaderStep};
use crate::rpc::{JsonRpcNotification, JsonRpcRequest, NotificationView, RequestView};
use crate::tools::call_params;

verus! {

/// The `id` of the initialize request.
pub const INITIALIZE_ID: u64 = 0;

/// The `id` of the first request after the initialize request.
pub const FIRST_ID: u64 = 1;

/// A session with a server. `T` is whom to tell the answer to a request.
pub struct McpStdioClient<T> {
    pending: PendingMap<T>,
    next_id: u64,
}

/// The requests that wait for an answer, and the `id` of the next.
#[verifier::ext_equal]
pub struct ClientView<T> {
    pub pending: Map<u64, T>,
    pub next_id: u64,
}

impl<T> View for McpStdioClient<T> {
    type V = ClientView<T>;

    closed spec fn view(&self) -> ClientView<T> {
        ClientView { pending: self.pending@, next_id: self.next_id }
    }
}

/// A request that is to be written.
#[derive(Debug)]
pub struct Outgoing {
    pub id: u64,
    pub line: Vec<u8>,
}

/// The process that serves a session.
#[derive(Debug)]
pub struct Launch {
    pub program: String,
    pub args: Vec<String>,
    pub env: Vec<(String, String)>,
}

/// A session whose server is still to be started.
pub struct Spawning<T> {
    pub client: McpStdioClient<T>,
    pub launch: Launch,
    pub phase: SpawnPhase,
}

/// The two messages that a session ends with.
#[derive(Debug)]
pub struct Farewell {
    pub request: Vec<u8>,
    pub exit: Vec<u8>,
    pub phase: ShutdownPhase,
}

/// The `id` after `id`; behind the last one they start over.
pub open spec fn id_after(id: u64) -> u64 {
    if id == u64::MAX {
        0
    } else {
        (id + 1) as u64
    }
}

/// The `id` of the request that `n` others come before.
pub open spec fn nth_id(n: nat) -> u64
    decreases n,
{
    if n == 0 {
        FIRST_ID
    } else {
        id_after(nth_id((n - 1) as nat))
    }
}

/// The session after a request has been put out under `id`.
pub open spec fn asked<T>(client: ClientView<T>, id: u64, waiter: T) -> ClientView<T> {
    ClientView { pending: client.pending.insert(id, waiter), next_id: client.next_id }
}

/// The session after a request has been put out under the next `id`.
pub open spec fn requested<T>(client: ClientView<T>, waiter: T) -> ClientView<T> {
    ClientView {
        pending: client.pending.insert(client.next_id, waiter),
        next_id: id_after(client.next_id),
    }
}

/// The session after request `id` has been written, or could not be.
pub open spec fn after_write<T>(
    client: ClientView<T>,
    id: u64,
    outcome: Result<(), McpError>,
) -> ClientView<T> {
    ClientView {
        pending: match outcome {
            Ok(_) => client.pending,
            Err(_) => client.pending.remove(id),
        },
        next_id: client.next_id,
    }
}

/// An object without members.
pub open spec fn no_params() -> JsonView {
    JsonView::Object(crate::json::entered(seq![]))
}

/// The parameters of the initialize request.
pub open spec fn initialize_document() -> JsonView {
    JsonView::Object(
        crate::json::entered(
            seq![
                ("protocolVersion"@, JsonView::Text("2024-11-05"@)),
                ("capabilities"@, no_params()),
                (
                    "clientInfo"@,
                    JsonView::Object(
                        crate::json::entered(
                            seq![
                                ("name"@, JsonView::Text("mcp-stdio-rs"@)),
                                ("version"@, JsonView::Text("0.1.0"@)),
                            ],
                        ),
                    ),
                ),
            ],
        ),
    )
}

/// `line` is the request, as one line that spells the request and denotes it if its parameters are
/// exact.
pub open spec fn writes_request(line: Seq<u8>, request: RequestView) -> bool {
    &&& line == crate::rpc::message_line(request.members())
    &&& crate::rpc::is_one_line(line)
    &&& crate::rpc::line_spells(line, request.document())
    &&& crate::rpc::exact_params(request.params) ==> crate::rpc::line_denotes(
        line,
        request.document(),
    )
}

/// `line` is the notification, as one line that spells the notification and denotes it if its
/// parameters are exact.
pub open spec fn writes_notification(line: Seq<u8>, notification: NotificationView) -> bool {
    &&& line == crate::rpc::message_line(notification.members())
    &&& crate::rpc::is_one_line(line)
    &&& crate::rpc::line_spells(line, notification.document())
    &&& crate::rpc::exact_params(notification.params) ==> crate::rpc::line_denotes(
        line,
        notification.document(),
    )
}

/// An object without members.
pub fn empty_params() -> (params: Value)
    ensures
        crate::json::document(params) == no_params(),
{
    let members: Vec<(String, Value)> = Vec::new();
    assert(crate::json::member_documents(members@) =~= seq![]);
    object_value(members)
}

/// The parameters of the initialize request.
pub fn initialize_params() -> (params: Value)
    ensures
        crate::json::document(params) == initialize_document(),
{
    let mut info: Vec<(String, Value)> = Vec::new();
    info.push(("name".to_owned(), text_value("mcp-stdio-rs")));
    info.push(("version".to_owned(), text_value("0.1.0")));
    proof {
        reveal_strlit("name");
        reveal_strlit("version");
        assert("name"@.len() != "version"@.len());
        assert(crate::json::member_documents(info@) =~= seq![
            ("name"@, JsonView::Text("mcp-stdio-rs"@)),
            ("version"@, JsonView::Text("0.1.0"@)),
        ]);
    }
    let client_info: Value = object_value(info);
    let mut members: Vec<(String, Value)> = Vec::new();
    members.push(("protocolVersion".to_owned(), text_value("2024-11-05")));
    members.push(("capabilities".to_owned(), empty_params()));
    members.push(("clientInfo".to_owned(), client_info));
    proof {
        reveal_strlit("protocolVersion");
        reveal_strlit("capabilities");
        reveal_strlit("clientInfo");
        assert("protocolVersion"@.len() == 15 && "capabilities"@.len() == 12
            && "clientInfo"@.len() == 10);
        assert(crate::json::member_documents(members@) =~= seq![
            ("protocolVersion"@, JsonView::Text("2024-11-05"@)),
            ("capabilities"@, no_params()),
            ("clientInfo"@, crate::json::document(client_info)),
        ]);
    }
    object_value(members)
}

/// The strings that the slices hold.
fn owned_strings(slices: &[&str]) -> (strings: Vec<String>)
    ensures
        strings@.len() == slices@.len(),
        forall|i: int| 0 <= i < strings@.len() ==> (#[trigger] strings@[i])@ == slices@[i]@,
{
    let mut strings: Vec<String> = Vec::new();
    for i in 0..slices.len()
        invariant
            strings@.len() == i,
            forall|j: int| 0 <= j < i ==> (#[trigger] strings@[j])@ == slices@[j]@,
    {
        strings.push(slices[i].to_owned());
    }
    strings
}

/// The pairs of strings that the slices hold.
fn owned_pairs(slices: &[(&str, &str)]) -> (pairs: Vec<(String, String)>)
    ensures
        pairs@.len() == slices@.len(),
        forall|i: int|
            0 <= i < pairs@.len() ==> (#[trigger] pairs@[i]).0@ == slices@[i].0@ && pairs@[i].1@
                == slices@[i].1@,
{
    let mut pairs: Vec<(String, String)> = Vec::new();
    for i in 0..slices.len()
        invariant
            pairs@.len() == i,
            forall|j: int|
                0 <= j < i ==> (#[trigger] pairs@[j]).0@ == slices@[j].0@ && pairs@[j].1@
                    == slices@[j].1@,
    {
        pairs.push((slices[i].0.to_owned(), slices[i].1.to_owned()));
    }
    pairs
}

impl<T> McpStdioClient<T> {
    /// A session that is to be served by the given command, with the given variables added to
    /// its environment. Nothing waits yet, and the first step is to launch the process.
    pub fn spawn(cmd: &str, args: &[&str], env: &[(&str, &str)]) -> (spawning: Spawning<T>)
        ensures
            spawning.client@ == (ClientView { pending: Map::<u64, T>::empty(), next_id: FIRST_ID }),
            spawning.launch.program@ == cmd@,
            spawning.launch.args@.len() == args@.len(),
            forall|i: int|
                0 <= i < args@.len() ==> (#[trigger] spawning.launch.args@[i])@ == args@[i]@,
            spawning.launch.env@.len() == env@.len(),
            forall|i: int|
                0 <= i < env@.len() ==> (#[trigger] spawning.launch.env@[i]).0@ == env@[i].0@
                    && spawning.launch.env@[i].1@ == env@[i].1@,
            spawning.phase matches SpawnPhase::Launching { cmd: launched } && launched@ == cmd@,
    {
        Spawning {
            client: McpStdioClient { pending: PendingMap::new(), next_id: FIRST_ID },
            launch: Launch {
                program: cmd.to_owned(),
                args: owned_strings(args),
                env: owned_pairs(env),
            },
            phase: SpawnPhase::Launching { cmd: cmd.to_owned() },
        }
    }

    /// The initialize request, which waits under an `id` of its own.
    pub fn initialize(&mut self, waiter: T) -> (r: Result<Outgoing, McpError>)
        ensures
            r matches Ok(out) && out.id == INITIALIZE_ID && writes_request(
                out.line@,
                RequestView::of(INITIALIZE_ID, "initialize"@, initialize_document()),
            ),
            final(self)@ == asked(old(self)@, INITIALIZE_ID, waiter),
    {
        self.send_request_with_id(INITIALIZE_ID, "initialize", initialize_params(), waiter)
    }

    /// The notification that the client is initialized.
    pub fn initialized(&self) -> (r: Result<Vec<u8>, McpError>)
        ensures
            r matches Ok(line) && writes_notification(
                line@,
                NotificationView::of("notifications/initialized"@, no_params()),
            ),
    {
        self.send_notification("notifications/initialized", empty_params())
    }

    /// The request for the list of tools.
    pub fn list_tools(&mut self, waiter: T) -> (r: Result<Outgoing, McpError>)
        ensures
            r matches Ok(out) && out.id == old(self)@.next_id && writes_request(
                out.line@,
                RequestView::of(old(self)@.next_id, "tools/list"@, no_params()),
            ),
            final(self)@ == requested(old(self)@, waiter),
    {
        self.send_request("tools/list", empty_params(), waiter)
    }

    /// The request to call a tool.
    pub fn call_tool(&mut self, name: &str, args: Value, waiter: T) -> (r: Result<
        Outgoing,
        McpError,
    >)
        ensures
            r matches Ok(out) && out.id == old(self)@.next_id && writes_request(
                out.line@,
                RequestView::of(
                    old(self)@.next_id,
                    "tools/call"@,
                    crate::tools::call_document(name@, crate::json::document(args)),
                ),
            ),
            final(self)@ == requested(old(self)@, waiter),
    {
        self.send_request("tools/call", call_params(name, args), waiter)
    }

    /// The shutdown request, for whose answer nobody waits, and the exit notification. The first
    /// step is to send the request.
    pub fn shutdown(&mut self) -> (r: Result<Farewell, McpError>)
        ensures
            r matches Ok(farewell) && farewell.phase == ShutdownPhase::Asking && writes_request(
                farewell.request@,
                RequestView::of(old(self)@.next_id, "shutdown"@, no_params()),
            ) && writes_notification(
                farewell.exit@,
                NotificationView::of("notifications/exit"@, no_params()),
            ),
            final(self)@ == (ClientView {
                pending: old(self)@.pending,
                next_id: id_after(old(self)@.next_id),
            }),
    {
        let request: Vec<u8> = match self.send_request_no_response("shutdown", empty_params()) {
            Ok(line) => line,
            Err(error) => {
                return Err(error);
            },
        };
        match self.send_notification("notifications/exit", empty_params()) {
            Ok(exit) => Ok(Farewell { request, exit, phase: ShutdownPhase::Asking }),
            Err(error) => Err(error),
        }
    }

    /// A request under the next `id`.
    pub fn send_request(&mut self, method: &str, params: Value, waiter: T) -> (r: Result<
        Outgoing,
        McpError,
    >)
        ensures
            r matches Ok(out) && out.id == old(self)@.next_id && writes_request(
                out.line@,
                RequestView::of(old(self)@.next_id, method@, crate::json::document(params)),
            ),
            final(self)@ == requested(old(self)@, waiter),
    {
        let id: u64 = self.take_id();
        self.send_request_with_id(id, method, params, waiter)
    }

    /// A request under the given `id`. It waits from now on.
    pub fn send_request_with_id(&mut self, id: u64, method: &str, params: Value, waiter: T) -> (r:
        Result<Outgoing, McpError>)
        ensures
            r matches Ok(out) && out.id == id && writes_request(
                out.line@,
                RequestView::of(id, method@, crate::json::document(params)),
            ),
            final(self)@ == asked(old(self)@, id, waiter),
    {
        let _ = self.pending.insert(id, waiter);
        match JsonRpcRequest::new(id, method, params).into_line() {
            Ok(line) => Ok(Outgoing { id, line }),
            Err(error) => {
                self.withdraw(id);
                Err(error)
            },
        }
    }

    /// A request under the next `id`, for whose answer nobody waits.
    pub fn send_request_no_response(&mut self, method: &str, params: Value) -> (r: Result<
        Vec<u8>,
        McpError,
    >)
        ensures
            r matches Ok(line) && writes_request(
                line@,
                RequestView::of(old(self)@.next_id, method@, crate::json::document(params)),
            ),
            final(self)@ == (ClientView {
                pending: old(self)@.pending,
                next_id: id_after(old(self)@.next_id),
            }),
    {
        let id: u64 = self.take_id();
        JsonRpcRequest::new(id, method, params).into_line()
    }

    /// A notification.
    pub fn send_notification(&self, method: &str, params: Value) -> (r: Result<Vec<u8>, McpError>)
        ensures
            r matches Ok(line) && writes_notification(
                line@,
                NotificationView::of(method@, crate::json::document(params)),
            ),
    {
        JsonRpcNotification::new(method, params).into_line()
    }

    /// The next `id`, which is then used up.
    fn take_id(&mut self) -> (id: u64)
        ensures
            id == old(self)@.next_id,
            final(self)@ == (ClientView {
                pending: old(self)@.pending,
                next_id: id_after(old(self)@.next_id),
            }),
    {
        let id: u64 = self.next_id;
        self.next_id = if id == u64::MAX {
            0
        } else {
            id + 1
        };
        id
    }

    /// The outcome of writing request `id`. If it could not be written, it no longer waits, and
    /// it ends with this failure; otherwise its answer is still to come.
    pub fn written(&mut self, id: u64, outcome: Result<(), McpError>) -> (r: Result<(), McpError>)
        ensures
            r == outcome,
            final(self)@ == after_write(old(self)@, id, outcome),
    {
        if outcome.is_err() {
            self.withdraw(id);
        }
        outcome
    }

    /// Lets request `id` wait no longer.
    fn withdraw(&mut self, id: u64)
        ensures
            final(self)@ == (ClientView {
                pending: old(self)@.pending.remove(id),
                next_id: old(self)@.next_id,
            }),
    {
        let _ = self.pending.remove(id);
    }

    /// The end of a request: the answer that it was told, or that it was dropped without one.
    pub fn conclude(id: u64, told: Option<Result<Value, McpError>>) -> (r: Result<
        Value,
        McpError,
    >)
        ensures
            match told {
                Some(answer) => r == answer,
                None => r matches Err(error) && error@ == (Fault::<Seq<char>>::Unanswered { id }),
            },
    {
        match told {
            Some(answer) => answer,
            None => Err(Fault::Unanswered { id }),
        }
    }

    /// What the reader of the server's output does about what it came upon.
    pub fn read(&mut self, event: ReaderEvent) -> (step: ReaderStep<T>)
        ensures
            final(self)@.next_id == old(self)@.next_id,
            match event {
                ReaderEvent::Line(line) => if crate::text::blank(line@) {
                    step is Skip && final(self)@.pending == old(self)@.pending
                } else {
                    step matches ReaderStep::Dispatched(dispatch) && (
                        final(self)@.pending,
                        dispatch@,
                    ) == crate::pending::line_dispatched(old(self)@.pending, line@)
                },
                _ => step matches ReaderStep::Stop(failures) && final(self)@.pending == Map::<
                    u64,
                    T,
                >::empty() && crate::pending::all_failed(
                    old(self)@.pending,
                    failures@,
                    crate::pending::stop_reason(event),
                ),
            },
    {
        self.pending.read(event)
    }
}

/// Every request that waits has an `id` that was given out before the next one.
pub open spec fn orderly<T>(client: ClientView<T>) -> bool {
    &&& FIRST_ID <= client.next_id
    &&& forall|id: u64| #[trigger] client.pending.contains_key(id) ==> id < client.next_id
}

/// A session is orderly from the start and stays so: the initialize request, further requests,
/// requests without an answer, the outcomes of writing them, lines from the server and the end of
/// its output keep it orderly, until all numbers are used up.
pub proof fn law_session_stays_orderly<T>(
    client: ClientView<T>,
    waiter: T,
    id: u64,
    outcome: Result<(), McpError>,
    line: Seq<char>,
)
    requires
        orderly(client),
        client.next_id < u64::MAX,
    ensures
        orderly(ClientView { pending: Map::<u64, T>::empty(), next_id: FIRST_ID }),
        orderly(asked(client, INITIALIZE_ID, waiter)),
        orderly(requested(client, waiter)),
        orderly(
            (ClientView { pending: client.pending, next_id: id_after(client.next_id) }),
        ),
        orderly(after_write(client, id, outcome)),
        orderly(
            (ClientView {
                pending: crate::pending::line_dispatched(client.pending, line).0,
                next_id: client.next_id,
            }),
        ),
        orderly((ClientView { pending: Map::<u64, T>::empty(), next_id: client.next_id })),
{
}

/// A request displaces no other: in an orderly session nobody waits under the next `id`, so
/// whoever waits goes on waiting when a request is put out, and the request itself waits too.
pub proof fn law_request_displaces_no_other<T>(client: ClientView<T>, waiter: T, id: u64)
    requires
        orderly(client),
        client.pending.contains_key(id),
    ensures
        !client.pending.contains_key(client.next_id),
        requested(client, waiter).pending.contains_key(id),
        requested(client, waiter).pending[id] == client.pending[id],
        requested(client, waiter).pending.contains_key(client.next_id),
        requested(client, waiter).pending[client.next_id] == waiter,
{
}

/// A request that cannot be written leaves no trace: if nobody waited under its `id` before, the
/// session is as it was, and the request ends with the failure of the write.
pub proof fn law_failed_write_leaves_no_trace<T>(
    client: ClientView<T>,
    id: u64,
    waiter: T,
    error: McpError,
)
    requires
        !client.pending.contains_key(id),
    ensures
        after_write(asked(client, id, waiter), id, Err(error)) == client,
{
    assert(client.pending.insert(id, waiter).remove(id) =~= client.pending);
}

/// A request that has been written waits: the session is as it was when the request was put out,
/// and who waits under its `id` is the one who made it.
pub proof fn law_written_request_waits<T>(client: ClientView<T>, id: u64, waiter: T)
    ensures
        after_write(asked(client, id, waiter), id, Ok(())) == asked(client, id, waiter),
        asked(client, id, waiter).pending.contains_key(id),
        asked(client, id, waiter).pending[id] == waiter,
{
}

/// The write of one request does not bear on another: whoever waits under another `id` goes on
/// waiting, whatever came of the write.
pub proof fn law_write_leaves_others_waiting<T>(
    client: ClientView<T>,
    id: u64,
    outcome: Result<(), McpError>,
    other: u64,
)
    requires
        other != id,
    ensures
        after_write(client, id, outcome).pending.contains_key(other)
            <==> client.pending.contains_key(other),
        client.pending.contains_key(other) ==> after_write(client, id, outcome).pending[other]
            == client.pending[other],
        after_write(client, id, outcome).next_id == client.next_id,
{
}

/// Requests are numbered from 1 on.
pub proof fn law_ids_count_up(n: nat)
    requires
        n < u64::MAX,
    ensures
        nth_id(n) == n + 1,
    decreases n,
{
    if n > 0 {
        law_ids_count_up((n - 1) as nat);
    }
}

/// No two requests of a session have the same `id`, and none has that of the initialize request,
/// until all numbers are used up.
pub proof fn law_ids_do_not_repeat(i: nat, j: nat)
    requires
        i < j < u64::MAX,
    ensures
        nth_id(i) != nth_id(j),
        nth_id(j) != INITIALIZE_ID,
        nth_id(i) != INITIALIZE_ID,
{
    law_ids_count_up(i);
    law_ids_count_up(j);
}

/// The session after a request under the next `id`: its maker waits under this `id`, everybody
/// else as before, and the number after it is next; behind the last number they start over.
pub open spec fn took_next_id<T>(before: ClientView<T>, after: ClientView<T>, waiter: T) -> bool {
    &&& after.pending.contains_key(before.next_id)
    &&& after.pending[before.next_id] == waiter
    &&& others_wait_as_before(before, after, before.next_id)
    &&& counted_on(before, after)
}

/// Whoever waits under another `id` waits as before.
pub open spec fn others_wait_as_before<T>(
    before: ClientView<T>,
    after: ClientView<T>,
    id: u64,
) -> bool {
    forall|other: u64|
        other != id ==> (#[trigger] after.pending.contains_key(other)
            <==> before.pending.contains_key(other)) && (before.pending.contains_key(other)
            ==> after.pending[other] == before.pending[other])
}

/// The next `id` has been used up: the number after it is next, and behind the last one they start
/// over.
pub open spec fn counted_on<T>(before: ClientView<T>, after: ClientView<T>) -> bool {
    &&& before.next_id < u64::MAX ==> after.next_id == before.next_id + 1
    &&& before.next_id == u64::MAX ==> after.next_id == 0
}

/// The document is an object without members.
pub open spec fn is_empty_object(document: JsonView) -> bool {
    document is Object && forall|key: Seq<char>| (#[trigger] document.member(key)) is None
}

/// The parameters of a request that has none are an object without members.
proof fn lemma_no_params()
    ensures
        is_empty_object(no_params()),
        no_params().exact_within(126),
        no_params().plain_within(126),
{
    assert(no_params()->Object_0 =~= Map::<Seq<char>, JsonView>::empty());
}

/// A call of a tool is a request under the next `id` whose parameters hold the tool's name and the
/// arguments, and nothing else; arguments without fractions arrive just as they were given. Its
/// maker waits for the answer.
pub proof fn law_tool_call_carries_name_and_arguments<T>(
    client: &mut McpStdioClient<T>,
    name: &str,
    args: Value,
    waiter: T,
    r: Result<Outgoing, McpError>,
)
    requires
        call_ensures(McpStdioClient::<T>::call_tool, (client, name, args, waiter), r),
    ensures
        took_next_id(old(client)@, final(client)@, waiter),
        r matches Ok(out) && out.id == old(client)@.next_id && crate::rpc::is_text_line(out.line@)
            && (crate::rpc::reading(out.line@) matches Ok(read) ==> {
            &&& read.member("jsonrpc"@) == Some(JsonView::Text("2.0"@))
            &&& read.member("id"@) matches Some(JsonView::Number { unsigned, .. }) && unsigned
                == Some(out.id)
            &&& read.member("method"@) == Some(JsonView::Text("tools/call"@))
            &&& read.member("params"@) matches Some(params)
            &&& params.member("name"@) == Some(JsonView::Text(name@))
            &&& params.member("arguments"@) matches Some(carried)
            &&& crate::json::document(args).alike_within(carried, 125)
            &&& crate::json::document(args).exact_within(125) ==> carried
                == crate::json::document(args)
            &&& forall|key: Seq<char>|
                (#[trigger] params.member(key)) is Some ==> key == "name"@ || key == "arguments"@
        }),
        crate::json::document(args).plain_within(125) ==> crate::rpc::reading(r->Ok_0.line@) is Ok,
{
    let given = crate::json::document(args);
    let params = crate::tools::call_document(name@, given);
    let members = seq![("name"@, JsonView::Text(name@)), ("arguments"@, given)];
    let line = r->Ok_0.line@;
    crate::rpc::lemma_spelled_request_says(line, old(client)@.next_id, "tools/call"@, params);
    crate::tools::law_call_carries_its_arguments(name@, given);
    assert(params.text_member("name"@) is Some);
    if given.plain_within(125) {
        crate::json::lemma_entered_plain(members, 125);
    }
    if let Ok(read) = crate::rpc::reading(line) {
        let carried = read.member("params"@)->0;
        crate::json::lemma_alike_member(params, carried, "name"@, 125);
        crate::json::lemma_alike_member(params, carried, "arguments"@, 125);
        assert forall|key: Seq<char>| (#[trigger] carried.member(key)) is Some implies key
            == "name"@ || key == "arguments"@ by {
            crate::json::lemma_alike_member(params, carried, key, 125);
            if key != "name"@ && key != "arguments"@ {
                crate::json::lemma_entered_absent(members, key);
            }
        }
    }
}

/// The request for the list of tools is a request under the next `id` with no parameters. Its
/// maker waits for the answer.
pub proof fn law_tools_are_asked_for<T>(
    client: &mut McpStdioClient<T>,
    waiter: T,
    r: Result<Outgoing, McpError>,
)
    requires
        call_ensures(McpStdioClient::<T>::list_tools, (client, waiter), r),
    ensures
        took_next_id(old(client)@, final(client)@, waiter),
        r matches Ok(out) && out.id == old(client)@.next_id && (exists|params: JsonView|
            is_empty_object(params) && params.exact_within(126) && params.plain_within(126)
                && #[trigger] crate::rpc::says_request(
                out.line@,
                out.id,
                "tools/list"@,
                params,
            )),
{
    lemma_no_params();
    let line = r->Ok_0.line@;
    crate::rpc::lemma_spelled_request_says(line, old(client)@.next_id, "tools/list"@, no_params());
    assert(crate::rpc::says_request(line, r->Ok_0.id, "tools/list"@, no_params()));
}

/// A request is a call under the next `id` of the method with the parameters that it was given.
/// Its maker waits for the answer.
pub proof fn law_request_says_what_it_was_given<T>(
    client: &mut McpStdioClient<T>,
    method: &str,
    params: Value,
    waiter: T,
    r: Result<Outgoing, McpError>,
)
    requires
        call_ensures(McpStdioClient::<T>::send_request, (client, method, params, waiter), r),
    ensures
        took_next_id(old(client)@, final(client)@, waiter),
        r matches Ok(out) && out.id == old(client)@.next_id && crate::rpc::says_request(
            out.line@,
            out.id,
            method@,
            crate::json::document(params),
        ),
{
    crate::rpc::lemma_spelled_request_says(
        r->Ok_0.line@,
        old(client)@.next_id,
        method@,
        crate::json::document(params),
    );
}

/// A request under a given `id` is a call under this `id` of the method with the parameters that
/// it was given. Its maker waits for the answer, everybody else as before, and no number is used
/// up.
pub proof fn law_numbered_request_says_what_it_was_given<T>(
    client: &mut McpStdioClient<T>,
    id: u64,
    method: &str,
    params: Value,
    waiter: T,
    r: Result<Outgoing, McpError>,
)
    requires
        call_ensures(
            McpStdioClient::<T>::send_request_with_id,
            (client, id, method, params, waiter),
            r,
        ),
    ensures
        final(client)@.pending.contains_key(id),
        final(client)@.pending[id] == waiter,
        others_wait_as_before(old(client)@, final(client)@, id),
        final(client)@.next_id == old(client)@.next_id,
        r matches Ok(out) && out.id == id && crate::rpc::says_request(
            out.line@,
            id,
            method@,
            crate::json::document(params),
        ),
{
    crate::rpc::lemma_spelled_request_says(
        r->Ok_0.line@,
        id,
        method@,
        crate::json::document(params),
    );
}

/// A request without an answer is a call under the next `id`, and nobody waits for it.
pub proof fn law_nobody_waits_for_a_silent_request<T>(
    client: &mut McpStdioClient<T>,
    method: &str,
    params: Value,
    r: Result<Vec<u8>, McpError>,
)
    requires
        call_ensures(McpStdioClient::<T>::send_request_no_response, (client, method, params), r),
    ensures
        final(client)@.pending == old(client)@.pending,
        counted_on(old(client)@, final(client)@),
        r matches Ok(line) && crate::rpc::says_request(
            line@,
            old(client)@.next_id,
            method@,
            crate::json::document(params),
        ),
{
    crate::rpc::lemma_spelled_request_says(
        r->Ok_0@,
        old(client)@.next_id,
        method@,
        crate::json::document(params),
    );
}

/// A notification is a call of the method with the parameters that it was given, and no request.
pub proof fn law_notification_says_what_it_was_given<T>(
    client: &McpStdioClient<T>,
    method: &str,
    params: Value,
    r: Result<Vec<u8>, McpError>,
)
    requires
        call_ensures(McpStdioClient::<T>::send_notification, (client, method, params), r),
    ensures
        r matches Ok(line) && crate::rpc::says_notification(
            line@,
            method@,
            crate::json::document(params),
        ),
{
    crate::rpc::lemma_spelled_notification_says(
        r->Ok_0@,
        method@,
        crate::json::document(params),
    );
}

/// The parameters of the initialize request name the version of the protocol, no capabilities,
/// and the client with its own version.
pub open spec fn introduces_the_client(params: JsonView) -> bool {
    &&& params.member("protocolVersion"@) == Some(JsonView::Text("2024-11-05"@))
    &&& params.member("capabilities"@) matches Some(capabilities) && is_empty_object(capabilities)
    &&& params.member("clientInfo"@) matches Some(info) && info.member("name"@) == Some(
        JsonView::Text("mcp-stdio-rs"@),
    ) && info.member("version"@) == Some(JsonView::Text("0.1.0"@)) && forall|key: Seq<char>|
        (#[trigger] info.member(key)) is Some ==> key == "name"@ || key == "version"@
    &&& forall|key: Seq<char>|
        (#[trigger] params.member(key)) is Some ==> key == "protocolVersion"@ || key
            == "capabilities"@ || key == "clientInfo"@
}

/// The parameters of the initialize request introduce the client.
proof fn lemma_initialize_document()
    ensures
        introduces_the_client(initialize_document()),
        initialize_document().exact_within(126),
        initialize_document().plain_within(126),
{
    lemma_no_params();
    reveal_strlit("name");
    reveal_strlit("version");
    reveal_strlit("protocolVersion");
    reveal_strlit("capabilities");
    reveal_strlit("clientInfo");
    assert("name"@.len() == 4 && "version"@.len() == 7 && "protocolVersion"@.len() == 15
        && "capabilities"@.len() == 12 && "clientInfo"@.len() == 10);
    let infos = seq![
        ("name"@, JsonView::Text("mcp-stdio-rs"@)),
        ("version"@, JsonView::Text("0.1.0"@)),
    ];
    let info = JsonView::Object(crate::json::entered(infos));
    crate::json::lemma_entered_present(infos, 0);
    crate::json::lemma_entered_present(infos, 1);
    crate::json::lemma_entered_exact(infos, 124);
    let members = seq![
        ("protocolVersion"@, JsonView::Text("2024-11-05"@)),
        ("capabilities"@, no_params()),
        ("clientInfo"@, info),
    ];
    crate::json::lemma_entered_present(members, 0);
    crate::json::lemma_entered_present(members, 1);
    crate::json::lemma_entered_present(members, 2);
    assert(no_params().exact_within(125)) by {
        assert(no_params()->Object_0 =~= Map::<Seq<char>, JsonView>::empty());
    }
    crate::json::lemma_entered_exact(members, 125);
    crate::json::lemma_exact_is_plain(initialize_document(), 126);
    assert forall|key: Seq<char>| (#[trigger] info.member(key)) is Some implies key == "name"@ || key
        == "version"@ by {
        if key != "name"@ && key != "version"@ {
            crate::json::lemma_entered_absent(infos, key);
        }
    }
    assert forall|key: Seq<char>|
        (#[trigger] initialize_document().member(key)) is Some implies key == "protocolVersion"@
        || key == "capabilities"@ || key == "clientInfo"@ by {
        if key != "protocolVersion"@ && key != "capabilities"@ && key != "clientInfo"@ {
            crate::json::lemma_entered_absent(members, key);
        }
    }
}

/// The handshake opens with a call of `initialize` under an `id` of its own that introduces the
/// client; no number is used up.
pub proof fn law_handshake_introduces_the_client<T>(
    client: &mut McpStdioClient<T>,
    waiter: T,
    r: Result<Outgoing, McpError>,
)
    requires
        call_ensures(McpStdioClient::<T>::initialize, (client, waiter), r),
    ensures
        final(client)@.pending.contains_key(0),
        final(client)@.pending[0] == waiter,
        others_wait_as_before(old(client)@, final(client)@, 0),
        final(client)@.next_id == old(client)@.next_id,
        r matches Ok(out) && out.id == 0 && (exists|params: JsonView|
            introduces_the_client(params) && params.exact_within(126) && params.plain_within(126)
                && #[trigger] crate::rpc::says_request(
                out.line@,
                0,
                "initialize"@,
                params,
            )),
{
    lemma_initialize_document();
    let line = r->Ok_0.line@;
    crate::rpc::lemma_spelled_request_says(line, 0, "initialize"@, initialize_document());
    assert(crate::rpc::says_request(line, 0, "initialize"@, initialize_document()));
}

/// The parameters that the initialize request is made with introduce the client.
pub proof fn law_initialize_params_introduce_the_client(params: Value)
    requires
        call_ensures(initialize_params, (), params),
    ensures
        introduces_the_client(crate::json::document(params)),
{
    lemma_initialize_document();
}

/// The parameters of a request that has none are an object without members.
pub proof fn law_empty_params_are_empty(params: Value)
    requires
        call_ensures(empty_params, (), params),
    ensures
        is_empty_object(crate::json::document(params)),
{
    lemma_no_params();
}

/// The handshake closes with the notification `notifications/initialized`.
pub proof fn law_handshake_is_announced<T>(
    client: &McpStdioClient<T>,
    r: Result<Vec<u8>, McpError>,
)
    requires
        call_ensures(McpStdioClient::<T>::initialized, (client,), r),
    ensures
        r matches Ok(line) && (exists|params: JsonView|
            is_empty_object(params) && params.exact_within(126) && params.plain_within(126)
                && #[trigger] crate::rpc::says_notification(
                line@,
                "notifications/initialized"@,
                params,
            )),
{
    lemma_no_params();
    let line = r->Ok_0@;
    crate::rpc::lemma_spelled_notification_says(line, "notifications/initialized"@, no_params());
    assert(crate::rpc::says_notification(line, "notifications/initialized"@, no_params()));
}

/// A session ends with a request `shutdown`, for which nobody waits, and the notification
/// `notifications/exit`, and the first to be sent is the request.
pub proof fn law_session_ends_with_shutdown_and_exit<T>(
    client: &mut McpStdioClient<T>,
    r: Result<Farewell, McpError>,
)
    requires
        call_ensures(McpStdioClient::<T>::shutdown, (client,), r),
    ensures
        final(client)@.pending == old(client)@.pending,
        counted_on(old(client)@, final(client)@),
        r matches Ok(farewell) && farewell.phase is Asking && (exists|params: JsonView|
            is_empty_object(params) && params.exact_within(126) && params.plain_within(126)
                && #[trigger] crate::rpc::says_request(
                farewell.request@,
                old(client)@.next_id,
                "shutdown"@,
                params,
            )) && (exists|params: JsonView|
            is_empty_object(params) && params.exact_within(126) && params.plain_within(126)
                && #[trigger] crate::rpc::says_notification(
                farewell.exit@,
                "notifications/exit"@,
                params,
            )),
{
    lemma_no_params();
    let farewell = r->Ok_0;
    let id = old(client)@.next_id;
    crate::rpc::lemma_spelled_request_says(farewell.request@, id, "shutdown"@, no_params());
    crate::rpc::lemma_spelled_notification_says(
        farewell.exit@,
        "notifications/exit"@,
        no_params(),
    );
    assert(crate::rpc::says_request(farewell.request@, id, "shutdown"@, no_params()));
    assert(crate::rpc::says_notification(farewell.exit@, "notifications/exit"@, no_params()));
}

/// A failed write ends the request with just this failure, and it waits no longer; after a
/// successful one it still waits. Either way nobody else is concerned.
pub proof fn law_write_decides_whether_to_wait<T>(
    client: &mut McpStdioClient<T>,
    id: u64,
    outcome: Result<(), McpError>,
    r: Result<(), McpError>,
)
    requires
        call_ensures(McpStdioClient::<T>::written, (client, id, outcome), r),
    ensures
        match outcome {
            Ok(_) => r is Ok && final(client)@.pending == old(client)@.pending,
            Err(error) => (r matches Err(reported) && reported == error)
                && !final(client)@.pending.contains_key(id),
        },
        others_wait_as_before(old(client)@, final(client)@, id),
        final(client)@.next_id == old(client)@.next_id,
{
}

/// A request ends with what its maker was told, and if they were dropped without being told
/// anything, with the failure that names the request.
pub proof fn law_request_ends_with_what_was_told<T>(
    id: u64,
    told: Option<Result<Value, McpError>>,
    r: Result<Value, McpError>,
)
    requires
        call_ensures(McpStdioClient::<T>::conclude, (id, told), r),
    ensures
        match told {
            Some(Ok(value)) => r matches Ok(given) && given == value,
            Some(Err(error)) => r matches Err(given) && given == error,
            None => r matches Err(Fault::Unanswered { id: unanswered }) && unanswered == id,
        },
{
    if let Err(error) = r {
        if told is None {
            assert(error@ == (Fault::<Seq<char>>::Unanswered { id }));
        }
    }
}

/// A session passes over lines of white space, routes all others, and tells everybody who waits
/// when there is nothing more to read; no number is used up.
pub proof fn law_session_routes_every_line<T>(
    client: &mut McpStdioClient<T>,
    event: ReaderEvent,
    step: ReaderStep<T>,
)
    requires
        call_ensures(McpStdioClient::<T>::read, (client, event), step),
    ensures
        crate::pending::read_well(
            old(client)@.pending,
            final(client)@.pending,
            event,
            step,
        ),
        final(client)@.next_id == old(client)@.next_id,
{
    crate::pending::lemma_read_well(
        old(client)@.pending,
        final(client)@.pending,
        event,
        step,
    );
}

/// A new session launches the command with the arguments and the environment that it was given;
/// nobody waits, and its first number is 1.
pub proof fn law_session_launches_what_it_was_given<T>(
    cmd: &str,
    args: &[&str],
    env: &[(&str, &str)],
    spawning: Spawning<T>,
)
    requires
        call_ensures(McpStdioClient::<T>::spawn, (cmd, args, env), spawning),
    ensures
        spawning.client@.next_id == 1,
        forall|id: u64| !(#[trigger] spawning.client@.pending.contains_key(id)),
        spawning.launch.program@ == cmd@,
        spawning.launch.args@.len() == args@.len(),
        forall|i: int|
            0 <= i < args@.len() ==> (#[trigger] spawning.launch.args@[i])@ == args@[i]@,
        spawning.launch.env@.len() == env@.len(),
        forall|i: int|
            0 <= i < env@.len() ==> (#[trigger] spawning.launch.env@[i]).0@ == env@[i].0@
                && spawning.launch.env@[i].1@ == env@[i].1@,
        spawning.phase matches SpawnPhase::Launching { cmd: launched } && launched@ == cmd@,
{
}


} // verus!
