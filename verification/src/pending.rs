//! Requests that wait for their response.

use serde_json::Value;
use std::collections::HashMap;
use vstd::prelude::*;
use vstd::string::*;

use crate::error::{Fault, McpError};
use crate::json::{parse_value, JsonView};
use crate::response::{read_answer, read_message, Message, MessageView, ResponseView};
use crate::text::{is_blank, joined};

verus! {

broadcast use vstd::std_specs::hash::group_hash_axioms;

/// The requests that wait for a response, each with whom to tell.
pub struct PendingMap<T> {
    waiters: HashMap<u64, T>,
}

impl<T> View for PendingMap<T> {
    type V = Map<u64, T>;

    closed spec fn view(&self) -> Map<u64, T> {
        self.waiters@
    }
}

/// An answer, and whom to tell it.
#[derive(Debug)]
pub struct Delivery<T> {
    pub id: u64,
    pub waiter: T,
    pub answer: Result<Value, McpError>,
}

/// What becomes of a line that the server sent.
#[derive(Debug)]
pub enum Dispatch<T> {
    /// The line is not JSON; the wording says why.
    InvalidJson(String),
    /// The message, here as JSON text, has no `id` of a request.
    NotAResponse(String),
    /// No request with this `id` waits.
    UnknownId(u64),
    /// The message answers a request.
    Deliver(Delivery<T>),
}

/// What a dispatch says.
#[verifier::ext_equal]
pub enum DispatchView<T> {
    InvalidJson(Seq<char>),
    NotAResponse(Seq<char>),
    UnknownId(u64),
    Deliver { id: u64, waiter: T, answer: Result<JsonView, Fault<Seq<char>>> },
}

impl<T> View for Dispatch<T> {
    type V = DispatchView<T>;

    open spec fn view(&self) -> DispatchView<T> {
        match self {
            Dispatch::InvalidJson(wording) => DispatchView::InvalidJson(wording@),
            Dispatch::NotAResponse(text) => DispatchView::NotAResponse(text@),
            Dispatch::UnknownId(id) => DispatchView::UnknownId(*id),
            Dispatch::Deliver(delivery) => DispatchView::Deliver {
                id: delivery.id,
                waiter: delivery.waiter,
                answer: crate::response::answer_view(delivery.answer),
            },
        }
    }
}

/// What becomes of a message, and what waits afterwards.
pub open spec fn dispatched<T>(pending: Map<u64, T>, message: MessageView) -> (
    Map<u64, T>,
    DispatchView<T>,
) {
    match message {
        MessageView::Other(text) => (pending, DispatchView::NotAResponse(text)),
        MessageView::Response(response) => if pending.contains_key(response.id) {
            (
                pending.remove(response.id),
                DispatchView::Deliver {
                    id: response.id,
                    waiter: pending[response.id],
                    answer: crate::response::answer(response),
                },
            )
        } else {
            (pending, DispatchView::UnknownId(response.id))
        },
    }
}

/// What becomes of a line, and what waits afterwards.
pub open spec fn line_dispatched<T>(pending: Map<u64, T>, line: Seq<char>) -> (
    Map<u64, T>,
    DispatchView<T>,
) {
    match crate::json::parsed_document(line) {
        Ok(document) => dispatched(pending, crate::response::message_in(document)),
        Err(wording) => (pending, DispatchView::InvalidJson(wording)),
    }
}

/// Everything that waits is told the same failure, each once.
pub open spec fn all_failed<T>(
    pending: Map<u64, T>,
    failures: Seq<Delivery<T>>,
    reason: Seq<char>,
) -> bool {
    &&& forall|i: int|
        0 <= i < failures.len() ==> pending.contains_key((#[trigger] failures[i]).id)
            && failures[i].waiter == pending[failures[i].id] && crate::response::answer_view(
            failures[i].answer,
        ) == Err::<JsonView, Fault<Seq<char>>>(Fault::Disconnected { reason })
    &&& forall|i: int, j: int|
        0 <= i < j < failures.len() ==> (#[trigger] failures[i]).id != (#[trigger] failures[j]).id
    &&& forall|id: u64| #[trigger]
        pending.contains_key(id) ==> exists|i: int|
            0 <= i < failures.len() && (#[trigger] failures[i]).id == id
}

/// What the reader of the server's output comes upon.
#[derive(Debug)]
pub enum ReaderEvent {
    /// A line, without its line feed.
    Line(String),
    /// The end of the output.
    Closed,
    /// The output cannot be read; the wording says why.
    Failed(String),
}

/// What the reader does about it.
#[derive(Debug)]
pub enum ReaderStep<T> {
    /// Goes on: the line is blank.
    Skip,
    /// Goes on, after the line has been dispatched.
    Dispatched(Dispatch<T>),
    /// Stops, after everything that waited has been told so.
    Stop(Vec<Delivery<T>>),
}

/// Why nothing more comes from the server.
pub open spec fn stop_reason(event: ReaderEvent) -> Seq<char> {
    match event {
        ReaderEvent::Failed(wording) => "failed to read MCP server stdout: "@ + wording@,
        _ => "MCP server stdout closed"@,
    }
}

impl<T> PendingMap<T> {
    /// Nothing waits.
    pub fn new() -> (pending: PendingMap<T>)
        ensures
            pending@ == Map::<u64, T>::empty(),
    {
        PendingMap { waiters: HashMap::new() }
    }

    /// Lets request `id` wait. Who waited under this `id` before is handed back.
    pub fn insert(&mut self, id: u64, waiter: T) -> (displaced: Option<T>)
        ensures
            final(self)@ == old(self)@.insert(id, waiter),
            displaced == if old(self)@.contains_key(id) {
                Some(old(self)@[id])
            } else {
                None
            },
    {
        self.waiters.insert(id, waiter)
    }

    /// Lets request `id` wait no longer. Who waited is handed back.
    pub fn remove(&mut self, id: u64) -> (waiter: Option<T>)
        ensures
            final(self)@ == old(self)@.remove(id),
            waiter == if old(self)@.contains_key(id) {
                Some(old(self)@[id])
            } else {
                None
            },
    {
        let waiter = self.waiters.remove(&id);
        assert(final(self)@ =~= old(self)@.remove(id));
        waiter
    }

    /// Finds the request that a message answers.
    pub fn dispatch_message(&mut self, message: Message) -> (dispatch: Dispatch<T>)
        ensures
            (final(self)@, dispatch@) == dispatched(old(self)@, message@),
            dispatch matches Dispatch::Deliver(delivery) ==> (delivery.answer matches Ok(value)
                ==> message->Response_0.result == Some(value)),
    {
        match message {
            Message::Other(text) => Dispatch::NotAResponse(text),
            Message::Response(response) => {
                let id: u64 = response.id;
                match self.remove(id) {
                    Some(waiter) => Dispatch::Deliver(
                        Delivery { id, waiter, answer: read_answer(response) },
                    ),
                    None => {
                        assert(self@ =~= old(self)@);
                        Dispatch::UnknownId(id)
                    },
                }
            },
        }
    }

    /// Finds the request that a line of the server's output answers.
    pub fn dispatch_line(&mut self, line: &str) -> (dispatch: Dispatch<T>)
        ensures
            (final(self)@, dispatch@) == line_dispatched(old(self)@, line@),
    {
        match parse_value(line) {
            Ok(value) => self.dispatch_message(read_message(&value)),
            Err(wording) => Dispatch::InvalidJson(wording),
        }
    }

    /// The requests that wait, in no particular order.
    fn ids(&self) -> (ids: Vec<u64>)
        ensures
            ids@.no_duplicates(),
            forall|id: u64| self@.contains_key(id) <==> #[trigger] ids@.contains(id),
    {
        let mut ids: Vec<u64> = Vec::new();
        let ghost keys = vstd::std_specs::iter::IteratorSpec::remaining(
            &vstd::std_specs::hash::spec_keys_iter(&self.waiters),
        );
        for id in it: self.waiters.keys()
            invariant
                it.seq() == keys,
                ids@ == keys.take(it.index() as int).unref(),
        {
            ids.push(*id);
            assert(keys.take(it.index() + 1).unref() =~= keys.take(
                it.index() as int,
            ).unref().push(*id));
        }
        proof {
            assert(keys.take(keys.len() as int) =~= keys);
            assert(keys.unref().to_set() == self@.dom());
            assert forall|id: u64| self@.contains_key(id) <==> #[trigger] ids@.contains(id) by {
                assert(keys.unref().to_set().contains(id) <==> keys.unref().contains(id));
            }
            assert forall|i: int, j: int| 0 <= i < ids@.len() && 0 <= j < ids@.len() && i
                != j implies ids@[i] != ids@[j] by {
                assert(keys[i] != keys[j]);
            }
        }
        ids
    }

    /// Lets nothing wait any longer: everything that does is told the failure.
    pub fn fail_pending(&mut self, message: &str) -> (failures: Vec<Delivery<T>>)
        ensures
            final(self)@ == Map::<u64, T>::empty(),
            all_failed(old(self)@, failures@, message@),
    {
        let ghost waiting = self@;
        let ids: Vec<u64> = self.ids();
        let mut failures: Vec<Delivery<T>> = Vec::new();
        let mut n: usize = 0;
        while n < ids.len()
            invariant
                n <= ids@.len(),
                ids@.no_duplicates(),
                forall|id: u64| waiting.contains_key(id) <==> #[trigger] ids@.contains(id),
                forall|id: u64| #[trigger]
                    self@.contains_key(id) <==> waiting.contains_key(id) && !ids@.take(
                        n as int,
                    ).contains(id),
                forall|id: u64| #[trigger] self@.contains_key(id) ==> self@[id] == waiting[id],
                failures@.len() == n,
                forall|i: int|
                    0 <= i < n ==> (#[trigger] failures@[i]).id == ids@[i] && failures@[i].waiter
                        == waiting[ids@[i]] && crate::response::answer_view(failures@[i].answer)
                        == Err::<JsonView, Fault<Seq<char>>>(
                        Fault::Disconnected { reason: message@ },
                    ),
            decreases ids.len() - n,
        {
            let id: u64 = ids[n];
            proof {
                let done = ids@.take(n as int);
                assert(ids@.contains(id));
                assert(!done.contains(id)) by {
                    if done.contains(id) {
                        let k = choose|k: int| 0 <= k < done.len() && done[k] == id;
                        assert(ids@[k] == ids@[n as int]);
                    }
                }
            }
            let ghost before = self@;
            if let Some(waiter) = self.remove(id) {
                let answer: Result<Value, McpError> = Err(
                    Fault::Disconnected { reason: message.to_owned() },
                );
                failures.push(Delivery { id, waiter, answer });
            }
            n = n + 1;
            proof {
                let done = ids@.take(n - 1);
                assert(ids@.take(n as int) =~= done.push(id));
                assert forall|other: u64| #[trigger]
                    self@.contains_key(other) <==> waiting.contains_key(other) && !ids@.take(
                        n as int,
                    ).contains(other) by {
                    lemma_contains_push(done, id, other);
                    assert(before.contains_key(other) <==> waiting.contains_key(other)
                        && !done.contains(other));
                }
            }
        }
        proof {
            assert(ids@.take(ids@.len() as int) =~= ids@);
            assert(self@ =~= Map::<u64, T>::empty()) by {
                assert forall|id: u64| !(#[trigger] self@.contains_key(id)) by {
                    if self@.contains_key(id) {
                        assert(ids@.contains(id));
                    }
                }
            }
            assert forall|i: int| 0 <= i < failures@.len() implies waiting.contains_key(
                (#[trigger] failures@[i]).id,
            ) by {
                assert(ids@.contains(ids@[i]));
            }
            assert forall|id: u64| #[trigger] waiting.contains_key(id) implies exists|i: int|
                0 <= i < failures@.len() && (#[trigger] failures@[i]).id == id by {
                assert(ids@.contains(id));
                let k = choose|k: int| 0 <= k < ids@.len() && ids@[k] == id;
                assert(failures@[k].id == id);
            }
        }
        failures
    }

    /// What the reader does about what it came upon.
    pub fn read(&mut self, event: ReaderEvent) -> (step: ReaderStep<T>)
        ensures
            match event {
                ReaderEvent::Line(line) => if crate::text::blank(line@) {
                    step is Skip && final(self)@ == old(self)@
                } else {
                    step matches ReaderStep::Dispatched(dispatch) && (final(self)@, dispatch@)
                        == line_dispatched(old(self)@, line@)
                },
                _ => step matches ReaderStep::Stop(failures) && final(self)@ == Map::<
                    u64,
                    T,
                >::empty() && all_failed(old(self)@, failures@, stop_reason(event)),
            },
    {
        match event {
            ReaderEvent::Line(line) => if is_blank(line.as_str()) {
                ReaderStep::Skip
            } else {
                ReaderStep::Dispatched(self.dispatch_line(line.as_str()))
            },
            ReaderEvent::Closed => ReaderStep::Stop(self.fail_pending("MCP server stdout closed")),
            ReaderEvent::Failed(wording) => ReaderStep::Stop(
                self.fail_pending(
                    joined("failed to read MCP server stdout: ", wording.as_str()).as_str(),
                ),
            ),
        }
    }
}

/// A sequence to which an item is added holds this item and those that it held.
proof fn lemma_contains_push(ids: Seq<u64>, id: u64, other: u64)
    ensures
        ids.push(id).contains(other) <==> ids.contains(other) || other == id,
{
    if ids.contains(other) {
        let k = choose|k: int| 0 <= k < ids.len() && ids[k] == other;
        assert(ids.push(id)[k] == other);
    }
    if other == id {
        assert(ids.push(id)[ids.len() as int] == id);
    }
}

/// A response reaches the request that it answers, and no other: who waits under its `id` is told
/// the result, and all the others go on waiting.
pub proof fn law_response_reaches_its_request<T>(
    pending: Map<u64, T>,
    line: Seq<char>,
    document: JsonView,
    id: u64,
    result: JsonView,
)
    requires
        pending.contains_key(id),
        crate::json::denotes(line, document),
        document.member("id"@) matches Some(JsonView::Number { unsigned: Some(n), .. }) && n == id,
        document.member("error"@) is None,
        document.member("result"@) == Some(result),
    ensures
        line_dispatched(pending, line) == (
            pending.remove(id),
            (DispatchView::Deliver { id, waiter: pending[id], answer: Ok(result) }),
        ),
{
}

/// A refused request is told why: where the response holds an error, whoever waits is told this
/// error, also if a result stands beside it.
pub proof fn law_refused_request_is_told_why<T>(
    pending: Map<u64, T>,
    line: Seq<char>,
    document: JsonView,
    id: u64,
    error: JsonView,
)
    requires
        pending.contains_key(id),
        crate::json::denotes(line, document),
        document.member("id"@) matches Some(JsonView::Number { unsigned: Some(n), .. }) && n == id,
        document.member("error"@) == Some(error),
    ensures
        line_dispatched(pending, line) == (
            pending.remove(id),
            (DispatchView::Deliver {
                id,
                waiter: pending[id],
                answer: Err(Fault::Refused { id, error: crate::json::compact_text(error) }),
            }),
        ),
{
}

/// A response with neither a result nor an error is a failure, and ends the wait too.
pub proof fn law_hollow_response_is_a_failure<T>(
    pending: Map<u64, T>,
    line: Seq<char>,
    document: JsonView,
    id: u64,
)
    requires
        pending.contains_key(id),
        crate::json::denotes(line, document),
        document.member("id"@) matches Some(JsonView::Number { unsigned: Some(n), .. }) && n == id,
        document.member("error"@) is None,
        document.member("result"@) is None,
    ensures
        line_dispatched(pending, line) == (
            pending.remove(id),
            (DispatchView::Deliver {
                id,
                waiter: pending[id],
                answer: Err(Fault::Hollow { id }),
            }),
        ),
{
}

/// No request is answered twice: after a response with its `id`, the next one with the same `id`
/// finds nobody waiting and changes nothing.
pub proof fn law_no_request_is_answered_twice<T>(
    pending: Map<u64, T>,
    first: ResponseView,
    second: ResponseView,
)
    requires
        first.id == second.id,
    ensures
        dispatched(
            dispatched(pending, MessageView::Response(first)).0,
            MessageView::Response(second),
        ) == (
            dispatched(pending, MessageView::Response(first)).0,
            DispatchView::<T>::UnknownId(second.id),
        ),
{
}

/// Responses may come in any order: two with different `id`s reach the same requests with the
/// same answers whichever is first.
pub proof fn law_order_of_responses_does_not_matter<T>(
    pending: Map<u64, T>,
    first: ResponseView,
    second: ResponseView,
)
    requires
        first.id != second.id,
    ensures
        ({
            let after_first = dispatched(pending, MessageView::Response(first));
            let after_second = dispatched(pending, MessageView::Response(second));
            &&& dispatched(after_first.0, MessageView::Response(second)).1 == after_second.1
            &&& dispatched(after_second.0, MessageView::Response(first)).1 == after_first.1
            &&& dispatched(after_first.0, MessageView::Response(second)).0 == dispatched(
                after_second.0,
                MessageView::Response(first),
            ).0
        }),
{
    let after_first = dispatched(pending, MessageView::Response(first));
    let after_second = dispatched(pending, MessageView::Response(second));
    assert(dispatched(after_first.0, MessageView::Response(second)).0 =~= dispatched(
        after_second.0,
        MessageView::Response(first),
    ).0);
}

/// What is no response changes nothing: notifications and requests of the server, and lines that
/// are not JSON.
pub proof fn law_only_responses_count<T>(pending: Map<u64, T>, line: Seq<char>)
    requires
        crate::json::parsed_document(line) matches Ok(document) ==> !(document.member(
            "id"@,
        ) matches Some(JsonView::Number { unsigned: Some(_), .. })),
    ensures
        line_dispatched(pending, line).0 == pending,
        line_dispatched(pending, line).1 == match crate::json::parsed_document(line) {
            Ok(document) => DispatchView::<T>::NotAResponse(crate::json::compact_text(document)),
            Err(wording) => DispatchView::<T>::InvalidJson(wording),
        },
{
}

/// What waits after the lines.
pub open spec fn waiting_after<T>(pending: Map<u64, T>, lines: Seq<Seq<char>>) -> Map<u64, T>
    decreases lines.len(),
{
    if lines.len() == 0 {
        pending
    } else {
        line_dispatched(waiting_after(pending, lines.drop_last()), lines.last()).0
    }
}

/// The line is a response to request `id`.
pub open spec fn line_responds(line: Seq<char>, id: u64) -> bool {
    match crate::json::parsed_document(line) {
        Ok(document) => match document.member("id"@) {
            Some(JsonView::Number { unsigned, .. }) => unsigned == Some(id),
            _ => false,
        },
        Err(_) => false,
    }
}

/// A request goes on waiting until it is answered: through any number of lines none of which is a
/// response to it, the same one waits under its `id`.
pub proof fn law_request_waits_until_answered<T>(
    pending: Map<u64, T>,
    lines: Seq<Seq<char>>,
    id: u64,
)
    requires
        pending.contains_key(id),
        forall|i: int| 0 <= i < lines.len() ==> !line_responds(#[trigger] lines[i], id),
    ensures
        waiting_after(pending, lines).contains_key(id),
        waiting_after(pending, lines)[id] == pending[id],
    decreases lines.len(),
{
    if lines.len() > 0 {
        let front = lines.drop_last();
        assert forall|i: int| 0 <= i < front.len() implies !line_responds(
            #[trigger] front[i],
            id,
        ) by {
            assert(front[i] == lines[i]);
        }
        law_request_waits_until_answered(pending, front, id);
        assert(!line_responds(lines[lines.len() - 1], id));
    }
}

/// The answer is what the document says to request `id`: its error if it has one, or else its
/// result, or else that it has neither.
pub open spec fn answers(
    answer: Result<Value, McpError>,
    document: JsonView,
    id: u64,
) -> bool {
    match document.member("error"@) {
        Some(error) => answer matches Err(Fault::Refused { id: refused, error: text }) && refused
            == id && text@ == crate::json::compact_text(error),
        None => match document.member("result"@) {
            Some(result) => answer matches Ok(value) && crate::json::document(value) == result,
            None => answer matches Err(Fault::Hollow { id: hollow }) && hollow == id,
        },
    }
}

/// The line is routed by its `id` alone: if that is a number under which somebody waits, it is
/// they who are told what the line says, and they wait no longer; nobody else is told anything,
/// and everybody else goes on waiting.
pub open spec fn routed<T>(
    before: Map<u64, T>,
    after: Map<u64, T>,
    line: Seq<char>,
    dispatch: Dispatch<T>,
) -> bool {
    match crate::json::parsed_document(line) {
        Err(wording) => after == before && (dispatch matches Dispatch::InvalidJson(text) && text@
            == wording),
        Ok(document) => match document.member("id"@) {
            Some(JsonView::Number { unsigned: Some(id), .. }) => if before.contains_key(id) {
                &&& after == before.remove(id)
                &&& dispatch matches Dispatch::Deliver(delivery)
                &&& delivery.id == id
                &&& delivery.waiter == before[id]
                &&& answers(delivery.answer, document, id)
            } else {
                after == before && dispatch == Dispatch::<T>::UnknownId(id)
            },
            _ => after == before && (dispatch matches Dispatch::NotAResponse(text) && text@
                == crate::json::compact_text(document)),
        },
    }
}

/// A dispatch that says what becomes of a line routes it.
proof fn lemma_dispatched_is_routed<T>(
    before: Map<u64, T>,
    after: Map<u64, T>,
    line: Seq<char>,
    dispatch: Dispatch<T>,
)
    requires
        (after, dispatch@) == line_dispatched(before, line),
    ensures
        routed(before, after, line, dispatch),
{
    if let Dispatch::Deliver(delivery) = dispatch {
        if let Err(error) = delivery.answer {
            assert(crate::response::answer_view(delivery.answer) == Err::<
                JsonView,
                Fault<Seq<char>>,
            >(error@));
        }
    }
}

/// Each line is told to whom it answers. Where somebody waits under the number that a line has
/// under `id`, they are told the line's error if it has one, or else its result.
pub proof fn law_line_is_told_to_whom_it_answers<T>(
    pending: &mut PendingMap<T>,
    line: &str,
    dispatch: Dispatch<T>,
)
    requires
        call_ensures(PendingMap::<T>::dispatch_line, (pending, line), dispatch),
    ensures
        routed(old(pending)@, final(pending)@, line@, dispatch),
{
    lemma_dispatched_is_routed(old(pending)@, final(pending)@, line@, dispatch);
}

/// A response is told to whom it answers, and to nobody else; what is no response changes nothing.
pub proof fn law_response_is_told_to_whom_it_answers<T>(
    pending: &mut PendingMap<T>,
    message: Message,
    dispatch: Dispatch<T>,
)
    requires
        call_ensures(PendingMap::<T>::dispatch_message, (pending, message), dispatch),
    ensures
        match message {
            Message::Other(text) => final(pending)@ == old(pending)@ && (
            dispatch matches Dispatch::NotAResponse(shown) && shown@ == text@),
            Message::Response(response) => if old(pending)@.contains_key(response.id) {
                &&& final(pending)@ == old(pending)@.remove(response.id)
                &&& dispatch matches Dispatch::Deliver(delivery)
                &&& delivery.id == response.id
                &&& delivery.waiter == old(pending)@[response.id]
                &&& match (response.error, response.result) {
                    (Some(text), _) => delivery.answer matches Err(Fault::Refused { id, error })
                        && id == response.id && error@ == text@,
                    (None, Some(result)) => delivery.answer matches Ok(value) && value == result,
                    (None, None) => delivery.answer matches Err(Fault::Hollow { id }) && id
                        == response.id,
                }
            } else {
                final(pending)@ == old(pending)@ && dispatch == Dispatch::<T>::UnknownId(
                    response.id,
                )
            },
        },
{
    if let Dispatch::Deliver(delivery) = dispatch {
        if let Err(error) = delivery.answer {
            assert(crate::response::answer_view(delivery.answer) == Err::<
                JsonView,
                Fault<Seq<char>>,
            >(error@));
        }
    }
}

/// Everybody who waits is told the reason, each once, and nobody else is told anything.
pub open spec fn told_once<T>(
    waiting: Map<u64, T>,
    failures: Seq<Delivery<T>>,
    reason: Seq<char>,
) -> bool {
    &&& forall|i: int|
        0 <= i < failures.len() ==> waiting.contains_key((#[trigger] failures[i]).id)
            && failures[i].waiter == waiting[failures[i].id] && (
        failures[i].answer matches Err(Fault::Disconnected { reason: text }) && text@ == reason)
    &&& forall|id: u64| #[trigger]
        waiting.contains_key(id) ==> exists|i: int|
            0 <= i < failures.len() && (#[trigger] failures[i]).id == id
    &&& forall|i: int, j: int|
        0 <= i < failures.len() && 0 <= j < failures.len() && i != j ==> (
        #[trigger] failures[i]).id != (#[trigger] failures[j]).id
}

/// What tells all who wait of a failure tells each of them once.
proof fn lemma_all_failed_is_told_once<T>(
    waiting: Map<u64, T>,
    failures: Seq<Delivery<T>>,
    reason: Seq<char>,
)
    requires
        all_failed(waiting, failures, reason),
    ensures
        told_once(waiting, failures, reason),
{
    assert forall|i: int| 0 <= i < failures.len() implies waiting.contains_key(
        (#[trigger] failures[i]).id,
    ) && failures[i].waiter == waiting[failures[i].id] && (
    failures[i].answer matches Err(Fault::Disconnected { reason: text }) && text@ == reason) by {
        if let Err(error) = failures[i].answer {
            assert(error@ == (Fault::<Seq<char>>::Disconnected { reason }));
        }
    }
}

/// When all requests fail, everybody who waits is told so once, and nobody waits any longer.
pub proof fn law_everybody_is_told_of_the_failure<T>(
    pending: &mut PendingMap<T>,
    message: &str,
    failures: Vec<Delivery<T>>,
)
    requires
        call_ensures(PendingMap::<T>::fail_pending, (pending, message), failures),
    ensures
        told_once(old(pending)@, failures@, message@),
        forall|id: u64| !(#[trigger] final(pending)@.contains_key(id)),
{
    lemma_all_failed_is_told_once(old(pending)@, failures@, message@);
}

/// What the reader does about an event: a line of white space is passed over, any other is
/// routed, and the end of the output, or that it cannot be read, is told to everybody who waits.
pub open spec fn read_well<T>(
    before: Map<u64, T>,
    after: Map<u64, T>,
    event: ReaderEvent,
    step: ReaderStep<T>,
) -> bool {
    match event {
        ReaderEvent::Line(line) => if forall|i: int|
            0 <= i < line@.len() ==> crate::text::white_space(#[trigger] line@[i]) {
            step is Skip && after == before
        } else {
            step matches ReaderStep::Dispatched(dispatch) && routed(before, after, line@, dispatch)
        },
        ReaderEvent::Closed => step matches ReaderStep::Stop(failures) && told_once(
            before,
            failures@,
            "MCP server stdout closed"@,
        ) && after == Map::<u64, T>::empty(),
        ReaderEvent::Failed(wording) => step matches ReaderStep::Stop(failures) && told_once(
            before,
            failures@,
            "failed to read MCP server stdout: "@ + wording@,
        ) && after == Map::<u64, T>::empty(),
    }
}

/// What the reader does about what it came upon, it does well.
pub proof fn lemma_read_well<T>(
    before: Map<u64, T>,
    after: Map<u64, T>,
    event: ReaderEvent,
    step: ReaderStep<T>,
)
    requires
        match event {
            ReaderEvent::Line(line) => if crate::text::blank(line@) {
                step is Skip && after == before
            } else {
                step matches ReaderStep::Dispatched(dispatch) && (after, dispatch@)
                    == line_dispatched(before, line@)
            },
            _ => step matches ReaderStep::Stop(failures) && after == Map::<u64, T>::empty()
                && all_failed(before, failures@, stop_reason(event)),
        },
    ensures
        read_well(before, after, event, step),
{
    match event {
        ReaderEvent::Line(line) => {
            if let ReaderStep::Dispatched(dispatch) = step {
                lemma_dispatched_is_routed(before, after, line@, dispatch);
            }
        },
        _ => {
            if let ReaderStep::Stop(failures) = step {
                lemma_all_failed_is_told_once(before, failures@, stop_reason(event));
            }
        },
    }
}

/// The reader passes over lines of white space, routes all others, and tells everybody who waits
/// when there is nothing more to read.
pub proof fn law_reader_routes_every_line<T>(
    pending: &mut PendingMap<T>,
    event: ReaderEvent,
    step: ReaderStep<T>,
)
    requires
        call_ensures(PendingMap::<T>::read, (pending, event), step),
    ensures
        read_well(old(pending)@, final(pending)@, event, step),
{
    lemma_read_well(old(pending)@, final(pending)@, event, step);
}

/// Whoever is let wait can be had back: under the same `id` the one who was entered is found, and
/// the others wait as before.
pub proof fn law_waiter_is_had_back<T>(
    entering: &mut PendingMap<T>,
    id: u64,
    waiter: T,
    displaced: Option<T>,
    leaving: &mut PendingMap<T>,
    found: Option<T>,
)
    requires
        call_ensures(PendingMap::<T>::insert, (entering, id, waiter), displaced),
        call_ensures(PendingMap::<T>::remove, (leaving, id), found),
        old(leaving)@ == final(entering)@,
    ensures
        found == Some(waiter),
        displaced is Some <==> old(entering)@.contains_key(id),
        displaced matches Some(other) ==> other == old(entering)@[id],
        !final(leaving)@.contains_key(id),
        forall|other: u64|
            #![trigger final(leaving)@.contains_key(other)]
            other != id ==> {
                let after = final(leaving)@;
                let before = old(entering)@;
                &&& after.contains_key(other) <==> before.contains_key(other)
                &&& before.contains_key(other) ==> after[other] == before[other]
            },
{
}

/// At first nobody waits.
pub proof fn law_at_first_nobody_waits<T>(pending: PendingMap<T>, id: u64)
    requires
        call_ensures(PendingMap::<T>::new, (), pending),
    ensures
        !pending@.contains_key(id),
{
}

} // verus!
