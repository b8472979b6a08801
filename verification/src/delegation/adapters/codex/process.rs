//! One side of the conversation with a codex app server: which lines to write,
//! and what to do with each message that comes in.

use crate::error::{just, Error, Reason};
use crate::json::{
    as_text, as_unsigned, empty_object, find_member, json_of, json_seq, json_text,
    json_to_text, member, parse_json, parsed_json, reads_as, set_member, text_value,
    unsigned_value, Json, NESTING_LIMIT,
};
use serde_json::Value;
use std::collections::VecDeque;
use vstd::prelude::*;

verus! {

/// The state of one conversation.
#[derive(Debug)]
pub struct CodexProcess {
    /// The number that the next request gets.
    pub next_request_id: u64,
    /// The messages that came in and that nobody has asked for yet, oldest first.
    pub pending_notifications: VecDeque<Value>,
    /// Whether the server's input is still open.
    pub stdin_open: bool,
    /// How long the server took until it was ready.
    pub startup_milliseconds: u64,
}

/// A request to send: its number and the line to write.
#[derive(Debug)]
pub struct Outgoing {
    pub request_id: u64,
    pub line: String,
}

/// A request as the server reads it.
pub open spec fn request_message(id: u64, method: Seq<char>, params: Json) -> Json {
    Json::Object(
        map![
            "jsonrpc"@ => Json::Text("2.0"@),
            "id"@ => Json::Unsigned(id),
            "method"@ => Json::Text(method),
            "params"@ => params,
        ],
    )
}

/// A notification as the server reads it.
pub open spec fn notification_message(method: Seq<char>, params: Json) -> Json {
    Json::Object(
        map![
            "jsonrpc"@ => Json::Text("2.0"@),
            "method"@ => Json::Text(method),
            "params"@ => params,
        ],
    )
}

/// Whether a message is the answer to the request of that number.
pub open spec fn answers(message: Json, id: u64) -> bool {
    message.member("id"@).as_unsigned() == Some(id)
}

/// Whether a message announces what that method stands for.
pub open spec fn announces(message: Json, method: Seq<char>) -> bool {
    message.member("method"@).as_text() == Some(method)
}

/// The first message that announces the method stands at `k`.
pub open spec fn first_announcing(messages: Seq<Json>, method: Seq<char>, k: int) -> bool {
    &&& 0 <= k < messages.len()
    &&& announces(messages[k], method)
    &&& forall|j: int| 0 <= j < k ==> !announces(#[trigger] messages[j], method)
}

/// What is said when the server turns a request down.
pub open spec fn rejection(method: Seq<char>, error: Json) -> Seq<char> {
    "codex app server rejected "@ + method + ": "@ + json_text(error)
}

/// What the answer to a request amounts to: an answer with an `error` member is a
/// refusal, whatever that member holds, and any other answer is its result.
pub open spec fn verdict(method: Seq<char>, answer: Json) -> Result<Json, Seq<Reason>> {
    if answer.has_member("error"@) {
        Err(just(rejection(method, answer.member("error"@))))
    } else {
        Ok(answer.member("result"@))
    }
}

/// An outcome, with its value seen as a tree and its error as a chain.
pub open spec fn seen(outcome: Result<Value, Error>) -> Result<Json, Seq<Reason>> {
    match outcome {
        Ok(value) => Ok(json_of(value)),
        Err(error) => Err(error@),
    }
}

/// What was found, if anything, seen as a tree.
pub open spec fn seen_message(found: Option<Value>) -> Option<Json> {
    match found {
        Some(value) => Some(json_of(value)),
        None => None,
    }
}

/// The outcome, if there is one, with its value seen as a tree and its error as a
/// chain.
pub open spec fn seen_answer(answer: Option<Result<Value, Error>>) -> Option<
    Result<Json, Seq<Reason>>,
> {
    match answer {
        Some(outcome) => Some(seen(outcome)),
        None => None,
    }
}

/// What is said of a request or notification once the input was closed.
pub open spec fn closed_text() -> Seq<char> {
    "codex app server stdin is already closed"@
}

/// Two texts, character by character.
pub(crate) fn same_text(one: &str, other: &str) -> (same: bool)
    ensures
        same == (one@ == other@),
{
    one.to_owned() == other.to_owned()
}

/// Reads one line that the server wrote. An empty text stands for the end of the
/// stream.
pub fn read_message(line: &str) -> (message: Result<Value, Error>)
    ensures
        match message {
            Ok(value) => line@.len() > 0 && reads_as(line@, json_of(value)),
            Err(error) => if line@.len() == 0 {
                error@ == just("end of stream"@)
            } else {
                parsed_json(line@) is Err && error@ == just(parsed_json(line@)->Err_0)
            },
        },
        line@.len() == 0 ==> message is Err,
{
    if line.is_empty() {
        return Err(Error::message("end of stream".to_owned()));
    }
    match parse_json(line) {
        Ok(value) => Ok(value),
        Err(text) => Err(Error::message(text)),
    }
}

impl CodexProcess {
    /// The messages that wait to be asked for.
    pub open spec fn pending(self) -> Seq<Json> {
        json_seq(self.pending_notifications@)
    }

    /// A conversation that has not begun.
    pub fn new() -> (process: CodexProcess)
        ensures
            process.next_request_id == 0,
            process.pending_notifications@ == Seq::<Value>::empty(),
            process.stdin_open,
            process.startup_milliseconds == 0,
    {
        CodexProcess {
            next_request_id: 0,
            pending_notifications: VecDeque::new(),
            stdin_open: true,
            startup_milliseconds: 0,
        }
    }

    /// Numbers a request and gives the line to write for it.
    pub fn request(&mut self, method: &str, params: Value) -> (outgoing: Result<Outgoing, Error>)
        requires
            old(self).next_request_id < u64::MAX,
        ensures
            final(self).next_request_id == old(self).next_request_id + 1,
            final(self).pending_notifications == old(self).pending_notifications,
            final(self).stdin_open == old(self).stdin_open,
            final(self).startup_milliseconds == old(self).startup_milliseconds,
            match outgoing {
                Ok(outgoing) => {
                    let message = request_message(
                        old(self).next_request_id,
                        method@,
                        json_of(params),
                    );
                    &&& old(self).stdin_open
                    &&& outgoing.request_id == old(self).next_request_id
                    &&& outgoing.line@ == json_text(message)
                    &&& !outgoing.line@.contains('\n')
                    &&& message.readable(NESTING_LIMIT as nat) ==> reads_as(
                        outgoing.line@,
                        message,
                    )
                },
                Err(error) => !old(self).stdin_open && error@ == just(closed_text()),
            },
    {
        let request_id: u64 = self.next_request_id;
        self.next_request_id = request_id + 1;
        let mut message: Value = empty_object();
        set_member(&mut message, "jsonrpc", text_value("2.0"));
        set_member(&mut message, "id", unsigned_value(request_id));
        set_member(&mut message, "method", text_value(method));
        set_member(&mut message, "params", params);
        if !self.stdin_open {
            return Err(
                Error::message("codex app server stdin is already closed".to_owned()),
            );
        }
        Ok(Outgoing { request_id, line: json_to_text(&message) })
    }

    /// Takes in one message while the answer to a request is awaited. Anything
    /// but that answer is kept for later.
    pub fn answer(&mut self, request_id: u64, method: &str, incoming: Value) -> (answer: Option<
        Result<Value, Error>,
    >)
        ensures
            final(self).next_request_id == old(self).next_request_id,
            final(self).stdin_open == old(self).stdin_open,
            final(self).startup_milliseconds == old(self).startup_milliseconds,
            match answer {
                Some(outcome) => {
                    &&& answers(json_of(incoming), request_id)
                    &&& seen(outcome) == verdict(method@, json_of(incoming))
                    &&& final(self).pending_notifications == old(self).pending_notifications
                },
                None => {
                    &&& !answers(json_of(incoming), request_id)
                    &&& final(self).pending_notifications@ == old(
                        self,
                    ).pending_notifications@.push(incoming)
                },
            },
            (final(self).pending(), seen_answer(answer)) == await_answer(
                old(self).pending(),
                seq![json_of(incoming)],
                request_id,
                method@,
            ),
    {
        let awaited: bool = match as_unsigned(member(&incoming, "id")) {
            Some(number) => number == request_id,
            None => false,
        };
        if !awaited {
            self.pending_notifications.push_back(incoming);
            proof {
                reveal_with_fuel(await_answer, 2);
                assert(self.pending() =~= old(self).pending().push(json_of(incoming)));
            }
            return None;
        }
        if let Some(error) = find_member(&incoming, "error") {
            let mut text: String = "codex app server rejected ".to_owned();
            text.append(method);
            text.append(": ");
            text.append(json_to_text(error).as_str());
            return Some(Err(Error::message(text)));
        }
        Some(Ok(member(&incoming, "result").clone()))
    }

    /// Gives the line to write for a notification.
    pub fn notify(&self, method: &str, params: Value) -> (line: Result<String, Error>)
        ensures
            match line {
                Ok(line) => {
                    let message = notification_message(method@, json_of(params));
                    &&& self.stdin_open
                    &&& line@ == json_text(message)
                    &&& !line@.contains('\n')
                    &&& message.readable(NESTING_LIMIT as nat) ==> reads_as(line@, message)
                },
                Err(error) => !self.stdin_open && error@ == just(closed_text()),
            },
    {
        let mut message: Value = empty_object();
        set_member(&mut message, "jsonrpc", text_value("2.0"));
        set_member(&mut message, "method", text_value(method));
        set_member(&mut message, "params", params);
        if !self.stdin_open {
            return Err(
                Error::message("codex app server stdin is already closed".to_owned()),
            );
        }
        Ok(json_to_text(&message))
    }

    /// Takes the oldest message that announces the method out of those that wait.
    pub fn wait_for_notification(&mut self, method: &str) -> (notification: Option<Value>)
        ensures
            final(self).next_request_id == old(self).next_request_id,
            final(self).stdin_open == old(self).stdin_open,
            final(self).startup_milliseconds == old(self).startup_milliseconds,
            match notification {
                Some(notification) => exists|k: int|
                    {
                        &&& #[trigger] first_announcing(old(self).pending(), method@, k)
                        &&& notification == old(self).pending_notifications@[k]
                        &&& final(self).pending_notifications@ == old(
                            self,
                        ).pending_notifications@.remove(k)
                    },
                None => {
                    &&& forall|j: int|
                        0 <= j < old(self).pending().len() ==> !announces(
                            #[trigger] old(self).pending()[j],
                            method@,
                        )
                    &&& final(self).pending_notifications@ == old(self).pending_notifications@
                },
            },
            (final(self).pending(), seen_message(notification)) == await_notification(
                old(self).pending(),
                Seq::empty(),
                method@,
            ),
    {
        let mut index: usize = 0;
        while index < self.pending_notifications.len()
            invariant
                *self == *old(self),
                index <= self.pending_notifications@.len(),
                forall|j: int|
                    0 <= j < index ==> !announces(#[trigger] self.pending()[j], method@),
            decreases self.pending_notifications@.len() - index,
        {
            let sought: bool = match as_text(member(&self.pending_notifications[index], "method")) {
                Some(found) => same_text(found, method),
                None => false,
            };
            if sought {
                assert(first_announcing(self.pending(), method@, index as int));
                return self.pending_notifications.remove(index);
            }
            index = index + 1;
        }
        None
    }

    /// Takes in one message while a notification is awaited. Anything but that
    /// notification is kept for later.
    pub fn notification(&mut self, method: &str, incoming: Value) -> (notification: Option<Value>)
        ensures
            final(self).next_request_id == old(self).next_request_id,
            final(self).stdin_open == old(self).stdin_open,
            final(self).startup_milliseconds == old(self).startup_milliseconds,
            match notification {
                Some(notification) => {
                    &&& announces(json_of(incoming), method@)
                    &&& notification == incoming
                    &&& final(self).pending_notifications == old(self).pending_notifications
                },
                None => {
                    &&& !announces(json_of(incoming), method@)
                    &&& final(self).pending_notifications@ == old(
                        self,
                    ).pending_notifications@.push(incoming)
                },
            },
            (final(self).pending(), seen_message(notification)) == await_incoming(
                old(self).pending(),
                seq![json_of(incoming)],
                method@,
            ),
    {
        let sought: bool = match as_text(member(&incoming, "method")) {
            Some(found) => same_text(found, method),
            None => false,
        };
        if sought {
            return Some(incoming);
        }
        self.pending_notifications.push_back(incoming);
        proof {
            reveal_with_fuel(await_incoming, 2);
            assert(self.pending() =~= old(self).pending().push(json_of(incoming)));
        }
        None
    }

    /// The conversation once the server's input is closed.
    pub open spec fn closed(self) -> CodexProcess {
        CodexProcess { stdin_open: false, ..self }
    }

    /// Closes the server's input: nothing is written from here on.
    pub fn shutdown(&mut self)
        ensures
            *final(self) == old(self).closed(),
    {
        self.stdin_open = false;
    }
}

/// The messages of a stream taken in one after another while an answer is
/// awaited, as [`CodexProcess::answer`] does it: what waits afterwards, and the
/// outcome, once the answer was among them.
pub open spec fn await_answer(
    pending: Seq<Json>,
    incoming: Seq<Json>,
    id: u64,
    method: Seq<char>,
) -> (Seq<Json>, Option<Result<Json, Seq<Reason>>>)
    decreases incoming.len(),
{
    if incoming.len() == 0 {
        (pending, None)
    } else if answers(incoming[0], id) {
        (pending, Some(verdict(method, incoming[0])))
    } else {
        await_answer(pending.push(incoming[0]), incoming.drop_first(), id, method)
    }
}

/// The messages of a stream taken in one after another while a notification is
/// awaited, as [`CodexProcess::notification`] does it.
pub open spec fn await_incoming(
    pending: Seq<Json>,
    incoming: Seq<Json>,
    method: Seq<char>,
) -> (Seq<Json>, Option<Json>)
    decreases incoming.len(),
{
    if incoming.len() == 0 {
        (pending, None)
    } else if announces(incoming[0], method) {
        (pending, Some(incoming[0]))
    } else {
        await_incoming(pending.push(incoming[0]), incoming.drop_first(), method)
    }
}

/// Waiting for a notification: what waits already is looked through first, as
/// [`CodexProcess::wait_for_notification`] does it, and then what comes in.
pub open spec fn await_notification(
    pending: Seq<Json>,
    incoming: Seq<Json>,
    method: Seq<char>,
) -> (Seq<Json>, Option<Json>) {
    if exists|k: int| first_announcing(pending, method, k) {
        let k = choose|k: int| first_announcing(pending, method, k);
        (pending.remove(k), Some(pending[k]))
    } else {
        await_incoming(pending, incoming, method)
    }
}

/// To await an answer is to take in the messages one at a time, until it is there.
pub proof fn answers_are_awaited_message_by_message(
    pending: Seq<Json>,
    first: Json,
    rest: Seq<Json>,
    id: u64,
    method: Seq<char>,
)
    ensures
        ({
            let (waiting, outcome) = await_answer(pending, seq![first], id, method);
            await_answer(pending, seq![first] + rest, id, method) == (if outcome is Some {
                (waiting, outcome)
            } else {
                await_answer(waiting, rest, id, method)
            })
        }),
{
    reveal_with_fuel(await_answer, 2);
    assert((seq![first] + rest).drop_first() =~= rest);
}

/// To await a notification is to look through the messages that wait, and then to
/// take in the others one at a time, until it is there.
pub proof fn notifications_are_awaited_message_by_message(
    pending: Seq<Json>,
    first: Json,
    rest: Seq<Json>,
    method: Seq<char>,
)
    ensures
        ({
            let (waiting, found) = await_notification(pending, Seq::empty(), method);
            await_notification(pending, seq![first] + rest, method) == (if found is Some {
                (waiting, found)
            } else {
                await_incoming(waiting, seq![first] + rest, method)
            })
        }),
        ({
            let (waiting, found) = await_incoming(pending, seq![first], method);
            await_incoming(pending, seq![first] + rest, method) == (if found is Some {
                (waiting, found)
            } else {
                await_incoming(waiting, rest, method)
            })
        }),
{
    reveal_with_fuel(await_incoming, 2);
    assert((seq![first] + rest).drop_first() =~= rest);
}

/// While an answer is awaited no message is lost and none changes its place:
/// those that came before the answer wait, in the order in which they came,
/// behind those that waited already.
pub proof fn awaiting_an_answer_sets_the_rest_aside(
    pending: Seq<Json>,
    incoming: Seq<Json>,
    id: u64,
    method: Seq<char>,
    k: int,
)
    requires
        0 <= k < incoming.len(),
        answers(incoming[k], id),
        forall|j: int| 0 <= j < k ==> !answers(#[trigger] incoming[j], id),
    ensures
        await_answer(pending, incoming, id, method) == (
            pending + incoming.take(k),
            Some(verdict(method, incoming[k])),
        ),
    decreases k,
{
    if k == 0 {
        assert(pending + incoming.take(0) =~= pending);
    } else {
        let rest = incoming.drop_first();
        assert(!answers(incoming[0], id));
        assert forall|j: int| 0 <= j < k - 1 implies !answers(#[trigger] rest[j], id) by {
            assert(rest[j] == incoming[j + 1]);
        }
        awaiting_an_answer_sets_the_rest_aside(pending.push(incoming[0]), rest, id, method, k - 1);
        assert(pending.push(incoming[0]) + rest.take(k - 1) =~= pending + incoming.take(k));
    }
}

/// As long as no answer has come, every message waits.
pub proof fn awaiting_in_vain_keeps_everything(
    pending: Seq<Json>,
    incoming: Seq<Json>,
    id: u64,
    method: Seq<char>,
)
    requires
        forall|j: int| 0 <= j < incoming.len() ==> !answers(#[trigger] incoming[j], id),
    ensures
        await_answer(pending, incoming, id, method) == (
            pending + incoming,
            None::<Result<Json, Seq<Reason>>>,
        ),
    decreases incoming.len(),
{
    if incoming.len() == 0 {
        assert(pending + incoming =~= pending);
    } else {
        let rest = incoming.drop_first();
        assert(!answers(incoming[0], id));
        assert forall|j: int| 0 <= j < rest.len() implies !answers(#[trigger] rest[j], id) by {
            assert(rest[j] == incoming[j + 1]);
        }
        awaiting_in_vain_keeps_everything(pending.push(incoming[0]), rest, id, method);
        assert(pending.push(incoming[0]) + rest =~= pending + incoming);
    }
}

/// A notification is found whether it came before one began to wait for it or
/// after: of all messages, those that wait and those that come in, it is the
/// first that announces the method, and all others stay in their order.
pub proof fn notification_is_the_first_of_all(
    pending: Seq<Json>,
    incoming: Seq<Json>,
    method: Seq<char>,
    k: int,
)
    requires
        first_announcing(pending + incoming, method, k),
    ensures
        await_notification(pending, incoming, method) == (
            if k < pending.len() {
                pending.remove(k)
            } else {
                (pending + incoming).take(k)
            },
            Some((pending + incoming)[k]),
        ),
{
    let all = pending + incoming;
    if k < pending.len() {
        assert(first_announcing(pending, method, k)) by {
            assert forall|j: int| 0 <= j < k implies !announces(#[trigger] pending[j], method) by {
                assert(pending[j] == all[j]);
            }
        }
        let found = choose|k: int| first_announcing(pending, method, k);
        assert(found == k) by {
            assert(pending[k] == all[k]);
            assert(pending[found] == all[found]);
        }
    } else {
        assert forall|j: int| !first_announcing(pending, method, j) by {
            if first_announcing(pending, method, j) {
                assert(pending[j] == all[j]);
            }
        }
        assert(first_announcing(incoming, method, k - pending.len())) by {
            assert forall|j: int| 0 <= j < k - pending.len() implies !announces(
                #[trigger] incoming[j],
                method,
            ) by {
                assert(incoming[j] == all[j + pending.len()]);
            }
        }
        lemma_await_incoming(pending, incoming, method, k - pending.len());
        assert(pending + incoming.take(k - pending.len()) =~= all.take(k));
    }
}

proof fn lemma_await_incoming(
    pending: Seq<Json>,
    incoming: Seq<Json>,
    method: Seq<char>,
    k: int,
)
    requires
        first_announcing(incoming, method, k),
    ensures
        await_incoming(pending, incoming, method) == (
            pending + incoming.take(k),
            Some(incoming[k]),
        ),
    decreases k,
{
    if k == 0 {
        assert(pending + incoming.take(0) =~= pending);
    } else {
        let rest = incoming.drop_first();
        assert(!announces(incoming[0], method));
        assert forall|j: int| 0 <= j < k - 1 implies !announces(#[trigger] rest[j], method) by {
            assert(rest[j] == incoming[j + 1]);
        }
        lemma_await_incoming(pending.push(incoming[0]), rest, method, k - 1);
        assert(pending.push(incoming[0]) + rest.take(k - 1) =~= pending + incoming.take(k));
    }
}

/// Parameters that leave room for one more level of nesting make a request and a
/// notification that can be read back.
pub proof fn messages_can_be_read_back(id: u64, method: Seq<char>, params: Json)
    requires
        params.readable((NESTING_LIMIT - 1) as nat),
    ensures
        request_message(id, method, params).readable(NESTING_LIMIT as nat),
        notification_message(method, params).readable(NESTING_LIMIT as nat),
{
    let request = request_message(id, method, params)->Object_0;
    assert forall|key: Seq<char>| request.dom().contains(key) implies (
    #[trigger] request[key]).readable((NESTING_LIMIT - 1) as nat) by {}
    let notification = notification_message(method, params)->Object_0;
    assert forall|key: Seq<char>| notification.dom().contains(key) implies (
    #[trigger] notification[key]).readable((NESTING_LIMIT - 1) as nat) by {}
}

/// What is sent as a notification is found by one who waits for it, and is no
/// answer to any request.
pub proof fn notifications_announce_their_method(method: Seq<char>, params: Json, id: u64)
    ensures
        announces(notification_message(method, params), method),
        !answers(notification_message(method, params), id),
{
    reveal_strlit("jsonrpc");
    reveal_strlit("id");
    reveal_strlit("method");
    reveal_strlit("params");
    assert("id"@.len() != "jsonrpc"@.len());
    assert("id"@.len() != "method"@.len());
    assert("id"@.len() != "params"@.len());
    assert("method"@[0] != "params"@[0]);
}

/// What the server reads from the line of a request, as long as the parameters leave room
/// for one more level of nesting: a request under a number of its own, by that method
/// and with those parameters, on a single line. The next request gets the next number.
pub proof fn requests_are_read_as_they_were_meant(
    method: &str,
    params: Value,
    outgoing: Result<Outgoing, Error>,
)
    ensures
        forall|process: &mut CodexProcess| #[trigger]
            call_ensures(CodexProcess::request, (process, method, params), outgoing) ==> {
                &&& final(process).next_request_id == (*process).next_request_id + 1
                &&& final(process).pending_notifications == (*process).pending_notifications
                &&& final(process).stdin_open == (*process).stdin_open
                &&& final(process).startup_milliseconds == (*process).startup_milliseconds
                &&& outgoing is Ok <==> (*process).stdin_open
                &&& outgoing is Err ==> outgoing->Err_0@ == seq![
                    Reason::Message("codex app server stdin is already closed"@),
                ]
                &&& outgoing is Ok ==> {
                    &&& outgoing->Ok_0.request_id == (*process).next_request_id
                    &&& !outgoing->Ok_0.line@.contains('\n')
                    &&& outgoing->Ok_0.line@ == json_text(
                        Json::Object(
                            map![
                                "jsonrpc"@ => Json::Text("2.0"@),
                                "id"@ => Json::Unsigned((*process).next_request_id),
                                "method"@ => Json::Text(method@),
                                "params"@ => json_of(params),
                            ],
                        ),
                    )
                }
                &&& outgoing is Ok && json_of(params).readable(126) ==> {
                    let read = parsed_json(outgoing->Ok_0.line@);
                    &&& read is Ok
                    &&& read->Ok_0.member("jsonrpc"@) == Json::Text("2.0"@)
                    &&& read->Ok_0.member("id"@) == Json::Unsigned((*process).next_request_id)
                    &&& read->Ok_0.member("method"@) == Json::Text(method@)
                    &&& read->Ok_0.member("params"@) == json_of(params)
                }
            },
{
    lemma_names_of_members();
    assert forall|process: &mut CodexProcess| #[trigger]
        call_ensures(CodexProcess::request, (process, method, params), outgoing) && outgoing is Ok
            && json_of(params).readable(126) implies request_message(
        (*process).next_request_id,
        method@,
        json_of(params),
    ).readable(NESTING_LIMIT as nat) by {
        messages_can_be_read_back((*process).next_request_id, method@, json_of(params));
    }
}

/// What the server reads from the line of a notification, in the same way: one without a
/// number, by that method and with those parameters.
pub proof fn notifications_are_read_as_they_were_meant(
    process: CodexProcess,
    method: &str,
    params: Value,
    line: Result<String, Error>,
)
    requires
        call_ensures(CodexProcess::notify, (&process, method, params), line),
    ensures
        line is Ok <==> process.stdin_open,
        line is Err ==> line->Err_0@ == seq![
            Reason::Message("codex app server stdin is already closed"@),
        ],
        line is Ok ==> !line->Ok_0@.contains('\n'),
        line is Ok ==> line->Ok_0@ == json_text(
            Json::Object(
                map![
                    "jsonrpc"@ => Json::Text("2.0"@),
                    "method"@ => Json::Text(method@),
                    "params"@ => json_of(params),
                ],
            ),
        ),
        line is Ok && json_of(params).readable(126) ==> {
            let read = parsed_json(line->Ok_0@);
            &&& read is Ok
            &&& read->Ok_0.member("jsonrpc"@) == Json::Text("2.0"@)
            &&& !read->Ok_0.has_member("id"@)
            &&& read->Ok_0.member("method"@) == Json::Text(method@)
            &&& read->Ok_0.member("params"@) == json_of(params)
        },
{
    lemma_names_of_members();
    if json_of(params).readable(126) {
        messages_can_be_read_back(0, method@, json_of(params));
    }
}

/// The names of the members of a message are told apart.
proof fn lemma_names_of_members()
    ensures
        "jsonrpc"@.len() == 7,
        "id"@.len() == 2,
        "method"@.len() == 6,
        "params"@.len() == 6,
        "method"@[0] != "params"@[0],
{
    reveal_strlit("jsonrpc");
    reveal_strlit("id");
    reveal_strlit("method");
    reveal_strlit("params");
}

/// A message is taken as the answer exactly if it has the number of the request. With an
/// error in it, whatever that is, it is a refusal, which is told with the method and the
/// error; otherwise its result is what was asked for. Every other message is set aside,
/// behind those that wait.
pub proof fn answers_have_the_number_of_the_request(
    request_id: u64,
    method: &str,
    incoming: Value,
    answer: Option<Result<Value, Error>>,
)
    ensures
        forall|process: &mut CodexProcess| #[trigger]
            call_ensures(CodexProcess::answer, (process, request_id, method, incoming), answer)
                ==> {
                let message = json_of(incoming);
                &&& final(process).next_request_id == (*process).next_request_id
                &&& final(process).stdin_open == (*process).stdin_open
                &&& answer is Some <==> message.member("id"@) == Json::Unsigned(request_id)
                &&& answer is None ==> final(process).pending_notifications@
                    == (*process).pending_notifications@.push(incoming)
                &&& answer is Some ==> final(process).pending_notifications@
                    == (*process).pending_notifications@
                &&& answer is Some && message.has_member("error"@) ==> {
                    &&& answer->Some_0 is Err
                    &&& answer->Some_0->Err_0@ == seq![
                        Reason::Message(
                            "codex app server rejected "@ + method@ + ": "@ + json_text(
                                message.member("error"@),
                            ),
                        ),
                    ]
                }
                &&& answer is Some && !message.has_member("error"@) ==> {
                    &&& answer->Some_0 is Ok
                    &&& json_of(answer->Some_0->Ok_0) == message.member("result"@)
                }
            },
{
}

/// Of the messages that wait, the oldest one of that method is taken, and no other is
/// touched; where none is of that method, none is taken.
pub proof fn waiting_messages_are_taken_oldest_first(method: &str, found: Option<Value>)
    ensures
        forall|process: &mut CodexProcess| #[trigger]
            call_ensures(CodexProcess::wait_for_notification, (process, method), found) ==> {
                let waiting = (*process).pending_notifications@;
                &&& final(process).next_request_id == (*process).next_request_id
                &&& final(process).stdin_open == (*process).stdin_open
                &&& found is None ==> {
                    &&& final(process).pending_notifications@ == waiting
                    &&& forall|i: int|
                        0 <= i < waiting.len() ==> json_of(#[trigger] waiting[i]).member(
                            "method"@,
                        ) != Json::Text(method@)
                }
                &&& found is Some ==> exists|k: int|
                    {
                        &&& 0 <= k < waiting.len()
                        &&& found->Some_0 == #[trigger] waiting[k]
                        &&& json_of(waiting[k]).member("method"@) == Json::Text(method@)
                        &&& final(process).pending_notifications@ == waiting.remove(k)
                        &&& forall|i: int|
                            0 <= i < k ==> json_of(#[trigger] waiting[i]).member("method"@)
                                != Json::Text(method@)
                    }
            },
{
    assert forall|process: &mut CodexProcess| #[trigger]
        call_ensures(CodexProcess::wait_for_notification, (process, method), found) implies {
        let waiting = (*process).pending_notifications@;
        &&& found is None ==> {
            &&& final(process).pending_notifications@ == waiting
            &&& forall|i: int|
                0 <= i < waiting.len() ==> json_of(#[trigger] waiting[i]).member("method"@)
                    != Json::Text(method@)
        }
        &&& found is Some ==> exists|k: int|
            {
                &&& 0 <= k < waiting.len()
                &&& found->Some_0 == #[trigger] waiting[k]
                &&& json_of(waiting[k]).member("method"@) == Json::Text(method@)
                &&& final(process).pending_notifications@ == waiting.remove(k)
                &&& forall|i: int|
                    0 <= i < k ==> json_of(#[trigger] waiting[i]).member("method"@) != Json::Text(
                        method@,
                    )
            }
    } by {
        let waiting = (*process).pending_notifications@;
        let seen_waiting = (*process).pending();
        assert forall|i: int| 0 <= i < waiting.len() implies seen_waiting[i] == json_of(
            #[trigger] waiting[i],
        ) by {}
        if found is Some {
            let k = choose|k: int|
                {
                    &&& #[trigger] first_announcing(seen_waiting, method@, k)
                    &&& found->Some_0 == waiting[k]
                    &&& final(process).pending_notifications@ == waiting.remove(k)
                };
            assert(found->Some_0 == waiting[k]);
            assert forall|i: int| 0 <= i < k implies json_of(#[trigger] waiting[i]).member(
                "method"@,
            ) != Json::Text(method@) by {
                assert(!announces(seen_waiting[i], method@));
            }
        } else {
            assert forall|i: int| 0 <= i < waiting.len() implies json_of(
                #[trigger] waiting[i],
            ).member("method"@) != Json::Text(method@) by {
                assert(!announces(seen_waiting[i], method@));
            }
        }
    }
}

/// A message that comes in is the one that is awaited exactly if it is of that method.
/// Every other is set aside, behind those that wait.
pub proof fn messages_of_the_method_are_taken_as_they_come(
    method: &str,
    incoming: Value,
    found: Option<Value>,
)
    ensures
        forall|process: &mut CodexProcess| #[trigger]
            call_ensures(CodexProcess::notification, (process, method, incoming), found) ==> {
                &&& final(process).next_request_id == (*process).next_request_id
                &&& final(process).stdin_open == (*process).stdin_open
                &&& found is Some <==> json_of(incoming).member("method"@) == Json::Text(method@)
                &&& found is Some ==> {
                    &&& found->Some_0 == incoming
                    &&& final(process).pending_notifications@ == (*process).pending_notifications@
                }
                &&& found is None ==> final(process).pending_notifications@
                    == (*process).pending_notifications@.push(incoming)
            },
{
}

/// A line is read as JSON, whatever it holds; an empty one is the end of the stream.
pub proof fn lines_are_read_as_json(line: &str, message: Result<Value, Error>)
    requires
        call_ensures(read_message, (line,), message),
    ensures
        line@.len() == 0 ==> {
            &&& message is Err
            &&& message->Err_0@ == seq![Reason::Message("end of stream"@)]
        },
        line@.len() > 0 ==> match parsed_json(line@) {
            Ok(tree) => message is Ok && json_of(message->Ok_0) == tree,
            Err(text) => message is Err && message->Err_0@ == seq![Reason::Message(text)],
        },
{
}

/// A new conversation is open and empty, and numbers its requests from zero on. Closing
/// the input changes nothing but that.
pub proof fn conversations_begin_open_and_can_be_closed(fresh: CodexProcess)
    requires
        call_ensures(CodexProcess::new, (), fresh),
    ensures
        fresh.next_request_id == 0,
        fresh.pending_notifications@.len() == 0,
        fresh.stdin_open,
        forall|process: &mut CodexProcess| #[trigger]
            call_ensures(CodexProcess::shutdown, (process,), ()) ==> {
                &&& !final(process).stdin_open
                &&& final(process).next_request_id == (*process).next_request_id
                &&& final(process).pending_notifications == (*process).pending_notifications
                &&& final(process).startup_milliseconds == (*process).startup_milliseconds
            },
{
}

} // verus!
