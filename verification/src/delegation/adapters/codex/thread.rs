//! A thread of work on a codex app server: its turns, and its end.

use crate::delegation::adapters::codex::process::{seen, CodexProcess};
use crate::delegation::adapters::codex::usage::{token_usage, usage_of};
use crate::delegation::application::{
    ThreadId, TokenUsage, WorkerMetrics, WorkerRequest, WorkerResponse,
};
use crate::error::{causes_of, just, wrapped, Cause, Error, Interrupted, Reason};
use crate::json::{
    array_value, as_text, empty_object, json_of, json_seq, json_text, json_to_text, member,
    null_value, set_member, text_value, Json,
};
use crate::termination::Termination;
use serde_json::Value;
use std::collections::VecDeque;
use vstd::prelude::*;

verus! {

/// How a turn came out.
#[derive(Debug, Clone, Copy, PartialEq, Eq)]
pub enum TurnStatus {
    Completed,
    Interrupted,
    Failed,
    InProgress,
}

/// One step of the worker within a turn.
#[derive(Debug)]
pub enum TurnItem {
    AgentMessage { id: String, text: String },
    Other,
}

/// A turn as the server reports it.
#[derive(Debug)]
pub struct Turn {
    pub id: String,
    pub items: Vec<TurnItem>,
    pub status: TurnStatus,
    pub error: Option<Value>,
}

/// A thread of work, and the conversation in which it goes on.
#[derive(Debug)]
pub struct CodexThread {
    pub process: CodexProcess,
    pub thread_id: ThreadId,
    /// The turn that was begun and has not been reported as completed.
    pub active_turn_id: Option<String>,
    /// What the last turn took.
    pub usage: Option<TokenUsage>,
}

/// What has to be done next for a turn to go on.
#[derive(Debug)]
pub enum TurnStep {
    /// Send this request and await its answer.
    Request { method: &'static str, params: Value },
    /// Await this notification.
    WaitFor { method: &'static str },
    /// Read the value as a [`Turn`].
    DecodeTurn(Value),
    /// Read the text as a [`WorkerResponse`].
    DecodeResponse(String),
    /// The turn is over.
    Finished(Result<WorkerResponse, Error>),
}

/// What a [`TurnStep`] asks for.
pub enum TurnNext {
    Request(Seq<char>, Json),
    WaitFor(Seq<char>),
    DecodeTurn(Json),
    DecodeResponse(Seq<char>),
    Finished(Result<WorkerResponse, Seq<Reason>>),
}

impl View for TurnStep {
    type V = TurnNext;

    open spec fn view(&self) -> TurnNext {
        match self {
            TurnStep::Request { method, params } => TurnNext::Request(method@, json_of(*params)),
            TurnStep::WaitFor { method } => TurnNext::WaitFor(method@),
            TurnStep::DecodeTurn(value) => TurnNext::DecodeTurn(json_of(*value)),
            TurnStep::DecodeResponse(text) => TurnNext::DecodeResponse(text@),
            TurnStep::Finished(outcome) => TurnNext::Finished(causes_of(*outcome)),
        }
    }
}

/// What has to be done next for a thread to come to its end.
#[derive(Debug)]
pub enum ShutdownStep {
    /// Find out whether the server is still running.
    Probe { turn_id: String },
    /// Send this request and await its answer.
    Interrupt { method: &'static str, params: Value },
    /// Close the server's input and wait until it has exited.
    Close { interruption: Result<(), Error> },
}

/// What a [`ShutdownStep`] asks for.
pub enum ShutdownNext {
    Probe(Seq<char>),
    Interrupt(Seq<char>, Json),
    Close(Result<(), Seq<Reason>>),
}

impl View for ShutdownStep {
    type V = ShutdownNext;

    open spec fn view(&self) -> ShutdownNext {
        match self {
            ShutdownStep::Probe { turn_id } => ShutdownNext::Probe(turn_id@),
            ShutdownStep::Interrupt { method, params } => ShutdownNext::Interrupt(
                method@,
                json_of(*params),
            ),
            ShutdownStep::Close { interruption } => ShutdownNext::Close(causes_of(*interruption)),
        }
    }
}

/// A text that may be missing.
pub open spec fn text_view(text: Option<String>) -> Option<Seq<char>> {
    match text {
        Some(text) => Some(text@),
        None => None,
    }
}

/// The parameters with which a turn is begun.
pub open spec fn turn_params(
    thread_id: Seq<char>,
    task: Seq<char>,
    model: Seq<char>,
    effort: Seq<char>,
    output_schema: Json,
) -> Json {
    Json::Object(
        map![
            "threadId"@ => Json::Text(thread_id),
            "input"@ => Json::Array(
                seq![
                    Json::Object(
                        map!["type"@ => Json::Text("text"@), "text"@ => Json::Text(task)],
                    ),
                ],
            ),
            "model"@ => Json::Text(model),
            "effort"@ => Json::Text(effort),
            "outputSchema"@ => output_schema,
        ],
    )
}

/// The parameters with which a turn is broken off.
pub open spec fn interrupt_params(thread_id: Seq<char>, turn_id: Seq<char>) -> Json {
    Json::Object(
        map!["threadId"@ => Json::Text(thread_id), "turnId"@ => Json::Text(turn_id)],
    )
}

/// A failure of a turn, as it is passed on: where a stop was asked for, it counts
/// as interrupted.
pub open spec fn turn_failure(requested: bool, causes: Seq<Reason>) -> Seq<Reason> {
    if requested {
        wrapped(Reason::Interrupted, causes)
    } else {
        causes
    }
}

/// The text of the last agent message.
pub open spec fn last_agent_text(items: Seq<TurnItem>) -> Option<Seq<char>>
    decreases items.len(),
{
    if items.len() == 0 {
        None
    } else {
        match items.last() {
            TurnItem::AgentMessage { id: _, text } => Some(text@),
            TurnItem::Other => last_agent_text(items.drop_last()),
        }
    }
}

/// The error of a turn, null where it has none.
pub open spec fn turn_error(turn: Turn) -> Json {
    match turn.error {
        Some(error) => json_of(error),
        None => Json::Null,
    }
}

/// Where the worker's response stands in a turn; or why it has none.
pub open spec fn turn_verdict(turn: Turn) -> Result<Seq<char>, Seq<Reason>> {
    match turn.status {
        TurnStatus::Completed => match last_agent_text(turn.items@) {
            Some(text) => Ok(text),
            None => Err(just("turn contains no agent message"@)),
        },
        TurnStatus::Failed => Err(
            just("turn "@ + turn.id@ + " failed: "@ + json_text(turn_error(turn))),
        ),
        TurnStatus::Interrupted => Err(just("turn "@ + turn.id@ + " was interrupted"@)),
        TurnStatus::InProgress => Err(
            just("turn "@ + turn.id@ + " is still in progress after turn/completed"@),
        ),
    }
}

/// What follows the answer to the request that began the turn.
pub open spec fn next_after_start(
    answer: Result<Json, Seq<Reason>>,
    requested: bool,
) -> TurnNext {
    match answer {
        Ok(_) => TurnNext::WaitFor("turn/completed"@),
        Err(causes) => TurnNext::Finished(Err(turn_failure(requested, causes))),
    }
}

/// What follows the notification that the turn is completed.
pub open spec fn next_after_completion(
    notification: Result<Json, Seq<Reason>>,
    requested: bool,
) -> TurnNext {
    match notification {
        Ok(message) => TurnNext::DecodeTurn(message.member("params"@).member("turn"@)),
        Err(causes) => TurnNext::Finished(Err(turn_failure(requested, causes))),
    }
}

/// What follows once the turn was read.
pub open spec fn next_after_decoding(
    turn: Result<Turn, Seq<Reason>>,
    requested: bool,
) -> TurnNext {
    match turn {
        Ok(turn) => match turn_verdict(turn) {
            Ok(text) => TurnNext::DecodeResponse(text),
            Err(causes) => TurnNext::Finished(Err(turn_failure(requested, causes))),
        },
        Err(causes) => TurnNext::Finished(Err(turn_failure(requested, causes))),
    }
}

/// What follows once the response was read.
pub open spec fn next_after_response(
    response: Result<WorkerResponse, Seq<Reason>>,
    requested: bool,
) -> TurnNext {
    match response {
        Ok(response) => TurnNext::Finished(Ok(response)),
        Err(causes) => TurnNext::Finished(Err(turn_failure(requested, causes))),
    }
}

/// The active turn once the server has answered whether it begins one. It is known
/// by the name that the answer gives, if it gives any.
pub open spec fn active_after_start(
    answer: Result<Json, Seq<Reason>>,
    before: Option<Seq<char>>,
) -> Option<Seq<char>> {
    match answer {
        Ok(result) => result.member("turn"@).member("id"@).as_text(),
        Err(_) => before,
    }
}

/// The active turn once a completed one was awaited.
pub open spec fn active_after_completion(
    notification: Result<Json, Seq<Reason>>,
    before: Option<Seq<char>>,
) -> Option<Seq<char>> {
    match notification {
        Ok(_) => None,
        Err(_) => before,
    }
}

/// How the end of a thread begins, with that turn active.
pub open spec fn next_on_shutdown(active: Option<Seq<char>>) -> ShutdownNext {
    match active {
        Some(turn_id) => ShutdownNext::Probe(turn_id),
        None => ShutdownNext::Close(Ok(())),
    }
}

/// What follows once it is known whether the server is still running.
pub open spec fn next_after_probe(
    thread_id: Seq<char>,
    turn_id: Seq<char>,
    running: bool,
) -> ShutdownNext {
    if running {
        ShutdownNext::Interrupt("turn/interrupt"@, interrupt_params(thread_id, turn_id))
    } else {
        ShutdownNext::Close(Ok(()))
    }
}

/// What follows the answer to the request that breaks the turn off.
pub open spec fn next_after_interrupt(answer: Result<Json, Seq<Reason>>) -> ShutdownNext {
    match answer {
        Ok(_) => ShutdownNext::Close(Ok(())),
        Err(causes) => ShutdownNext::Close(Err(causes)),
    }
}

/// The conversation after a step: where the server is to be closed, its input is.
pub open spec fn process_after(process: CodexProcess, step: ShutdownNext) -> CodexProcess {
    match step {
        ShutdownNext::Close(_) => process.closed(),
        _ => process,
    }
}

/// A failure of a turn, as it is passed on.
fn fail_turn(error: Error, termination: &Termination) -> (step: TurnStep)
    ensures
        step@ == TurnNext::Finished(Err(turn_failure(termination.requested(), error@))),
{
    if termination.is_requested() {
        TurnStep::Finished(Err(error.context(Cause::Interrupted(Interrupted))))
    } else {
        TurnStep::Finished(Err(error))
    }
}

/// The text in which the worker's response stands: the last agent message of a
/// turn that was completed.
pub fn response_text(turn: &Turn) -> (text: Result<String, Error>)
    ensures
        match text {
            Ok(text) => turn_verdict(*turn) is Ok && turn_verdict(*turn)->Ok_0 == text@,
            Err(error) => turn_verdict(*turn) is Err && turn_verdict(*turn)->Err_0 == error@,
        },
{
    let mut text: String = "turn ".to_owned();
    text.append(turn.id.as_str());
    match turn.status {
        TurnStatus::Completed => match last_agent_message(&turn.items) {
            Some(found) => Ok(found.to_owned()),
            None => Err(Error::message("turn contains no agent message".to_owned())),
        },
        TurnStatus::Failed => {
            text.append(" failed: ");
            match &turn.error {
                Some(error) => text.append(json_to_text(error).as_str()),
                None => text.append(json_to_text(&null_value()).as_str()),
            }
            Err(Error::message(text))
        },
        TurnStatus::Interrupted => {
            text.append(" was interrupted");
            Err(Error::message(text))
        },
        TurnStatus::InProgress => {
            text.append(" is still in progress after turn/completed");
            Err(Error::message(text))
        },
    }
}

/// The text of the last agent message.
pub fn last_agent_message(items: &Vec<TurnItem>) -> (text: Option<&str>)
    ensures
        match text {
            Some(text) => last_agent_text(items@) == Some(text@),
            None => last_agent_text(items@) is None,
        },
{
    let mut left: usize = items.len();
    assert(items@.take(left as int) =~= items@);
    while left > 0
        invariant
            left <= items@.len(),
            last_agent_text(items@) == last_agent_text(items@.take(left as int)),
        decreases left,
    {
        left = left - 1;
        proof {
            assert(items@.take(left as int + 1).drop_last() =~= items@.take(left as int));
            assert(items@.take(left as int + 1).last() == items@[left as int]);
        }
        if let TurnItem::AgentMessage { id: _, text } = &items[left] {
            return Some(text.as_str());
        }
    }
    None
}

impl CodexThread {
    /// A thread in which no turn has been begun.
    pub fn new(process: CodexProcess, thread_id: ThreadId) -> (thread: CodexThread)
        ensures
            thread.process == process,
            thread.thread_id == thread_id,
            thread.active_turn_id is None,
            thread.usage is None,
    {
        CodexThread { process, thread_id, active_turn_id: None, usage: None }
    }

    /// The name by which the server knows the thread.
    pub fn thread_id(&self) -> (id: &ThreadId)
        ensures
            *id == self.thread_id,
    {
        &self.thread_id
    }

    /// What the thread knows of its own cost.
    pub fn metrics(&self) -> (metrics: WorkerMetrics)
        ensures
            metrics.usage == self.usage,
            metrics.startup_milliseconds == Some(self.process.startup_milliseconds),
    {
        WorkerMetrics {
            usage: self.usage,
            startup_milliseconds: Some(self.process.startup_milliseconds),
        }
    }

    /// Begins a turn. The response is to have the form that the schema describes.
    pub fn turn(&self, request: &WorkerRequest, output_schema: Value) -> (step: TurnStep)
        ensures
            step@ == TurnNext::Request(
                "turn/start"@,
                turn_params(
                    self.thread_id.0@,
                    request.task@,
                    request.model@,
                    request.effort@,
                    json_of(output_schema),
                ),
            ),
    {
        let mut item: Value = empty_object();
        set_member(&mut item, "type", text_value("text"));
        set_member(&mut item, "text", text_value(request.task.as_str()));
        let mut input: Vec<Value> = Vec::new();
        input.push(item);
        assert(json_seq(input@) =~= seq![json_of(item)]);
        let mut params: Value = empty_object();
        set_member(&mut params, "threadId", text_value(self.thread_id.0.as_str()));
        set_member(&mut params, "input", array_value(input));
        set_member(&mut params, "model", text_value(request.model.as_str()));
        set_member(&mut params, "effort", text_value(request.effort.as_str()));
        set_member(&mut params, "outputSchema", output_schema);
        TurnStep::Request { method: "turn/start", params }
    }

    /// Goes on once the server has answered whether it begins the turn.
    pub fn turn_started(
        &mut self,
        answer: Result<Value, Error>,
        termination: &Termination,
    ) -> (step: TurnStep)
        ensures
            step@ == next_after_start(seen(answer), termination.requested()),
            final(self).process == old(self).process,
            final(self).thread_id == old(self).thread_id,
            final(self).usage == old(self).usage,
            text_view(final(self).active_turn_id) == active_after_start(
                seen(answer),
                text_view(old(self).active_turn_id),
            ),
    {
        match answer {
            Ok(result) => {
                self.active_turn_id = match as_text(member(member(&result, "turn"), "id")) {
                    Some(id) => Some(id.to_owned()),
                    None => None,
                };
                TurnStep::WaitFor { method: "turn/completed" }
            },
            Err(error) => fail_turn(error, termination),
        }
    }

    /// Goes on once the server has announced that the turn is completed.
    pub fn turn_completed(
        &mut self,
        notification: Result<Value, Error>,
        termination: &Termination,
    ) -> (step: TurnStep)
        ensures
            step@ == next_after_completion(seen(notification), termination.requested()),
            final(self).process == old(self).process,
            final(self).thread_id == old(self).thread_id,
            final(self).usage == old(self).usage,
            text_view(final(self).active_turn_id) == active_after_completion(
                seen(notification),
                text_view(old(self).active_turn_id),
            ),
    {
        match notification {
            Ok(message) => {
                self.active_turn_id = None;
                TurnStep::DecodeTurn(member(member(&message, "params"), "turn").clone())
            },
            Err(error) => fail_turn(error, termination),
        }
    }

    /// Goes on once the report on the turn was read, and notes what it took.
    pub fn turn_decoded(
        &mut self,
        turn: Result<Turn, Error>,
        termination: &Termination,
    ) -> (step: TurnStep)
        ensures
            step@ == next_after_decoding(causes_of(turn), termination.requested()),
            final(self).process == old(self).process,
            final(self).thread_id == old(self).thread_id,
            final(self).active_turn_id == old(self).active_turn_id,
            final(self).usage == (match turn {
                Ok(turn) => usage_of(old(self).process.pending(), turn.id@),
                Err(_) => old(self).usage,
            }),
    {
        match turn {
            Ok(turn) => {
                self.usage = token_usage(&self.process.pending_notifications, turn.id.as_str());
                match response_text(&turn) {
                    Ok(text) => TurnStep::DecodeResponse(text),
                    Err(error) => fail_turn(error, termination),
                }
            },
            Err(error) => fail_turn(error, termination),
        }
    }

    /// Ends the turn once the response was read.
    pub fn response_decoded(
        &self,
        response: Result<WorkerResponse, Error>,
        termination: &Termination,
    ) -> (step: TurnStep)
        ensures
            step@ == next_after_response(causes_of(response), termination.requested()),
    {
        match response {
            Ok(response) => TurnStep::Finished(Ok(response)),
            Err(error) => fail_turn(error, termination),
        }
    }

    /// Begins to end the thread. A turn that is still active is to be broken off
    /// first, where the server is there to hear of it.
    pub fn shutdown(&mut self) -> (step: ShutdownStep)
        ensures
            final(self).active_turn_id is None,
            final(self).thread_id == old(self).thread_id,
            final(self).usage == old(self).usage,
            step@ == next_on_shutdown(text_view(old(self).active_turn_id)),
            final(self).process == process_after(old(self).process, step@),
    {
        match self.active_turn_id.take() {
            Some(turn_id) => ShutdownStep::Probe { turn_id },
            None => {
                self.process.shutdown();
                ShutdownStep::Close { interruption: Ok(()) }
            },
        }
    }

    /// Goes on once it is known whether the server is still running.
    pub fn probed(&mut self, turn_id: String, running: bool) -> (step: ShutdownStep)
        ensures
            final(self).active_turn_id == old(self).active_turn_id,
            final(self).thread_id == old(self).thread_id,
            final(self).usage == old(self).usage,
            step@ == next_after_probe(old(self).thread_id.0@, turn_id@, running),
            final(self).process == process_after(old(self).process, step@),
    {
        if running {
            let mut params: Value = empty_object();
            set_member(&mut params, "threadId", text_value(self.thread_id.0.as_str()));
            set_member(&mut params, "turnId", text_value(turn_id.as_str()));
            ShutdownStep::Interrupt { method: "turn/interrupt", params }
        } else {
            self.process.shutdown();
            ShutdownStep::Close { interruption: Ok(()) }
        }
    }

    /// Goes on once the server has answered whether it breaks the turn off.
    pub fn interrupted(&mut self, answer: Result<Value, Error>) -> (step: ShutdownStep)
        ensures
            step@ == next_after_interrupt(seen(answer)),
            final(self).active_turn_id == old(self).active_turn_id,
            final(self).thread_id == old(self).thread_id,
            final(self).usage == old(self).usage,
            final(self).process == process_after(old(self).process, step@),
    {
        self.process.shutdown();
        match answer {
            Ok(_) => ShutdownStep::Close { interruption: Ok(()) },
            Err(error) => ShutdownStep::Close { interruption: Err(error) },
        }
    }

    /// Ends the thread once the server has exited, or could not be waited for. That
    /// it could not be waited for counts for more than a turn that could not be
    /// broken off.
    pub fn closed(
        &self,
        interruption: Result<(), Error>,
        exit: Result<(), Error>,
        termination: &mut Termination,
    ) -> (outcome: Result<(), Error>)
        ensures
            outcome == (match exit {
                Ok(_) => interruption,
                Err(error) => Err(error),
            }),
            final(termination).child() is None,
            final(termination).requested() == old(termination).requested(),
    {
        termination.clear_child_process_id();
        match exit {
            Ok(_) => interruption,
            Err(error) => Err(error),
        }
    }
}

/// The outcome of a turn, from what came of each step that it asked for.
pub open spec fn turn_outcome(
    answer: Result<Json, Seq<Reason>>,
    notification: Result<Json, Seq<Reason>>,
    turn: Result<Turn, Seq<Reason>>,
    response: Result<WorkerResponse, Seq<Reason>>,
    requested: bool,
) -> Result<WorkerResponse, Seq<Reason>> {
    match next_after_start(answer, requested) {
        TurnNext::Finished(outcome) => outcome,
        _ => match next_after_completion(notification, requested) {
            TurnNext::Finished(outcome) => outcome,
            _ => match next_after_decoding(turn, requested) {
                TurnNext::Finished(outcome) => outcome,
                _ => next_after_response(response, requested)->Finished_0,
            },
        },
    }
}

/// A turn gives a response exactly if the server took it on, announced its end,
/// and reported it as completed with an agent message, of which the last one reads
/// as a response; and then it is that response.
pub proof fn turn_gives_a_response_exactly_if_all_went_well(
    answer: Result<Json, Seq<Reason>>,
    notification: Result<Json, Seq<Reason>>,
    turn: Result<Turn, Seq<Reason>>,
    response: Result<WorkerResponse, Seq<Reason>>,
    requested: bool,
)
    ensures
        turn_outcome(answer, notification, turn, response, requested) is Ok <==> {
            &&& answer is Ok
            &&& notification is Ok
            &&& turn is Ok
            &&& turn->Ok_0.status == TurnStatus::Completed
            &&& last_agent_text(turn->Ok_0.items@) is Some
            &&& response is Ok
        },
        turn_outcome(answer, notification, turn, response, requested) is Ok ==> turn_outcome(
            answer,
            notification,
            turn,
            response,
            requested,
        ) == response,
{
}

/// A turn that fails after a stop was asked for counts as interrupted, whatever
/// made it fail; without such a request no failure is marked so on the way.
pub proof fn failed_turns_are_marked_exactly_on_request(
    answer: Result<Json, Seq<Reason>>,
    notification: Result<Json, Seq<Reason>>,
    turn: Result<Turn, Seq<Reason>>,
    response: Result<WorkerResponse, Seq<Reason>>,
)
    requires
        turn_outcome(answer, notification, turn, response, false) is Err,
    ensures
        turn_outcome(answer, notification, turn, response, true) is Err,
        turn_outcome(answer, notification, turn, response, true)->Err_0 == wrapped(
            Reason::Interrupted,
            turn_outcome(answer, notification, turn, response, false)->Err_0,
        ),
        turn_outcome(answer, notification, turn, response, true)->Err_0.contains(
            Reason::Interrupted,
        ),
{
    let causes = turn_outcome(answer, notification, turn, response, false)->Err_0;
    assert(wrapped(Reason::Interrupted, causes)[0] == Reason::Interrupted);
}

/// Only the last agent message counts: what the worker said earlier in the turn
/// does not change it, and neither do steps of other kinds after it.
pub proof fn last_agent_message_counts(
    earlier: Seq<TurnItem>,
    id: String,
    text: String,
    later: Seq<TurnItem>,
)
    requires
        forall|i: int| 0 <= i < later.len() ==> #[trigger] later[i] is Other,
    ensures
        last_agent_text(earlier.push(TurnItem::AgentMessage { id, text }) + later) == Some(text@),
    decreases later.len(),
{
    let message = TurnItem::AgentMessage { id, text };
    let all = earlier.push(message) + later;
    if later.len() == 0 {
        assert(all.last() == message);
    } else {
        assert(all.last() == later.last());
        assert(later[later.len() - 1] is Other);
        assert(all.drop_last() =~= earlier.push(message) + later.drop_last());
        last_agent_message_counts(earlier, id, text, later.drop_last());
    }
}

/// What came of breaking the active turn off, by the time at which the server is
/// closed, from what came of each step that the end of the thread asked for.
pub open spec fn interruption_outcome(
    thread_id: Seq<char>,
    active: Option<Seq<char>>,
    running: bool,
    answer: Result<Json, Seq<Reason>>,
) -> ShutdownNext {
    match next_on_shutdown(active) {
        ShutdownNext::Probe(turn_id) => match next_after_probe(thread_id, turn_id, running) {
            ShutdownNext::Interrupt(_, _) => next_after_interrupt(answer),
            step => step,
        },
        step => step,
    }
}

/// Whatever comes of the steps in between, the end of a thread comes to where the
/// server is closed and waited for. What is then known of a turn that was broken off
/// is a failure exactly if there was such a turn, the server was there to be asked,
/// and it refused.
pub proof fn every_thread_is_closed_in_the_end(
    thread_id: Seq<char>,
    active: Option<Seq<char>>,
    running: bool,
    answer: Result<Json, Seq<Reason>>,
)
    ensures
        interruption_outcome(thread_id, active, running, answer) is Close,
        interruption_outcome(thread_id, active, running, answer)->Close_0 is Err <==> (active is Some
            && running && answer is Err),
{
}

/// A turn that was begun and was never reported as completed is broken off when the
/// thread ends, by the name that the server gave it, where the server still runs.
pub proof fn unfinished_turns_are_broken_off(
    thread_id: Seq<char>,
    before: Option<Seq<char>>,
    answer: Result<Json, Seq<Reason>>,
    notification: Result<Json, Seq<Reason>>,
    turn_id: Seq<char>,
)
    requires
        answer is Ok,
        answer->Ok_0.member("turn"@).member("id"@) == Json::Text(turn_id),
        notification is Err,
    ensures
        next_on_shutdown(
            active_after_completion(notification, active_after_start(answer, before)),
        ) == ShutdownNext::Probe(turn_id),
        next_after_probe(thread_id, turn_id, true) == ShutdownNext::Interrupt(
            "turn/interrupt"@,
            interrupt_params(thread_id, turn_id),
        ),
{
}

/// A turn that was reported as completed is not broken off, and neither is one that
/// the server never took on.
pub proof fn finished_turns_are_left_alone(
    answer: Result<Json, Seq<Reason>>,
    notification: Result<Json, Seq<Reason>>,
)
    requires
        answer is Err || notification is Ok,
    ensures
        next_on_shutdown(
            if answer is Err {
                active_after_start(answer, None)
            } else {
                active_after_completion(notification, active_after_start(answer, None))
            },
        ) == ShutdownNext::Close(Ok(())),
{
}

/// A turn is begun with what was asked for: the task is its one input, the model and
/// the effort are those of the request, the thread is this one, and nothing else is
/// sent along but the form of the response.
pub proof fn turns_are_begun_as_asked(
    thread: CodexThread,
    request: WorkerRequest,
    output_schema: Value,
    step: TurnStep,
)
    requires
        call_ensures(CodexThread::turn, (&thread, &request, output_schema), step),
    ensures
        step is Request,
        step->Request_method@ == "turn/start"@,
        ({
            let params = json_of(step->Request_params);
            let input = params.member("input"@);
            &&& params.member("threadId"@) == Json::Text(thread.thread_id.0@)
            &&& params.member("model"@) == Json::Text(request.model@)
            &&& params.member("effort"@) == Json::Text(request.effort@)
            &&& params.member("outputSchema"@) == json_of(output_schema)
            &&& input is Array
            &&& input->Array_0.len() == 1
            &&& input->Array_0[0].member("type"@) == Json::Text("text"@)
            &&& input->Array_0[0].member("text"@) == Json::Text(request.task@)
            &&& forall|key: Seq<char>| #[trigger]
                params.has_member(key) ==> key == "threadId"@ || key == "input"@ || key
                    == "model"@ || key == "effort"@ || key == "outputSchema"@
        }),
{
    reveal_strlit("threadId");
    reveal_strlit("input");
    reveal_strlit("model");
    reveal_strlit("effort");
    reveal_strlit("outputSchema");
    reveal_strlit("type");
    reveal_strlit("text");
    assert("input"@[0] == 'i' && "model"@[0] == 'm');
    assert("type"@[1] == 'y' && "text"@[1] == 'e');
    assert("threadId"@.len() == 8 && "input"@.len() == 5 && "model"@.len() == 5);
    assert("effort"@.len() == 6 && "outputSchema"@.len() == 12);
    let params = json_of(step->Request_params);
    assert(params.member("input"@) is Array);
    assert(params.member("model"@) == Json::Text(request.model@));
}

/// Once the server has taken the turn on, its end is awaited, and the turn is known by
/// the name that the answer gives it. A refusal ends the turn.
pub proof fn turns_are_awaited_once_taken_on(
    answer: Result<Value, Error>,
    termination: Termination,
    step: TurnStep,
)
    ensures
        forall|thread: &mut CodexThread| #[trigger]
            call_ensures(CodexThread::turn_started, (thread, answer, &termination), step) ==> {
                &&& final(thread).thread_id == (*thread).thread_id
                &&& final(thread).process == (*thread).process
                &&& final(thread).usage == (*thread).usage
                &&& match answer {
                    Ok(result) => {
                        &&& step is WaitFor
                        &&& step->WaitFor_method@ == "turn/completed"@
                        &&& match json_of(result).member("turn"@).member("id"@) {
                            Json::Text(id) => {
                                &&& final(thread).active_turn_id is Some
                                &&& final(thread).active_turn_id->Some_0@ == id
                            },
                            _ => final(thread).active_turn_id is None,
                        }
                    },
                    Err(error) => {
                        &&& step is Finished
                        &&& step->Finished_0 is Err
                        &&& step->Finished_0->Err_0@ == (if termination.requested() {
                            seq![Reason::Interrupted] + error@
                        } else {
                            error@
                        })
                        &&& match (*thread).active_turn_id {
                            Some(id) => {
                                &&& final(thread).active_turn_id is Some
                                &&& final(thread).active_turn_id->Some_0@ == id@
                            },
                            None => final(thread).active_turn_id is None,
                        }
                    },
                }
            },
{
}

/// The report on the turn is read from the announcement that it is completed, and the
/// turn is over. Where the announcement could not be had, the turn has failed, and is
/// still to be broken off.
pub proof fn completed_turns_are_reported(
    notification: Result<Value, Error>,
    termination: Termination,
    step: TurnStep,
)
    ensures
        forall|thread: &mut CodexThread| #[trigger]
            call_ensures(
                CodexThread::turn_completed,
                (thread, notification, &termination),
                step,
            ) ==> {
                &&& final(thread).thread_id == (*thread).thread_id
                &&& final(thread).process == (*thread).process
                &&& final(thread).usage == (*thread).usage
                &&& match notification {
                    Ok(message) => {
                        &&& step is DecodeTurn
                        &&& json_of(step->DecodeTurn_0) == json_of(message).member(
                            "params"@,
                        ).member("turn"@)
                        &&& final(thread).active_turn_id is None
                    },
                    Err(error) => {
                        &&& step is Finished
                        &&& step->Finished_0 is Err
                        &&& step->Finished_0->Err_0@ == (if termination.requested() {
                            seq![Reason::Interrupted] + error@
                        } else {
                            error@
                        })
                        &&& match (*thread).active_turn_id {
                            Some(id) => {
                                &&& final(thread).active_turn_id is Some
                                &&& final(thread).active_turn_id->Some_0@ == id@
                            },
                            None => final(thread).active_turn_id is None,
                        }
                    },
                }
            },
{
}

/// The text in which the response is looked for, in a turn that was completed, is that
/// of the last agent message, whatever came before it and whatever else after it.
pub proof fn responses_stand_in_the_last_agent_message(
    turn: Turn,
    earlier: Seq<TurnItem>,
    id: String,
    text: String,
    later: Seq<TurnItem>,
    found: Result<String, Error>,
)
    requires
        call_ensures(response_text, (&turn,), found),
        turn.status is Completed,
        turn.items@ == earlier.push(TurnItem::AgentMessage { id, text }) + later,
        forall|i: int| 0 <= i < later.len() ==> #[trigger] later[i] !is AgentMessage,
    ensures
        found is Ok,
        found->Ok_0@ == text@,
{
    assert forall|i: int| 0 <= i < later.len() implies #[trigger] later[i] is Other by {
        assert(later[i] !is AgentMessage);
    }
    last_agent_message_counts(earlier, id, text, later);
}

/// A turn has no response if it was not completed, or if the worker said nothing in it;
/// and each time the reason is told.
pub proof fn turns_without_a_response_tell_why(turn: Turn, found: Result<String, Error>)
    requires
        call_ensures(response_text, (&turn,), found),
    ensures
        match turn.status {
            TurnStatus::Completed => (forall|i: int|
                0 <= i < turn.items@.len() ==> #[trigger] turn.items@[i] !is AgentMessage) ==> {
                &&& found is Err
                &&& found->Err_0@ == seq![Reason::Message("turn contains no agent message"@)]
            },
            TurnStatus::Failed => {
                &&& found is Err
                &&& found->Err_0@ == seq![
                    Reason::Message(
                        "turn "@ + turn.id@ + " failed: "@ + json_text(
                            if turn.error is Some {
                                json_of(turn.error->Some_0)
                            } else {
                                Json::Null
                            },
                        ),
                    ),
                ]
            },
            TurnStatus::Interrupted => {
                &&& found is Err
                &&& found->Err_0@ == seq![
                    Reason::Message("turn "@ + turn.id@ + " was interrupted"@),
                ]
            },
            TurnStatus::InProgress => {
                &&& found is Err
                &&& found->Err_0@ == seq![
                    Reason::Message(
                        "turn "@ + turn.id@ + " is still in progress after turn/completed"@,
                    ),
                ]
            },
        },
{
    if forall|i: int|
        0 <= i < turn.items@.len() ==> #[trigger] turn.items@[i] !is AgentMessage {
        lemma_nothing_said(turn.items@);
    }
}

proof fn lemma_nothing_said(items: Seq<TurnItem>)
    requires
        forall|i: int| 0 <= i < items.len() ==> #[trigger] items[i] !is AgentMessage,
    ensures
        last_agent_text(items) is None,
    decreases items.len(),
{
    if items.len() > 0 {
        assert(items[items.len() - 1] !is AgentMessage);
        let earlier = items.drop_last();
        assert forall|i: int| 0 <= i < earlier.len() implies #[trigger] earlier[i]
            !is AgentMessage by {
            assert(items[i] !is AgentMessage);
        }
        lemma_nothing_said(earlier);
    }
}

/// Of the items of a turn, the last that is an agent message is found, and nothing is
/// found only where there is none.
pub proof fn the_last_agent_message_is_found(
    items: Vec<TurnItem>,
    found: Option<&str>,
    i: int,
)
    requires
        call_ensures(last_agent_message, (&items,), found),
        0 <= i < items@.len(),
        items@[i] is AgentMessage,
        forall|j: int| i < j < items@.len() ==> #[trigger] items@[j] !is AgentMessage,
    ensures
        found is Some,
        found->Some_0@ == items@[i]->text@,
{
    let earlier = items@.take(i);
    let later = items@.skip(i + 1);
    assert(items@ =~= earlier.push(items@[i]) + later);
    assert forall|j: int| 0 <= j < later.len() implies #[trigger] later[j] is Other by {
        assert(items@[j + i + 1] !is AgentMessage);
    }
    last_agent_message_counts(earlier, items@[i]->id, items@[i]->text, later);
}

/// Once the report was read, its usage is noted, and its response is read from the text
/// that was found in it; a report without one, or one that could not be read, fails the
/// turn.
pub proof fn reports_lead_to_their_response(
    turn: Result<Turn, Error>,
    found: Result<String, Error>,
    notifications: VecDeque<Value>,
    turn_id: &str,
    usage: Option<TokenUsage>,
    termination: Termination,
    step: TurnStep,
)
    requires
        turn is Ok ==> call_ensures(response_text, (&turn->Ok_0,), found),
        turn is Ok ==> turn_id@ == turn->Ok_0.id@,
        call_ensures(token_usage, (&notifications, turn_id), usage),
    ensures
        forall|thread: &mut CodexThread| #[trigger]
            call_ensures(CodexThread::turn_decoded, (thread, turn, &termination), step) ==> {
                &&& final(thread).thread_id == (*thread).thread_id
                &&& final(thread).process == (*thread).process
                &&& final(thread).active_turn_id == (*thread).active_turn_id
                &&& match turn {
                    Ok(_) => {
                        &&& (*thread).process.pending_notifications == notifications
                            ==> final(thread).usage == usage
                        &&& match found {
                            Ok(text) => step is DecodeResponse && step->DecodeResponse_0@ == text@,
                            Err(error) => {
                                &&& step is Finished
                                &&& step->Finished_0 is Err
                                &&& step->Finished_0->Err_0@ == (if termination.requested() {
                                    seq![Reason::Interrupted] + error@
                                } else {
                                    error@
                                })
                            },
                        }
                    },
                    Err(error) => {
                        &&& final(thread).usage == (*thread).usage
                        &&& step is Finished
                        &&& step->Finished_0 is Err
                        &&& step->Finished_0->Err_0@ == (if termination.requested() {
                            seq![Reason::Interrupted] + error@
                        } else {
                            error@
                        })
                    },
                }
            },
{
}

/// The response that was read is what the turn gives; one that could not be read fails
/// the turn.
pub proof fn turns_give_the_response_that_was_read(
    thread: CodexThread,
    response: Result<WorkerResponse, Error>,
    termination: Termination,
    step: TurnStep,
)
    requires
        call_ensures(CodexThread::response_decoded, (&thread, response, &termination), step),
    ensures
        step is Finished,
        match response {
            Ok(response) => step->Finished_0 is Ok && step->Finished_0->Ok_0 == response,
            Err(error) => {
                &&& step->Finished_0 is Err
                &&& step->Finished_0->Err_0@ == (if termination.requested() {
                    seq![Reason::Interrupted] + error@
                } else {
                    error@
                })
            },
        },
{
}

/// The end of a thread begins with its active turn, if it has one; a thread without one
/// is closed at once. Either way no turn is active from there on.
pub proof fn ending_begins_with_the_active_turn(step: ShutdownStep)
    ensures
        forall|thread: &mut CodexThread| #[trigger]
            call_ensures(CodexThread::shutdown, (thread,), step) ==> {
                &&& final(thread).active_turn_id is None
                &&& final(thread).thread_id == (*thread).thread_id
                &&& final(thread).usage == (*thread).usage
                &&& match (*thread).active_turn_id {
                    Some(turn_id) => {
                        &&& step is Probe
                        &&& step->turn_id@ == turn_id@
                        &&& final(thread).process == (*thread).process
                    },
                    None => {
                        &&& step is Close
                        &&& step->interruption is Ok
                        &&& !final(thread).process.stdin_open
                    },
                }
            },
{
}

/// A server that still runs is asked to break the turn off, by the names of the thread
/// and of the turn; one that is gone is closed.
pub proof fn running_servers_are_asked_to_break_off(
    turn_id: String,
    running: bool,
    step: ShutdownStep,
)
    ensures
        forall|thread: &mut CodexThread| #[trigger]
            call_ensures(CodexThread::probed, (thread, turn_id, running), step) ==> {
                &&& final(thread).thread_id == (*thread).thread_id
                &&& final(thread).usage == (*thread).usage
                &&& running ==> {
                    let params = json_of(step->params);
                    &&& step is Interrupt
                    &&& step->method@ == "turn/interrupt"@
                    &&& params.member("threadId"@) == Json::Text((*thread).thread_id.0@)
                    &&& params.member("turnId"@) == Json::Text(turn_id@)
                    &&& final(thread).process == (*thread).process
                }
                &&& !running ==> {
                    &&& step is Close
                    &&& step->interruption is Ok
                    &&& !final(thread).process.stdin_open
                }
            },
{
    reveal_strlit("threadId");
    reveal_strlit("turnId");
    assert("threadId"@.len() != "turnId"@.len());
}

/// Whether or not the turn could be broken off, the server is closed next, and a refusal
/// is kept for the end.
pub proof fn refusals_to_break_off_are_kept(answer: Result<Value, Error>, step: ShutdownStep)
    ensures
        forall|thread: &mut CodexThread| #[trigger]
            call_ensures(CodexThread::interrupted, (thread, answer), step) ==> {
                &&& final(thread).thread_id == (*thread).thread_id
                &&& final(thread).usage == (*thread).usage
                &&& !final(thread).process.stdin_open
                &&& step is Close
                &&& match answer {
                    Ok(_) => step->interruption is Ok,
                    Err(error) => {
                        &&& step->interruption is Err
                        &&& step->interruption->Err_0@ == error@
                    },
                }
            },
{
}

/// A thread has ended well exactly if its server exited and its turn did not have to be
/// broken off in vain. Of two failures that of the exit is told. No child is left.
pub proof fn threads_end_well_if_both_parts_do(
    thread: CodexThread,
    interruption: Result<(), Error>,
    exit: Result<(), Error>,
    outcome: Result<(), Error>,
)
    ensures
        forall|termination: &mut Termination| #[trigger]
            call_ensures(
                CodexThread::closed,
                (&thread, interruption, exit, termination),
                outcome,
            ) ==> {
                &&& outcome is Ok <==> interruption is Ok && exit is Ok
                &&& exit is Err ==> outcome->Err_0 == exit->Err_0
                &&& exit is Ok && interruption is Err ==> outcome->Err_0 == interruption->Err_0
                &&& final(termination).child() is None
                &&& final(termination).requested() == (*termination).requested()
            },
{
}

/// A new thread is what it was made from, and what a thread tells of itself is what was
/// noted in it.
pub proof fn threads_tell_what_was_noted(
    process: CodexProcess,
    thread_id: ThreadId,
    fresh: CodexThread,
    thread: CodexThread,
    name: &ThreadId,
    metrics: WorkerMetrics,
)
    requires
        call_ensures(CodexThread::new, (process, thread_id), fresh),
        call_ensures(CodexThread::thread_id, (&thread,), name),
        call_ensures(CodexThread::metrics, (&thread,), metrics),
    ensures
        fresh.process == process,
        fresh.thread_id == thread_id,
        fresh.active_turn_id is None,
        fresh.usage is None,
        *name == thread.thread_id,
        metrics.usage == thread.usage,
        metrics.startup_milliseconds == Some(thread.process.startup_milliseconds),
{
}

} // verus!
