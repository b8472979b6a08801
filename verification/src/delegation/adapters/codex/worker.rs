//! Getting a codex app server ready, and opening a thread on it.

use crate::delegation::adapters::codex::process::{seen, CodexProcess};
use crate::delegation::application::{Mode, ThreadId, WorkerRequest};
use crate::error::{causes_of, chain_text, just, wrapped, Cause, Error, Reason};
use crate::json::{
    as_text, bool_value, empty_object, json_of, member, set_member, text_value, Json,
};
use crate::termination::Termination;
use serde_json::Value;
use vstd::prelude::*;

verus! {

/// What has to be done next for a server to become ready.
#[derive(Debug)]
pub enum SpawnStep {
    /// Send this request and await its answer.
    Request { method: &'static str, params: Value },
    /// Send this notification.
    Notify { method: &'static str, params: Value },
    /// The server is ready, or it could not be made so.
    Finished(Result<(), Error>),
}

/// What a [`SpawnStep`] asks for.
pub enum SpawnNext {
    Request(Seq<char>, Json),
    Notify(Seq<char>, Json),
    Finished(Result<(), Seq<Reason>>),
}

impl View for SpawnStep {
    type V = SpawnNext;

    open spec fn view(&self) -> SpawnNext {
        match self {
            SpawnStep::Request { method, params } => SpawnNext::Request(method@, json_of(*params)),
            SpawnStep::Notify { method, params } => SpawnNext::Notify(method@, json_of(*params)),
            SpawnStep::Finished(outcome) => SpawnNext::Finished(causes_of(*outcome)),
        }
    }
}

/// How the client introduces itself.
pub open spec fn initialize_params(version: Seq<char>) -> Json {
    Json::Object(
        map![
            "clientInfo"@ => Json::Object(
                map!["name"@ => Json::Text("henmen"@), "version"@ => Json::Text(version)],
            ),
        ],
    )
}

/// What follows the answer to the introduction.
pub open spec fn next_after_introduction(answer: Result<Json, Seq<Reason>>) -> SpawnNext {
    match answer {
        Ok(_) => SpawnNext::Notify("initialized"@, Json::Object(Map::empty())),
        Err(causes) => SpawnNext::Finished(Err(causes)),
    }
}

/// What came of getting a server ready, from what came of each step.
pub open spec fn spawn_outcome(
    answer: Result<Json, Seq<Reason>>,
    sent: Result<(), Seq<Reason>>,
) -> Result<(), Seq<Reason>> {
    match next_after_introduction(answer) {
        SpawnNext::Finished(outcome) => outcome,
        _ => sent,
    }
}

/// A server is ready exactly if it answered the introduction and was told so; else
/// the first thing that went wrong is what is told.
pub proof fn servers_are_ready_once_introduced(
    answer: Result<Json, Seq<Reason>>,
    sent: Result<(), Seq<Reason>>,
)
    ensures
        spawn_outcome(answer, sent) is Ok <==> answer is Ok && sent is Ok,
        answer is Err ==> spawn_outcome(answer, sent) is Err && spawn_outcome(answer, sent)->Err_0
            == answer->Err_0,
        answer is Ok ==> spawn_outcome(answer, sent) == sent,
{
}

impl CodexProcess {
    /// Begins the conversation with a server that was just started.
    pub fn spawn(version: &str) -> (begun: (CodexProcess, SpawnStep))
        ensures
            begun.0.next_request_id == 0,
            begun.0.pending_notifications@ == Seq::<Value>::empty(),
            begun.0.stdin_open,
            begun.0.startup_milliseconds == 0,
            begun.1@ == SpawnNext::Request("initialize"@, initialize_params(version@)),
    {
        let mut client: Value = empty_object();
        set_member(&mut client, "name", text_value("henmen"));
        set_member(&mut client, "version", text_value(version));
        let mut params: Value = empty_object();
        set_member(&mut params, "clientInfo", client);
        (CodexProcess::new(), SpawnStep::Request { method: "initialize", params })
    }

    /// Goes on once the server has answered the introduction.
    pub fn initialized(&self, answer: Result<Value, Error>) -> (step: SpawnStep)
        ensures
            step@ == next_after_introduction(seen(answer)),
    {
        match answer {
            Ok(_) => SpawnStep::Notify { method: "initialized", params: empty_object() },
            Err(error) => SpawnStep::Finished(Err(error)),
        }
    }

    /// Ends the introduction once the notification was sent, and notes how long
    /// the server took to become ready.
    pub fn ready(&mut self, sent: Result<(), Error>, elapsed_milliseconds: u64) -> (step: SpawnStep)
        ensures
            step@ == SpawnNext::Finished(causes_of(sent)),
            final(self).next_request_id == old(self).next_request_id,
            final(self).pending_notifications == old(self).pending_notifications,
            final(self).stdin_open == old(self).stdin_open,
            final(self).startup_milliseconds == (if sent is Ok {
                elapsed_milliseconds
            } else {
                old(self).startup_milliseconds
            }),
    {
        if sent.is_ok() {
            self.startup_milliseconds = elapsed_milliseconds;
        }
        SpawnStep::Finished(sent)
    }
}

/// What the server may do in each mode.
pub open spec fn sandbox_mode(mode: Mode) -> Seq<char> {
    match mode {
        Mode::Inspect => "read-only"@,
        Mode::Edit => "workspace-write"@,
    }
}

/// What the server may do in each mode.
pub fn to_codex_sandbox_mode(mode: Mode) -> (sandbox: &'static str)
    ensures
        sandbox@ == sandbox_mode(mode),
{
    match mode {
        Mode::Inspect => "read-only",
        Mode::Edit => "workspace-write",
    }
}

/// The thread to open.
#[derive(Debug)]
pub enum ThreadOpening {
    /// A fresh one.
    Start { cwd: String, mode: Mode },
    /// One that exists.
    Resume { thread_id: ThreadId, cwd: String, mode: Mode },
}

/// The features that a thread goes without.
pub open spec fn thread_config() -> Json {
    Json::Object(
        map![
            "features"@ => Json::Object(
                map!["memories"@ => Json::Bool(false), "plugins"@ => Json::Bool(false)],
            ),
        ],
    )
}

impl ThreadOpening {
    /// The request that opens the thread.
    pub open spec fn method(self) -> Seq<char> {
        match self {
            ThreadOpening::Start { .. } => "thread/start"@,
            ThreadOpening::Resume { .. } => "thread/resume"@,
        }
    }

    /// Its parameters.
    pub open spec fn params(self) -> Json {
        match self {
            ThreadOpening::Start { cwd, mode } => Json::Object(
                map![
                    "config"@ => thread_config(),
                    "cwd"@ => Json::Text(cwd@),
                    "sandbox"@ => Json::Text(sandbox_mode(mode)),
                    "approvalPolicy"@ => Json::Text("never"@),
                ],
            ),
            ThreadOpening::Resume { thread_id, cwd, mode } => Json::Object(
                map![
                    "config"@ => thread_config(),
                    "threadId"@ => Json::Text(thread_id.0@),
                    "cwd"@ => Json::Text(cwd@),
                    "sandbox"@ => Json::Text(sandbox_mode(mode)),
                    "approvalPolicy"@ => Json::Text("never"@),
                ],
            ),
        }
    }

    /// The name of the thread that an answer has opened; or why it has opened none.
    /// A fresh thread is named by the server, one that exists keeps its name.
    pub open spec fn opened(self, answer: Result<Json, Seq<Reason>>) -> Result<
        Seq<char>,
        Seq<Reason>,
    > {
        match (self, answer) {
            (_, Err(causes)) => Err(causes),
            (ThreadOpening::Start { .. }, Ok(result)) => match result.member("thread"@).member(
                "id"@,
            ).as_text() {
                Some(id) => Ok(id),
                None => Err(just("thread/start returned no thread id"@)),
            },
            (ThreadOpening::Resume { thread_id, .. }, Ok(_)) => Ok(thread_id.0@),
        }
    }
}

/// What has to be done next for a thread to be opened.
#[derive(Debug)]
pub enum StartStep {
    /// Send this request and await its answer.
    Request { opening: ThreadOpening, method: &'static str, params: Value },
    /// Close the server's input and wait until it has exited.
    ShutDown(Error),
    /// The thread is open, or it could not be opened.
    Finished(Result<ThreadId, Error>),
}

/// What a [`StartStep`] asks for.
pub enum StartNext {
    Request(ThreadOpening, Seq<char>, Json),
    ShutDown(Seq<Reason>),
    Finished(Result<Seq<char>, Seq<Reason>>),
}

impl View for StartStep {
    type V = StartNext;

    open spec fn view(&self) -> StartNext {
        match self {
            StartStep::Request { opening, method, params } => StartNext::Request(
                *opening,
                method@,
                json_of(*params),
            ),
            StartStep::ShutDown(error) => StartNext::ShutDown(error@),
            StartStep::Finished(Ok(thread_id)) => StartNext::Finished(Ok(thread_id.0@)),
            StartStep::Finished(Err(error)) => StartNext::Finished(Err(error@)),
        }
    }
}

/// What follows once the server was started, or could not be.
pub open spec fn next_after_spawn(
    opening: ThreadOpening,
    spawned: Result<u32, Seq<Reason>>,
) -> StartNext {
    match spawned {
        Ok(_) => StartNext::Request(opening, opening.method(), opening.params()),
        Err(causes) => StartNext::Finished(Err(causes)),
    }
}

/// What follows the answer to the request that opens the thread.
pub open spec fn next_after_opening(
    opening: ThreadOpening,
    answer: Result<Json, Seq<Reason>>,
) -> StartNext {
    match opening.opened(answer) {
        Ok(id) => StartNext::Finished(Ok(id)),
        Err(causes) => StartNext::ShutDown(causes),
    }
}

/// The failure to open a thread, once the server was shut down after it.
pub open spec fn failure_after_shutdown(
    causes: Seq<Reason>,
    exit: Result<(), Seq<Reason>>,
) -> Seq<Reason> {
    match exit {
        Ok(_) => causes,
        Err(exit_causes) => wrapped(
            Reason::Message(
                chain_text(causes) + " (additionally, the worker shutdown failed: "@ + chain_text(
                    exit_causes,
                ) + ")"@,
            ),
            causes,
        ),
    }
}

/// What opens threads. It keeps track of the server that is running.
#[derive(Debug)]
pub struct CodexWorker {
    pub termination: Termination,
}

impl CodexWorker {
    /// A worker that has started no server.
    pub fn new(termination: Termination) -> (worker: CodexWorker)
        ensures
            worker.termination == termination,
    {
        CodexWorker { termination }
    }

    /// Begins to open a fresh thread: a server is to be started for it.
    pub fn start(&self, request: &WorkerRequest) -> (opening: ThreadOpening)
        ensures
            opening == (ThreadOpening::Start { cwd: request.cwd, mode: request.mode }),
    {
        ThreadOpening::Start { cwd: request.cwd.clone(), mode: request.mode }
    }

    /// Begins to open a thread that exists: a server is to be started for it.
    pub fn resume(&self, thread_id: &ThreadId, request: &WorkerRequest) -> (opening: ThreadOpening)
        ensures
            opening == (ThreadOpening::Resume {
                thread_id: *thread_id,
                cwd: request.cwd,
                mode: request.mode,
            }),
    {
        ThreadOpening::Resume {
            thread_id: ThreadId(thread_id.0.clone()),
            cwd: request.cwd.clone(),
            mode: request.mode,
        }
    }

    /// Goes on once the server is ready, or could not be made so, and notes its
    /// process.
    pub fn spawned(&mut self, opening: ThreadOpening, spawned: Result<u32, Error>) -> (step:
        StartStep)
        ensures
            step@ == next_after_spawn(opening, causes_of(spawned)),
            final(self).termination.requested() == old(self).termination.requested(),
            final(self).termination.child() == (match spawned {
                Ok(0) => None::<u32>,
                Ok(process_id) => Some(process_id),
                Err(_) => old(self).termination.child(),
            }),
    {
        match spawned {
            Err(error) => StartStep::Finished(Err(error)),
            Ok(process_id) => {
                self.termination.set_child_process_id(process_id);
                let mut features: Value = empty_object();
                set_member(&mut features, "memories", bool_value(false));
                set_member(&mut features, "plugins", bool_value(false));
                let mut config: Value = empty_object();
                set_member(&mut config, "features", features);
                let mut params: Value = empty_object();
                set_member(&mut params, "config", config);
                let method: &'static str = match &opening {
                    ThreadOpening::Start { cwd, mode } => {
                        set_member(&mut params, "cwd", text_value(cwd.as_str()));
                        set_member(
                            &mut params,
                            "sandbox",
                            text_value(to_codex_sandbox_mode(*mode)),
                        );
                        "thread/start"
                    },
                    ThreadOpening::Resume { thread_id, cwd, mode } => {
                        set_member(&mut params, "threadId", text_value(thread_id.0.as_str()));
                        set_member(&mut params, "cwd", text_value(cwd.as_str()));
                        set_member(
                            &mut params,
                            "sandbox",
                            text_value(to_codex_sandbox_mode(*mode)),
                        );
                        "thread/resume"
                    },
                };
                set_member(&mut params, "approvalPolicy", text_value("never"));
                StartStep::Request { opening, method, params }
            },
        }
    }

    /// Goes on once the server has answered whether it opens the thread.
    pub fn opened(&self, opening: ThreadOpening, answer: Result<Value, Error>) -> (step: StartStep)
        ensures
            step@ == next_after_opening(opening, seen(answer)),
    {
        match answer {
            Err(error) => StartStep::ShutDown(error),
            Ok(result) => match opening {
                ThreadOpening::Start { .. } => match as_text(
                    member(member(&result, "thread"), "id"),
                ) {
                    Some(id) => StartStep::Finished(Ok(ThreadId(id.to_owned()))),
                    None => StartStep::ShutDown(
                        Error::message("thread/start returned no thread id".to_owned()),
                    ),
                },
                ThreadOpening::Resume { thread_id, .. } => StartStep::Finished(Ok(thread_id)),
            },
        }
    }

    /// Gives up on a thread once the server has exited, or could not be waited for.
    pub fn shutdown_after_error(&mut self, error: Error, exit: Result<(), Error>) -> (failure: Error)
        ensures
            failure@ == failure_after_shutdown(error@, causes_of(exit)),
            final(self).termination.child() is None,
            final(self).termination.requested() == old(self).termination.requested(),
    {
        self.termination.clear_child_process_id();
        match exit {
            Ok(_) => error,
            Err(exit_error) => {
                let mut text: String = error.describe();
                text.append(" (additionally, the worker shutdown failed: ");
                text.append(exit_error.describe().as_str());
                text.append(")");
                error.context(Cause::Message(text))
            },
        }
    }
}

/// The outcome of opening a thread, from what came of each step that it asked for.
pub open spec fn start_outcome(
    opening: ThreadOpening,
    spawned: Result<u32, Seq<Reason>>,
    answer: Result<Json, Seq<Reason>>,
    exit: Result<(), Seq<Reason>>,
) -> Result<Seq<char>, Seq<Reason>> {
    match spawned {
        Err(causes) => Err(causes),
        Ok(_) => match opening.opened(answer) {
            Ok(id) => Ok(id),
            Err(causes) => Err(failure_after_shutdown(causes, exit)),
        },
    }
}

/// A thread that exists is opened under the name it has, and a fresh one under
/// the name that the server gave it. Opening fails exactly if the server could not
/// be started, turned the request down, or named no thread.
pub proof fn threads_are_opened_under_their_names(
    opening: ThreadOpening,
    spawned: Result<u32, Seq<Reason>>,
    answer: Result<Json, Seq<Reason>>,
    exit: Result<(), Seq<Reason>>,
)
    ensures
        next_after_spawn(opening, spawned) is Finished ==> next_after_spawn(opening, spawned)
            == StartNext::Finished(start_outcome(opening, spawned, answer, exit)),
        spawned is Ok && next_after_opening(opening, answer) is Finished ==> next_after_opening(
            opening,
            answer,
        ) == StartNext::Finished(start_outcome(opening, spawned, answer, exit)),
        start_outcome(opening, spawned, answer, exit) is Ok <==> {
            &&& spawned is Ok
            &&& answer is Ok
            &&& opening is Start ==> answer->Ok_0.member("thread"@).member("id"@) is Text
        },
        start_outcome(opening, spawned, answer, exit) is Ok ==> start_outcome(
            opening,
            spawned,
            answer,
            exit,
        )->Ok_0 == (match opening {
            ThreadOpening::Start { .. } => answer->Ok_0.member("thread"@).member("id"@)->Text_0,
            ThreadOpening::Resume { thread_id, .. } => thread_id.0@,
        }),
{
}

/// Whatever went wrong first stays the root of the failure: that the server could
/// not be shut down after it only adds to it.
pub proof fn shutdown_trouble_does_not_hide_the_failure(
    causes: Seq<Reason>,
    exit: Result<(), Seq<Reason>>,
)
    requires
        causes.len() > 0,
    ensures
        failure_after_shutdown(causes, exit).last() == causes.last(),
        failure_after_shutdown(causes, exit).contains(Reason::Interrupted) <==> causes.contains(
            Reason::Interrupted,
        ),
{
    if exit is Err {
        let message = failure_after_shutdown(causes, exit)[0];
        crate::error::context_keeps_interruption(message, causes);
    }
}

/// A thread that is opened to inspect may not write, whether it is fresh or not;
/// one that is opened to edit may write in its workspace.
pub proof fn inspecting_is_read_only(opening: ThreadOpening)
    ensures
        opening matches ThreadOpening::Start { mode, .. } ==> opening.params().member("sandbox"@)
            == Json::Text(
            if mode == Mode::Inspect {
                "read-only"@
            } else {
                "workspace-write"@
            },
        ),
        opening matches ThreadOpening::Resume { mode, .. } ==> opening.params().member("sandbox"@)
            == Json::Text(
            if mode == Mode::Inspect {
                "read-only"@
            } else {
                "workspace-write"@
            },
        ),
        "read-only"@ != "workspace-write"@,
{
    reveal_strlit("sandbox");
    reveal_strlit("approvalPolicy");
    reveal_strlit("read-only");
    reveal_strlit("workspace-write");
    assert("sandbox"@.len() != "approvalPolicy"@.len());
    assert("read-only"@.len() != "workspace-write"@.len());
}

/// A conversation begins with the introduction, under the name of this program and in
/// its version, in a state in which nothing has been sent or received.
pub proof fn servers_are_introduced_to_the_client(version: &str, begun: (CodexProcess, SpawnStep))
    requires
        call_ensures(CodexProcess::spawn, (version,), begun),
    ensures
        begun.0.next_request_id == 0,
        begun.0.pending_notifications@.len() == 0,
        begun.0.stdin_open,
        begun.1 is Request,
        begun.1->Request_method@ == "initialize"@,
        json_of(begun.1->Request_params).member("clientInfo"@).member("name"@) == Json::Text(
            "henmen"@,
        ),
        json_of(begun.1->Request_params).member("clientInfo"@).member("version"@) == Json::Text(
            version@,
        ),
{
    reveal_strlit("name");
    reveal_strlit("version");
    assert("name"@.len() != "version"@.len());
}

/// A server that has answered the introduction is told that it is complete, with nothing
/// added; one that has refused it is given up, for its own reason.
pub proof fn introductions_are_completed(
    process: CodexProcess,
    answer: Result<Value, Error>,
    step: SpawnStep,
)
    requires
        call_ensures(CodexProcess::initialized, (&process, answer), step),
    ensures
        match answer {
            Ok(_) => {
                &&& step is Notify
                &&& step->Notify_method@ == "initialized"@
                &&& json_of(step->Notify_params) is Object
                &&& forall|key: Seq<char>| !#[trigger] json_of(step->Notify_params).has_member(key)
            },
            Err(error) => {
                &&& step is Finished
                &&& step->Finished_0 is Err
                &&& step->Finished_0->Err_0@ == error@
            },
        },
{
}

/// Once that was told, the server is ready, and how long it took is noted.
pub proof fn startup_times_are_noted(sent: Result<(), Error>, elapsed: u64, step: SpawnStep)
    ensures
        forall|process: &mut CodexProcess| #[trigger]
            call_ensures(CodexProcess::ready, (process, sent, elapsed), step) ==> {
                &&& step is Finished
                &&& final(process).pending_notifications == (*process).pending_notifications
                &&& final(process).next_request_id == (*process).next_request_id
                &&& final(process).stdin_open == (*process).stdin_open
                &&& match sent {
                    Ok(_) => {
                        &&& step->Finished_0 is Ok
                        &&& final(process).startup_milliseconds == elapsed
                    },
                    Err(error) => {
                        &&& step->Finished_0 is Err
                        &&& step->Finished_0->Err_0@ == error@
                    },
                }
            },
{
}

/// A fresh thread is asked for as such, in the directory and in the mode of the request,
/// without anybody being asked for approval, and without the features that a thread
/// goes without.
pub proof fn fresh_threads_are_asked_for(
    worker: CodexWorker,
    request: WorkerRequest,
    opening: ThreadOpening,
    process_id: u32,
    step: StartStep,
)
    requires
        call_ensures(CodexWorker::start, (&worker, &request), opening),
    ensures
        forall|during: &mut CodexWorker| #[trigger]
            call_ensures(CodexWorker::spawned, (during, opening, Ok(process_id)), step) ==> {
                let params = json_of(step->params);
                &&& step is Request
                &&& step->opening == opening
                &&& step->method@ == "thread/start"@
                &&& params.member("cwd"@) == Json::Text(request.cwd@)
                &&& params.member("sandbox"@) == Json::Text(
                    match request.mode {
                        Mode::Inspect => "read-only"@,
                        Mode::Edit => "workspace-write"@,
                    },
                )
                &&& params.member("approvalPolicy"@) == Json::Text("never"@)
                &&& params.member("config"@).member("features"@).member("memories"@) == Json::Bool(
                    false,
                )
                &&& params.member("config"@).member("features"@).member("plugins"@) == Json::Bool(
                    false,
                )
                &&& !params.has_member("threadId"@)
            },
{
    lemma_names_of_parameters();
}

/// A thread that exists is asked for by its name, in the directory and in the mode of
/// the new request, and otherwise as a fresh one is.
pub proof fn existing_threads_are_asked_for_by_name(
    worker: CodexWorker,
    thread_id: ThreadId,
    request: WorkerRequest,
    opening: ThreadOpening,
    process_id: u32,
    step: StartStep,
)
    requires
        call_ensures(CodexWorker::resume, (&worker, &thread_id, &request), opening),
    ensures
        forall|during: &mut CodexWorker| #[trigger]
            call_ensures(CodexWorker::spawned, (during, opening, Ok(process_id)), step) ==> {
                let params = json_of(step->params);
                &&& step is Request
                &&& step->opening == opening
                &&& step->method@ == "thread/resume"@
                &&& params.member("threadId"@) == Json::Text(thread_id.0@)
                &&& params.member("cwd"@) == Json::Text(request.cwd@)
                &&& params.member("sandbox"@) == Json::Text(
                    match request.mode {
                        Mode::Inspect => "read-only"@,
                        Mode::Edit => "workspace-write"@,
                    },
                )
                &&& params.member("approvalPolicy"@) == Json::Text("never"@)
                &&& params.member("config"@).member("features"@).member("memories"@) == Json::Bool(
                    false,
                )
                &&& params.member("config"@).member("features"@).member("plugins"@) == Json::Bool(
                    false,
                )
            },
{
    lemma_names_of_parameters();
}

/// The names of the parameters with which a thread is opened are told apart.
proof fn lemma_names_of_parameters()
    ensures
        "config"@.len() == 6,
        "threadId"@.len() == 8,
        "cwd"@.len() == 3,
        "sandbox"@.len() == 7,
        "approvalPolicy"@.len() == 14,
        "memories"@.len() == 8,
        "plugins"@.len() == 7,
{
    reveal_strlit("config");
    reveal_strlit("threadId");
    reveal_strlit("cwd");
    reveal_strlit("sandbox");
    reveal_strlit("approvalPolicy");
    reveal_strlit("memories");
    reveal_strlit("plugins");
}

/// The server that was started is the child that is running; where none was started, no
/// thread is opened, and the reason is passed on as it is.
pub proof fn started_servers_are_noted(
    opening: ThreadOpening,
    spawned: Result<u32, Error>,
    step: StartStep,
)
    ensures
        forall|worker: &mut CodexWorker| #[trigger]
            call_ensures(CodexWorker::spawned, (worker, opening, spawned), step) ==> {
                &&& final(worker).termination.requested() == (*worker).termination.requested()
                &&& match spawned {
                    Ok(process_id) => {
                        &&& step is Request
                        &&& process_id > 0 ==> final(worker).termination.child() == Some(process_id)
                    },
                    Err(error) => {
                        &&& step is Finished
                        &&& step->Finished_0 is Err
                        &&& step->Finished_0->Err_0@ == error@
                        &&& final(worker).termination.child() == (*worker).termination.child()
                    },
                }
            },
{
}

/// A thread is open under the name that the server gave it, if it is fresh, or under the
/// name it had. A server that refuses, or that names no fresh thread, is shut down.
pub proof fn answers_open_threads(
    worker: CodexWorker,
    opening: ThreadOpening,
    answer: Result<Value, Error>,
    step: StartStep,
)
    requires
        call_ensures(CodexWorker::opened, (&worker, opening, answer), step),
    ensures
        match answer {
            Err(error) => step is ShutDown && step->ShutDown_0@ == error@,
            Ok(result) => match opening {
                ThreadOpening::Resume { thread_id, .. } => {
                    &&& step is Finished
                    &&& step->Finished_0 is Ok
                    &&& step->Finished_0->Ok_0.0@ == thread_id.0@
                },
                ThreadOpening::Start { .. } => match json_of(result).member("thread"@).member(
                    "id"@,
                ) {
                    Json::Text(id) => {
                        &&& step is Finished
                        &&& step->Finished_0 is Ok
                        &&& step->Finished_0->Ok_0.0@ == id
                    },
                    _ => {
                        &&& step is ShutDown
                        &&& step->ShutDown_0@ == seq![
                            Reason::Message("thread/start returned no thread id"@),
                        ]
                    },
                },
            },
        },
{
}

/// After a thread could not be opened no child is left, and what is told is why it could
/// not: as it was, or, where the shutdown failed too, with both failures in front of it.
pub proof fn both_failures_are_told(
    error: Error,
    exit: Result<(), Error>,
    error_text: String,
    exit_text: String,
    failure: Error,
)
    requires
        call_ensures(Error::describe, (&error,), error_text),
        exit is Err ==> call_ensures(Error::describe, (&exit->Err_0,), exit_text),
    ensures
        forall|worker: &mut CodexWorker| #[trigger]
            call_ensures(CodexWorker::shutdown_after_error, (worker, error, exit), failure) ==> {
                &&& final(worker).termination.child() is None
                &&& final(worker).termination.requested() == (*worker).termination.requested()
                &&& match exit {
                    Ok(_) => failure@ == error@,
                    Err(_) => failure@ == seq![
                        Reason::Message(
                            error_text@ + " (additionally, the worker shutdown failed: "@
                                + exit_text@ + ")"@,
                        ),
                    ] + error@,
                }
            },
{
}

/// Inspecting is read-only and editing may write in the workspace, in the server's words.
pub proof fn modes_are_told_in_the_words_of_the_server(mode: Mode, sandbox: &'static str)
    requires
        call_ensures(to_codex_sandbox_mode, (mode,), sandbox),
    ensures
        mode == Mode::Inspect ==> sandbox@ == "read-only"@,
        mode == Mode::Edit ==> sandbox@ == "workspace-write"@,
{
}

} // verus!
