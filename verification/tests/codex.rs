use henmen::delegation::adapters::codex::process::{read_message, CodexProcess, Outgoing};
use henmen::delegation::adapters::codex::thread::{
    last_agent_message, response_text, CodexThread, ShutdownStep, Turn, TurnItem, TurnStatus,
    TurnStep,
};
use henmen::delegation::adapters::codex::usage::{sum_tokens, token_usage};
use henmen::delegation::adapters::codex::worker::{
    to_codex_sandbox_mode, CodexWorker, SpawnStep, StartStep,
};
use henmen::delegation::application::{
    Mode, ThreadId, TokenUsage, WorkerMetrics, WorkerRequest, WorkerResponse, WorkerStatus,
};
use henmen::error::Error;
use henmen::termination::Termination;
use serde_json::Value;
use std::collections::VecDeque;
use std::io::BufRead;

fn json(text: &str) -> Value {
    serde_json::from_str(text).expect("the test's own JSON")
}

fn next_line(reader: &mut impl BufRead) -> String {
    let mut line: String = String::new();
    reader.read_line(&mut line).expect("a byte slice can be read");
    line
}

fn failure(text: &str) -> Error {
    Error::message(text.to_string())
}

fn request(mode: Mode) -> WorkerRequest {
    WorkerRequest {
        task: "look \"around\"\nand report".to_string(),
        cwd: "/work/tree".to_string(),
        model: "gpt-5.6-luna".to_string(),
        effort: "low".to_string(),
        mode,
    }
}

fn response() -> WorkerResponse {
    WorkerResponse {
        status: WorkerStatus::Done,
        summary: "fixed".to_string(),
        evidence: vec![],
        changed_files: vec![],
        tests: vec![],
        open_questions: vec![],
    }
}

fn thread() -> CodexThread {
    CodexThread::new(CodexProcess::new(), ThreadId("thread_abc".to_string()))
}

fn turn(status: TurnStatus, items: Vec<TurnItem>, error: Option<Value>) -> Turn {
    Turn { id: "turn_1".to_string(), items, status, error }
}

fn message(id: &str, text: &str) -> TurnItem {
    TurnItem::AgentMessage { id: id.to_string(), text: text.to_string() }
}

fn stop_requested() -> Termination {
    let mut termination: Termination = Termination::new();
    termination.request();
    termination
}

#[test]
fn maps_mode_to_sandbox() {
    assert_eq!(to_codex_sandbox_mode(Mode::Inspect), "read-only");
    assert_eq!(to_codex_sandbox_mode(Mode::Edit), "workspace-write");
}

fn token_usage_update(turn_id: &str, last: (u64, u64, u64)) -> Value {
    json(&format!(
        "{{\"method\": \"thread/tokenUsage/updated\", \"params\": {{\"turnId\": \"{}\", \
         \"tokenUsage\": {{\"last\": {{\"inputTokens\": {}, \"cachedInputTokens\": {}, \
         \"outputTokens\": {}}}}}}}}}",
        turn_id, last.0, last.1, last.2
    ))
}

#[test]
fn adds_up_every_model_call_of_the_turn() {
    let notifications: VecDeque<Value> = VecDeque::from(vec![
        json(r#"{"method": "turn/started"}"#),
        token_usage_update("turn_1", (100, 0, 20)),
        token_usage_update("turn_1", (150, 64, 30)),
    ]);

    assert_eq!(
        token_usage(&notifications, "turn_1"),
        Some(TokenUsage {
            input_tokens: Some(250),
            cached_input_tokens: Some(64),
            output_tokens: Some(50),
        })
    );
}

#[test]
fn leaves_out_the_tokens_a_resumed_thread_spent_earlier() {
    let notifications: VecDeque<Value> = VecDeque::from(vec![
        token_usage_update("turn_1", (12_848, 6_000, 90)),
        token_usage_update("turn_2", (12_776, 12_672, 40)),
    ]);

    assert_eq!(
        token_usage(&notifications, "turn_2"),
        Some(TokenUsage {
            input_tokens: Some(12_776),
            cached_input_tokens: Some(12_672),
            output_tokens: Some(40),
        })
    );
}

#[test]
fn reports_no_usage_without_a_notification() {
    let notifications: VecDeque<Value> =
        VecDeque::from(vec![json(r#"{"method": "turn/completed"}"#)]);

    assert_eq!(token_usage(&notifications, "turn_1"), None);
}

#[test]
fn leaves_a_kind_of_token_open_that_one_call_does_not_tell() {
    let notifications: VecDeque<Value> = VecDeque::from(vec![
        token_usage_update("turn_1", (1, 2, 3)),
        json(
            r#"{"method": "thread/tokenUsage/updated", "params": {"turnId": "turn_1",
                "tokenUsage": {"last": {"inputTokens": 4, "cachedInputTokens": -1}}}}"#,
        ),
    ]);

    assert_eq!(
        token_usage(&notifications, "turn_1"),
        Some(TokenUsage {
            input_tokens: Some(5),
            cached_input_tokens: None,
            output_tokens: None,
        })
    );
}

#[test]
fn sums_wrap_around_in_64_bits() {
    let one: Value = json(r#"{"n": 18446744073709551615}"#);
    let other: Value = json(r#"{"n": 3}"#);
    assert_eq!(sum_tokens(&[&one], "n"), Some(u64::MAX));
    assert_eq!(sum_tokens(&[&one, &other], "n"), Some(2));
    assert_eq!(sum_tokens(&[&one, &other], "m"), None);
    assert_eq!(sum_tokens(&[], "n"), Some(0));
}

#[test]
fn reads_one_frame_per_line() {
    let mut input: &[u8] = b"{\"id\":1,\"result\":{}}\n{\"method\":\"turn/completed\"}\n";

    assert_eq!(read_message(&next_line(&mut input)).expect("a frame")["id"], 1);
    assert_eq!(
        read_message(&next_line(&mut input)).expect("a frame")["method"],
        "turn/completed"
    );
}

#[test]
fn rejects_end_of_stream() {
    let mut input: &[u8] = b"";

    let outcome: Result<Value, Error> = read_message(&next_line(&mut input));
    assert!(outcome.is_err());
    assert_eq!(outcome.expect_err("the stream has ended").describe(), "end of stream");
}

#[test]
fn rejects_a_line_that_is_no_json() {
    let error: Error = read_message("{\"id\":").expect_err("half an object");
    assert_eq!(error.describe(), "EOF while parsing a value at line 1 column 6");
}

#[test]
fn numbers_requests_from_zero_on() {
    let mut process: CodexProcess = CodexProcess::new();
    let first: Outgoing = process
        .request("model/list", json("{}"))
        .expect("the input is open");
    assert_eq!(first.request_id, 0);
    assert_eq!(
        first.line,
        r#"{"id":0,"jsonrpc":"2.0","method":"model/list","params":{}}"#
    );
    let second: Outgoing = process
        .request("a\nb", json(r#"{"x": [true, null, -3, 1.5]}"#))
        .expect("the input is open");
    assert_eq!(second.request_id, 1);
    assert_eq!(
        second.line,
        "{\"id\":1,\"jsonrpc\":\"2.0\",\"method\":\"a\\nb\",\"params\":{\"x\":[true,null,-3,1.5]}}"
    );
    assert_eq!(process.next_request_id, 2);
}

#[test]
fn writes_messages_that_read_back() {
    let mut process: CodexProcess = CodexProcess::new();
    let outgoing: Outgoing = process
        .request("turn/start", json(r#"{"text": "line\none \u0001 \"quoted\" ä"}"#))
        .expect("the input is open");
    assert!(!outgoing.line.contains('\n'));
    let message: Value = read_message(&outgoing.line).expect("what was written can be read");
    assert_eq!(message["id"], 0);
    assert_eq!(message["jsonrpc"], "2.0");
    assert_eq!(message["method"], "turn/start");
    assert_eq!(message["params"]["text"], "line\none \u{1} \"quoted\" ä");
}

#[test]
fn notifications_have_no_number() {
    let process: CodexProcess = CodexProcess::new();
    assert_eq!(
        process.notify("initialized", json("{}")).expect("the input is open"),
        r#"{"jsonrpc":"2.0","method":"initialized","params":{}}"#
    );
}

#[test]
fn a_notification_is_found_by_one_who_waits_for_it() {
    let mut process: CodexProcess = CodexProcess::new();
    let line: String = process
        .notify("turn/completed", json(r#"{"turn": 1}"#))
        .expect("the input is open");
    let message: Value = read_message(&line).expect("what was written can be read");
    assert!(process.answer(0, "turn/start", message).is_none());
    let found: Value = process
        .wait_for_notification("turn/completed")
        .expect("it was set aside");
    assert_eq!(found["params"]["turn"], 1);
}

#[test]
fn nothing_is_written_once_the_input_is_closed() {
    let mut process: CodexProcess = CodexProcess::new();
    process.shutdown();
    let error: Error = process
        .request("model/list", json("{}"))
        .expect_err("the input is closed");
    assert_eq!(error.describe(), "codex app server stdin is already closed");
    assert_eq!(process.next_request_id, 1);
    let error: Error = process
        .notify("initialized", json("{}"))
        .expect_err("the input is closed");
    assert_eq!(error.describe(), "codex app server stdin is already closed");
}

#[test]
fn sets_everything_but_the_answer_aside() {
    let mut process: CodexProcess = CodexProcess::new();
    assert!(process.answer(1, "m", json(r#"{"method": "early"}"#)).is_none());
    assert!(process.answer(1, "m", json(r#"{"id": 0, "result": 7}"#)).is_none());
    assert!(process.answer(1, "m", json(r#"{"id": "1", "result": 7}"#)).is_none());
    assert!(process.answer(1, "m", json(r#"[1]"#)).is_none());
    let answer: Value = process
        .answer(1, "m", json(r#"{"id": 1, "result": {"a": [1]}}"#))
        .expect("the answer")
        .expect("a result");
    assert_eq!(answer, json(r#"{"a": [1]}"#));
    assert_eq!(
        process.pending_notifications,
        VecDeque::from(vec![
            json(r#"{"method": "early"}"#),
            json(r#"{"id": 0, "result": 7}"#),
            json(r#"{"id": "1", "result": 7}"#),
            json("[1]"),
        ])
    );
}

#[test]
fn an_answer_without_a_result_is_null() {
    let mut process: CodexProcess = CodexProcess::new();
    let answer: Value = process
        .answer(3, "m", json(r#"{"id": 3}"#))
        .expect("the answer")
        .expect("no error");
    assert_eq!(answer, Value::Null);
}

#[test]
fn an_answer_with_an_error_is_a_refusal() {
    let mut process: CodexProcess = CodexProcess::new();
    let error: Error = process
        .answer(
            3,
            "thread/start",
            json(r#"{"id": 3, "error": {"message": "no", "code": -32600}, "result": 1}"#),
        )
        .expect("the answer")
        .expect_err("a refusal");
    assert_eq!(
        error.describe(),
        r#"codex app server rejected thread/start: {"code":-32600,"message":"no"}"#
    );
    let error: Error = process
        .answer(3, "m", json(r#"{"id": 3, "error": null}"#))
        .expect("the answer")
        .expect_err("a refusal");
    assert_eq!(error.describe(), "codex app server rejected m: null");
}

#[test]
fn finds_the_oldest_notification_that_waits() {
    let mut process: CodexProcess = CodexProcess::new();
    for text in [
        r#"{"method": "a", "n": 1}"#,
        r#"{"method": "b", "n": 2}"#,
        r#"{"method": "a", "n": 3}"#,
    ] {
        assert!(process.answer(9, "m", json(text)).is_none());
    }
    assert_eq!(process.wait_for_notification("c"), None);
    assert_eq!(
        process.wait_for_notification("b"),
        Some(json(r#"{"method": "b", "n": 2}"#))
    );
    assert_eq!(process.wait_for_notification("b"), None);
    assert_eq!(
        process.wait_for_notification("a"),
        Some(json(r#"{"method": "a", "n": 1}"#))
    );
    assert_eq!(
        process.pending_notifications,
        VecDeque::from(vec![json(r#"{"method": "a", "n": 3}"#)])
    );
}

#[test]
fn takes_a_notification_as_it_comes_in() {
    let mut process: CodexProcess = CodexProcess::new();
    assert_eq!(process.notification("turn/completed", json(r#"{"id": 4}"#)), None);
    assert_eq!(
        process.notification("turn/completed", json(r#"{"method": "turn/completed"}"#)),
        Some(json(r#"{"method": "turn/completed"}"#))
    );
    assert_eq!(process.pending_notifications, VecDeque::from(vec![json(r#"{"id": 4}"#)]));
}

#[test]
fn introduces_itself_to_the_server() {
    let (mut process, step): (CodexProcess, SpawnStep) = CodexProcess::spawn("0.1.0");
    match step {
        SpawnStep::Request { method, params } => {
            assert_eq!(method, "initialize");
            assert_eq!(
                params,
                json(r#"{"clientInfo": {"name": "henmen", "version": "0.1.0"}}"#)
            );
        }
        other => panic!("unexpected step {:?}", other),
    }
    match process.initialized(Ok(Value::Null)) {
        SpawnStep::Notify { method, params } => {
            assert_eq!(method, "initialized");
            assert_eq!(params, json("{}"));
        }
        other => panic!("unexpected step {:?}", other),
    }
    assert!(matches!(process.ready(Ok(()), 340), SpawnStep::Finished(Ok(()))));
    assert_eq!(process.startup_milliseconds, 340);
}

#[test]
fn gives_up_on_a_server_that_is_not_ready() {
    let (mut process, _): (CodexProcess, SpawnStep) = CodexProcess::spawn("0.1.0");
    match process.initialized(Err(failure("no"))) {
        SpawnStep::Finished(Err(error)) => assert_eq!(error.describe(), "no"),
        other => panic!("unexpected step {:?}", other),
    }
    match process.ready(Err(failure("broken pipe")), 340) {
        SpawnStep::Finished(Err(error)) => assert_eq!(error.describe(), "broken pipe"),
        other => panic!("unexpected step {:?}", other),
    }
    assert_eq!(process.startup_milliseconds, 0);
}

#[test]
fn starts_a_thread_and_takes_the_name_it_is_given() {
    let mut worker: CodexWorker = CodexWorker::new(Termination::new());
    let opening = worker.start(&request(Mode::Inspect));
    let opening = match worker.spawned(opening, Ok(4321)) {
        StartStep::Request { opening, method, params } => {
            assert_eq!(method, "thread/start");
            assert_eq!(
                params,
                json(
                    r#"{"config": {"features": {"memories": false, "plugins": false}},
                        "cwd": "/work/tree", "sandbox": "read-only", "approvalPolicy": "never"}"#
                )
            );
            opening
        }
        other => panic!("unexpected step {:?}", other),
    };
    assert_eq!(worker.termination.child_process_id(), Some(4321));
    match worker.opened(opening, Ok(json(r#"{"thread": {"id": "thread_abc"}}"#))) {
        StartStep::Finished(Ok(id)) => assert_eq!(id, ThreadId("thread_abc".to_string())),
        other => panic!("unexpected step {:?}", other),
    }
}

#[test]
fn resumes_a_thread_under_its_own_name() {
    let mut worker: CodexWorker = CodexWorker::new(Termination::new());
    let opening = worker.resume(&ThreadId("thread_abc".to_string()), &request(Mode::Edit));
    let opening = match worker.spawned(opening, Ok(7)) {
        StartStep::Request { opening, method, params } => {
            assert_eq!(method, "thread/resume");
            assert_eq!(
                params,
                json(
                    r#"{"config": {"features": {"memories": false, "plugins": false}},
                        "threadId": "thread_abc", "cwd": "/work/tree",
                        "sandbox": "workspace-write", "approvalPolicy": "never"}"#
                )
            );
            opening
        }
        other => panic!("unexpected step {:?}", other),
    };
    match worker.opened(opening, Ok(json(r#"{"thread": {"id": "another"}}"#))) {
        StartStep::Finished(Ok(id)) => assert_eq!(id, ThreadId("thread_abc".to_string())),
        other => panic!("unexpected step {:?}", other),
    }
}

#[test]
fn notes_no_child_that_was_not_started() {
    let mut worker: CodexWorker = CodexWorker::new(Termination::new());
    let opening = worker.start(&request(Mode::Inspect));
    match worker.spawned(opening, Err(failure("no codex"))) {
        StartStep::Finished(Err(error)) => assert_eq!(error.describe(), "no codex"),
        other => panic!("unexpected step {:?}", other),
    }
    assert_eq!(worker.termination.child_process_id(), None);
}

#[test]
fn shuts_the_server_down_that_opened_no_thread() {
    let mut worker: CodexWorker = CodexWorker::new(Termination::new());
    for (answer, text) in [
        (Ok(json(r#"{"thread": {"id": 5}}"#)), "thread/start returned no thread id"),
        (Err(failure("refused")), "refused"),
    ] {
        let opening = worker.start(&request(Mode::Inspect));
        let opening = match worker.spawned(opening, Ok(7)) {
            StartStep::Request { opening, .. } => opening,
            other => panic!("unexpected step {:?}", other),
        };
        match worker.opened(opening, answer) {
            StartStep::ShutDown(error) => {
                assert_eq!(worker.termination.child_process_id(), Some(7));
                let error: Error = worker.shutdown_after_error(error, Ok(()));
                assert_eq!(error.describe(), text);
                assert_eq!(worker.termination.child_process_id(), None);
            }
            other => panic!("unexpected step {:?}", other),
        }
    }
}

#[test]
fn tells_both_failures_where_the_shutdown_fails_too() {
    let mut worker: CodexWorker = CodexWorker::new(Termination::new());
    let error: Error = worker.shutdown_after_error(failure("refused"), Err(failure("no child")));
    assert_eq!(
        error.describe(),
        "refused (additionally, the worker shutdown failed: no child): refused"
    );
}

#[test]
fn parses_worker_response_from_last_agent_message() {
    let turn: Turn = turn(
        TurnStatus::Completed,
        vec![
            TurnItem::Other,
            message("item_2", "let me take a look"),
            message(
                "item_3",
                r#"{"status":"done","summary":"fixed the retry branch","evidence":["src/retry.rs:120-145"],"changed_files":["src/retry.rs"],"tests":["cargo test: 12 passed"],"open_questions":[]}"#,
            ),
        ],
        None,
    );

    let response: Value = json(&response_text(&turn).expect("a completed turn"));

    assert_eq!(response["status"], "done");
    assert_eq!(response["summary"], "fixed the retry branch");
    assert_eq!(response["evidence"], json(r#"["src/retry.rs:120-145"]"#));
    assert_eq!(response["changed_files"], json(r#"["src/retry.rs"]"#));
    assert_eq!(response["tests"], json(r#"["cargo test: 12 passed"]"#));
    assert_eq!(response["open_questions"], json("[]"));
}

#[test]
fn detects_blocked_status() {
    let turn: Turn = turn(
        TurnStatus::Completed,
        vec![message(
            "item_1",
            r#"{"status":"blocked","summary":"could not create the file because the workspace is read-only","evidence":[],"changed_files":[],"tests":[],"open_questions":["should this be re-run in edit mode?"]}"#,
        )],
        None,
    );

    let response: Value = json(&response_text(&turn).expect("a completed turn"));

    assert_eq!(response["status"], "blocked");
}

#[test]
fn rejects_turn_without_agent_message() {
    let turn: Turn = turn(TurnStatus::Completed, vec![TurnItem::Other], None);

    let outcome: Result<String, Error> = response_text(&turn);
    assert!(outcome.is_err());
    assert_eq!(
        outcome.expect_err("no agent message").describe(),
        "turn contains no agent message"
    );
}

#[test]
fn steps_after_the_last_agent_message_do_not_hide_it() {
    let items: Vec<TurnItem> = vec![
        message("item_1", "early"),
        message("item_2", "late"),
        TurnItem::Other,
        TurnItem::Other,
    ];
    assert_eq!(last_agent_message(&items), Some("late"));
    assert_eq!(last_agent_message(&vec![]), None);
}

#[test]
fn tells_how_a_turn_failed() {
    let items = || vec![message("item_1", "{}")];
    for (turn, text) in [
        (
            turn(TurnStatus::Failed, items(), Some(json(r#"{"message": "boom"}"#))),
            r#"turn turn_1 failed: {"message":"boom"}"#,
        ),
        (turn(TurnStatus::Failed, items(), None), "turn turn_1 failed: null"),
        (turn(TurnStatus::Interrupted, items(), None), "turn turn_1 was interrupted"),
        (
            turn(TurnStatus::InProgress, items(), None),
            "turn turn_1 is still in progress after turn/completed",
        ),
    ] {
        assert_eq!(response_text(&turn).expect_err("a failed turn").describe(), text);
    }
}

#[test]
fn takes_a_turn() {
    let termination: Termination = Termination::new();
    let mut thread: CodexThread = thread();
    assert_eq!(thread.thread_id(), &ThreadId("thread_abc".to_string()));
    match thread.turn(&request(Mode::Inspect), json(r#"{"type": "object"}"#)) {
        TurnStep::Request { method, params } => {
            assert_eq!(method, "turn/start");
            assert_eq!(
                params,
                json(
                    r#"{"threadId": "thread_abc",
                        "input": [{"type": "text", "text": "look \"around\"\nand report"}],
                        "model": "gpt-5.6-luna", "effort": "low",
                        "outputSchema": {"type": "object"}}"#
                )
            );
        }
        other => panic!("unexpected step {:?}", other),
    }
    match thread.turn_started(Ok(json(r#"{"turn": {"id": "turn_1"}}"#)), &termination) {
        TurnStep::WaitFor { method } => assert_eq!(method, "turn/completed"),
        other => panic!("unexpected step {:?}", other),
    }
    assert_eq!(thread.active_turn_id, Some("turn_1".to_string()));
    assert!(thread
        .process
        .notification("turn/completed", token_usage_update("turn_1", (1, 2, 3)))
        .is_none());
    let completed: Value =
        json(r#"{"method": "turn/completed", "params": {"turn": {"id": "turn_1"}}}"#);
    match thread.turn_completed(Ok(completed), &termination) {
        TurnStep::DecodeTurn(value) => assert_eq!(value, json(r#"{"id": "turn_1"}"#)),
        other => panic!("unexpected step {:?}", other),
    }
    assert_eq!(thread.active_turn_id, None);
    let report: Turn = turn(TurnStatus::Completed, vec![message("item_1", "{}")], None);
    match thread.turn_decoded(Ok(report), &termination) {
        TurnStep::DecodeResponse(text) => assert_eq!(text, "{}"),
        other => panic!("unexpected step {:?}", other),
    }
    assert_eq!(
        thread.metrics(),
        WorkerMetrics {
            usage: Some(TokenUsage {
                input_tokens: Some(1),
                cached_input_tokens: Some(2),
                output_tokens: Some(3),
            }),
            startup_milliseconds: Some(0),
        }
    );
    match thread.response_decoded(Ok(response()), &termination) {
        TurnStep::Finished(Ok(found)) => assert_eq!(found, response()),
        other => panic!("unexpected step {:?}", other),
    }
}

#[test]
fn a_completion_without_a_turn_leaves_null_to_read() {
    let mut thread: CodexThread = thread();
    match thread.turn_completed(Ok(json(r#"{"method": "turn/completed"}"#)), &Termination::new()) {
        TurnStep::DecodeTurn(value) => assert_eq!(value, Value::Null),
        other => panic!("unexpected step {:?}", other),
    }
}

fn failed(step: TurnStep) -> Error {
    match step {
        TurnStep::Finished(Err(error)) => error,
        other => panic!("unexpected step {:?}", other),
    }
}

#[test]
fn failures_after_a_stop_request_count_as_interrupted() {
    for (termination, text, interrupted) in [
        (Termination::new(), "broken", false),
        (stop_requested(), "the worker was interrupted: broken", true),
    ] {
        let mut thread: CodexThread = thread();
        let report: Turn = turn(TurnStatus::Interrupted, vec![], None);
        for error in [
            failed(thread.turn_started(Err(failure("broken")), &termination)),
            failed(thread.turn_completed(Err(failure("broken")), &termination)),
            failed(thread.turn_decoded(Err(failure("broken")), &termination)),
            failed(thread.response_decoded(Err(failure("broken")), &termination)),
        ] {
            assert_eq!(error.describe(), text);
            assert_eq!(error.is_interrupted(), interrupted);
        }
        let error: Error = failed(thread.turn_decoded(Ok(report), &termination));
        assert_eq!(error.is_interrupted(), interrupted);
        assert_eq!(thread.usage, None);
    }
}

#[test]
fn breaks_an_active_turn_off_before_the_end() {
    let mut termination: Termination = Termination::new();
    termination.set_child_process_id(7);
    let mut thread: CodexThread = thread();
    let started: Value = json(r#"{"turn": {"id": "turn_1"}}"#);
    assert!(matches!(
        thread.turn_started(Ok(started), &termination),
        TurnStep::WaitFor { .. }
    ));
    let turn_id: String = match thread.shutdown() {
        ShutdownStep::Probe { turn_id } => turn_id,
        other => panic!("unexpected step {:?}", other),
    };
    assert_eq!(turn_id, "turn_1");
    assert_eq!(thread.active_turn_id, None);
    match thread.probed(turn_id, true) {
        ShutdownStep::Interrupt { method, params } => {
            assert_eq!(method, "turn/interrupt");
            assert_eq!(params, json(r#"{"threadId": "thread_abc", "turnId": "turn_1"}"#));
        }
        other => panic!("unexpected step {:?}", other),
    }
    assert!(thread.process.stdin_open);
    let interruption: Result<(), Error> = match thread.interrupted(Err(failure("deaf"))) {
        ShutdownStep::Close { interruption } => interruption,
        other => panic!("unexpected step {:?}", other),
    };
    assert!(!thread.process.stdin_open);
    let outcome: Result<(), Error> = thread.closed(interruption, Ok(()), &mut termination);
    assert_eq!(outcome.expect_err("the turn was not broken off").describe(), "deaf");
    assert_eq!(termination.child_process_id(), None);
}

#[test]
fn asks_nothing_of_a_server_that_is_gone() {
    let mut thread: CodexThread = thread();
    match thread.probed("turn_1".to_string(), false) {
        ShutdownStep::Close { interruption } => assert!(interruption.is_ok()),
        other => panic!("unexpected step {:?}", other),
    }
    assert!(!thread.process.stdin_open);
}

#[test]
fn a_failed_wait_counts_for_more_than_a_failed_interruption() {
    let mut termination: Termination = stop_requested();
    termination.set_child_process_id(7);
    let mut thread: CodexThread = thread();
    assert!(matches!(thread.shutdown(), ShutdownStep::Close { interruption: Ok(()) }));
    let outcome: Result<(), Error> =
        thread.closed(Err(failure("deaf")), Err(failure("no child")), &mut termination);
    assert_eq!(outcome.expect_err("the wait failed").describe(), "no child");
    assert!(thread.closed(Ok(()), Ok(()), &mut termination).is_ok());
    assert_eq!(termination.child_process_id(), None);
    assert!(termination.is_requested());
}
