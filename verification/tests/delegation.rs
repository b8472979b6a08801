use henmen::delegation::application::{
    conclude, delegate, resume, Mode, Session, SessionId, SessionStatus, ThreadId, WorkerRequest,
    WorkerResponse, WorkerStatus,
};
use henmen::delegation::desk::Desk;
use henmen::delegation::ports::{SessionStore, Worker, WorkerThread};
use henmen::error::{Cause, Error, Interrupted, TimedOut};
use std::cell::RefCell;
use std::rc::Rc;

type Events = Rc<RefCell<Vec<String>>>;

/// A store that keeps the sessions in memory and fails at the save of that number.
struct Memory {
    events: Events,
    saved: RefCell<Vec<Session>>,
    failing_save: Option<usize>,
}

impl SessionStore for Memory {
    fn save(&self, session: &Session) -> Result<(), Error> {
        self.events.borrow_mut().push(format!("save {:?}", session.status));
        let mut saved = self.saved.borrow_mut();
        if self.failing_save == Some(saved.len()) {
            return Err(Error::message("disk full".to_string()));
        }
        saved.push(session.clone());
        Ok(())
    }

    fn load(&self, id: &SessionId) -> Result<Session, Error> {
        self.events.borrow_mut().push("load".to_string());
        self.saved
            .borrow()
            .iter()
            .rev()
            .find(|session| session.session_id == *id)
            .cloned()
            .ok_or_else(|| Error::message("no such session".to_string()))
    }
}

/// How the scripted worker behaves.
#[derive(Clone, Copy, PartialEq)]
enum Script {
    Fine,
    NoThread,
    BrokenTurn,
    InterruptedTurn,
    LateTurn,
    BrokenShutdown,
    BrokenTurnAndShutdown,
}

struct Scripted {
    events: Events,
    script: Script,
}

struct ScriptedThread {
    events: Events,
    script: Script,
    thread_id: ThreadId,
}

impl Scripted {
    fn open(&self, name: &str) -> Result<ScriptedThread, Error> {
        if self.script == Script::NoThread {
            return Err(Error::message("no thread".to_string()));
        }
        Ok(ScriptedThread {
            events: self.events.clone(),
            script: self.script,
            thread_id: ThreadId(name.to_string()),
        })
    }
}

impl Worker for Scripted {
    type Thread = ScriptedThread;

    fn start(&self, request: &WorkerRequest) -> Result<ScriptedThread, Error> {
        self.events.borrow_mut().push(format!("start in {}", request.cwd));
        self.open("thread_abc")
    }

    fn resume(
        &self,
        thread_id: &ThreadId,
        request: &WorkerRequest,
    ) -> Result<ScriptedThread, Error> {
        self.events
            .borrow_mut()
            .push(format!("resume {} in {}", thread_id.0, request.cwd));
        self.open(&thread_id.0)
    }
}

impl WorkerThread for ScriptedThread {
    fn thread_id(&self) -> &ThreadId {
        &self.thread_id
    }

    fn turn(&mut self, request: &WorkerRequest) -> Result<WorkerResponse, Error> {
        self.events.borrow_mut().push(format!("turn {}", request.task));
        match self.script {
            Script::BrokenTurn | Script::BrokenTurnAndShutdown => {
                Err(Error::message("boom".to_string()))
            }
            Script::InterruptedTurn => Err(Error::message("boom".to_string())
                .context(Cause::Interrupted(Interrupted))),
            Script::LateTurn => {
                Err(Error::message("boom".to_string()).context(Cause::TimedOut(TimedOut)))
            }
            _ => Ok(response()),
        }
    }

    fn shutdown(&mut self) -> Result<(), Error> {
        self.events.borrow_mut().push("shutdown".to_string());
        match self.script {
            Script::BrokenShutdown | Script::BrokenTurnAndShutdown => {
                Err(Error::message("no child".to_string()))
            }
            _ => Ok(()),
        }
    }
}

fn response() -> WorkerResponse {
    WorkerResponse {
        status: WorkerStatus::Blocked,
        summary: "read-only".to_string(),
        evidence: vec!["src/retry.rs:120-145".to_string()],
        changed_files: vec![],
        tests: vec![],
        open_questions: vec!["edit?".to_string()],
    }
}

fn first_request() -> WorkerRequest {
    WorkerRequest {
        task: "look".to_string(),
        cwd: "/one".to_string(),
        model: "luna".to_string(),
        effort: "low".to_string(),
        mode: Mode::Inspect,
    }
}

fn second_request() -> WorkerRequest {
    WorkerRequest {
        task: "mend".to_string(),
        cwd: "/two".to_string(),
        model: "sol".to_string(),
        effort: "max".to_string(),
        mode: Mode::Edit,
    }
}

fn setup(script: Script, failing_save: Option<usize>) -> (Events, Scripted, Memory) {
    let events: Events = Rc::new(RefCell::new(Vec::new()));
    let worker: Scripted = Scripted { events: events.clone(), script };
    let store: Memory = Memory {
        events: events.clone(),
        saved: RefCell::new(Vec::new()),
        failing_save,
    };
    (events, worker, store)
}

type Outcome = Result<(SessionId, WorkerResponse), Error>;

fn delegate_across(worker: &Scripted, store: &Memory, request: &WorkerRequest) -> Outcome {
    delegate(&mut Desk::new(worker, store), request)
}

fn resume_across(
    worker: &Scripted,
    store: &Memory,
    id: &SessionId,
    request: &WorkerRequest,
) -> Outcome {
    resume(&mut Desk::new(worker, store), id, request)
}

fn told(events: &Events) -> Vec<String> {
    events.borrow().clone()
}

#[test]
fn delegates_in_a_fresh_thread() {
    let (events, worker, store) = setup(Script::Fine, None);
    let (id, found) = delegate_across(&worker, &store, &first_request()).expect("all went well");
    assert_eq!(found, response());
    assert_eq!(
        told(&events),
        vec!["start in /one", "save Running", "turn look", "save Completed", "shutdown"]
    );
    let saved: Vec<Session> = store.saved.borrow().clone();
    assert_eq!(saved.len(), 2);
    let running: Session = Session {
        session_id: id,
        thread_id: ThreadId("thread_abc".to_string()),
        cwd: "/one".to_string(),
        model: "luna".to_string(),
        effort: "low".to_string(),
        mode: Mode::Inspect,
        status: SessionStatus::Running,
    };
    assert_eq!(saved[0], running);
    assert_eq!(saved[1], Session { status: SessionStatus::Completed, ..running });
}

#[test]
fn resumes_the_thread_that_was_delegated() {
    let (events, worker, store) = setup(Script::Fine, None);
    let (id, _) = delegate_across(&worker, &store, &first_request()).expect("all went well");
    events.borrow_mut().clear();
    let (again, found) = resume_across(&worker, &store, &id, &second_request()).expect("all went well");
    assert_eq!(again, id);
    assert_eq!(found, response());
    assert_eq!(
        told(&events),
        vec![
            "load",
            "resume thread_abc in /two",
            "save Running",
            "turn mend",
            "save Completed",
            "shutdown"
        ]
    );
    let last: Session = store.saved.borrow().last().cloned().expect("it was saved");
    assert_eq!(
        last,
        Session {
            session_id: id,
            thread_id: ThreadId("thread_abc".to_string()),
            cwd: "/two".to_string(),
            model: "sol".to_string(),
            effort: "max".to_string(),
            mode: Mode::Edit,
            status: SessionStatus::Completed,
        }
    );
}

#[test]
fn a_session_that_is_not_there_is_not_resumed() {
    let (events, worker, store) = setup(Script::Fine, None);
    let id: SessionId = SessionId("01K5CQXM8N7VZR3TFWJ0HB2YQD".to_string());
    let error: Error =
        resume_across(&worker, &store, &id, &second_request()).expect_err("nothing was saved");
    assert_eq!(error.describe(), "no such session");
    assert_eq!(told(&events), vec!["load"]);
}

#[test]
fn without_a_thread_nothing_is_saved() {
    let (events, worker, store) = setup(Script::NoThread, None);
    let error: Error = delegate_across(&worker, &store, &first_request()).expect_err("no thread");
    assert_eq!(error.describe(), "no thread");
    assert_eq!(told(&events), vec!["start in /one"]);
}

#[test]
fn a_thread_that_does_not_reopen_leaves_the_session_as_it_was() {
    let (_, worker, store) = setup(Script::Fine, None);
    let (id, _) = delegate_across(&worker, &store, &first_request()).expect("all went well");
    let (events, broken, _) = setup(Script::NoThread, None);
    let error: Error = resume_across(&broken, &store, &id, &second_request()).expect_err("no thread");
    assert_eq!(error.describe(), "no thread");
    assert_eq!(told(&events), vec!["resume thread_abc in /two"]);
    assert_eq!(store.saved.borrow().len(), 2);
}

#[test]
fn a_failed_turn_is_saved_as_such_and_named() {
    for (script, status, tail) in [
        (Script::BrokenTurn, SessionStatus::Failed, "boom"),
        (Script::BrokenTurnAndShutdown, SessionStatus::Failed, "boom"),
        (
            Script::InterruptedTurn,
            SessionStatus::Interrupted,
            "the worker was interrupted: boom",
        ),
        (
            Script::LateTurn,
            SessionStatus::Failed,
            "the worker ran into its deadline: boom",
        ),
    ] {
        let (events, worker, store) = setup(script, None);
        let error: Error = delegate_across(&worker, &store, &first_request()).expect_err("it failed");
        let last: Session = store.saved.borrow().last().cloned().expect("it was saved");
        assert_eq!(last.status, status);
        assert_eq!(
            error.describe(),
            format!("session: {} failed: {}", last.session_id.as_str(), tail)
        );
        assert_eq!(error.is_interrupted(), script == Script::InterruptedTurn);
        assert_eq!(error.is_timed_out(), script == Script::LateTurn);
        assert_eq!(told(&events).last().map(String::as_str), Some("shutdown"));
    }
}

#[test]
fn a_failed_shutdown_after_a_good_turn_is_a_failure() {
    let (_, worker, store) = setup(Script::BrokenShutdown, None);
    let error: Error = delegate_across(&worker, &store, &first_request()).expect_err("it failed");
    assert_eq!(error.describe(), "no child");
    let last: Session = store.saved.borrow().last().cloned().expect("it was saved");
    assert_eq!(last.status, SessionStatus::Completed);
}

#[test]
fn a_save_that_fails_ends_the_run() {
    let (events, worker, store) = setup(Script::Fine, Some(0));
    let error: Error = delegate_across(&worker, &store, &first_request()).expect_err("disk full");
    assert_eq!(error.describe(), "disk full");
    assert_eq!(told(&events), vec!["start in /one", "save Running"]);

    let (events, worker, store) = setup(Script::BrokenTurn, Some(1));
    let error: Error = delegate_across(&worker, &store, &first_request()).expect_err("disk full");
    assert_eq!(error.describe(), "disk full");
    assert_eq!(
        told(&events),
        vec!["start in /one", "save Running", "turn look", "save Failed"]
    );
}

#[test]
fn concludes_from_the_turn_and_the_shutdown() {
    let id = || SessionId("01K5CQXM8N7VZR3TFWJ0HB2YQD".to_string());
    let boom = || Error::message("boom".to_string());
    let gone = || Error::message("no child".to_string());
    assert_eq!(conclude(id(), Ok(response()), Ok(())).expect("both fine"), (id(), response()));
    assert_eq!(
        conclude(id(), Ok(response()), Err(gone())).expect_err("no shutdown").describe(),
        "no child"
    );
    for shutdown in [Ok(()), Err(gone())] {
        assert_eq!(
            conclude(id(), Err(boom()), shutdown).expect_err("no turn").describe(),
            "session: 01K5CQXM8N7VZR3TFWJ0HB2YQD failed: boom"
        );
    }
}

#[test]
fn generated_names_are_ulids() {
    let one: SessionId = SessionId::new();
    let other: SessionId = SessionId::new();
    for id in [&one, &other] {
        let text: &str = id.as_str();
        assert_eq!(text.len(), 26);
        assert!(text.chars().all(|c| "0123456789ABCDEFGHJKMNPQRSTVWXYZ".contains(c)));
        assert!(text.as_bytes()[0] <= b'7');
        assert_eq!(
            ulid::Ulid::from_string(text).expect("a ULID").to_string(),
            text
        );
    }
    assert_ne!(one, other);
}

#[test]
fn every_resume_goes_back_to_the_thread_of_the_delegation() {
    let (events, worker, store) = setup(Script::Fine, None);
    let mut desk = Desk::new(&worker, &store);
    let (id, _) = delegate(&mut desk, &first_request()).expect("all went well");
    let (other, _) = delegate(&mut desk, &second_request()).expect("all went well");
    assert_ne!(id, other);
    for request in [second_request(), first_request(), second_request()] {
        events.borrow_mut().clear();
        let (again, _) = resume(&mut desk, &id, &request).expect("all went well");
        assert_eq!(again, id);
        assert_eq!(told(&events).len(), 6);
        assert_eq!(told(&events)[1], format!("resume thread_abc in {}", request.cwd));
    }
    let of_session: Vec<Session> = store
        .saved
        .borrow()
        .iter()
        .filter(|session| session.session_id == id)
        .cloned()
        .collect();
    assert_eq!(of_session.len(), 8);
    assert!(of_session
        .iter()
        .all(|session| session.thread_id == ThreadId("thread_abc".to_string())));
    assert_eq!(of_session[7].status, SessionStatus::Completed);
}

#[test]
fn a_broken_session_can_be_resumed() {
    let (_, broken, store) = setup(Script::BrokenTurn, None);
    delegate_across(&broken, &store, &first_request()).expect_err("it failed");
    let failed: Session = store.saved.borrow().last().cloned().expect("it was saved");
    assert_eq!(failed.status, SessionStatus::Failed);
    let (events, worker, _) = setup(Script::Fine, None);
    let (again, _) = resume_across(&worker, &store, &failed.session_id, &second_request())
        .expect("all went well");
    assert_eq!(again, failed.session_id);
    assert_eq!(
        told(&events),
        vec!["resume thread_abc in /two", "turn mend", "shutdown"]
    );
    let last: Session = store.saved.borrow().last().cloned().expect("it was saved");
    assert_eq!(last.status, SessionStatus::Completed);
}

#[test]
fn a_failed_turn_of_a_resumed_session_shuts_its_thread_down() {
    let (_, worker, store) = setup(Script::Fine, None);
    let (id, _) =
        delegate_across(&worker, &store, &first_request()).expect("all went well");
    let (events, broken, _) = setup(Script::InterruptedTurn, None);
    let error: Error = resume_across(&broken, &store, &id, &second_request())
        .expect_err("it was interrupted");
    assert!(error.is_interrupted());
    assert_eq!(
        told(&events),
        vec!["resume thread_abc in /two", "turn mend", "shutdown"]
    );
    let last: Session = store.saved.borrow().last().cloned().expect("it was saved");
    assert_eq!(last.status, SessionStatus::Interrupted);
}

#[test]
fn only_ulids_name_sessions() {
    let id: SessionId = "01K5CQXM8N7VZR3TFWJ0HB2YQD".parse().expect("valid session id");
    assert_eq!(id, SessionId("01K5CQXM8N7VZR3TFWJ0HB2YQD".to_string()));
    let fresh: SessionId = SessionId::new();
    assert_eq!(SessionId::parse(fresh.as_str()).expect("a generated name"), fresh);
    for text in [
        "",
        "/etc/x",
        "..",
        "01K5CQXM8N7VZR3TFWJ0HB2YQ",
        "01K5CQXM8N7VZR3TFWJ0HB2YQDD",
        "81K5CQXM8N7VZR3TFWJ0HB2YQD",
        "01K5CQXM8N7VZR3TFWJ0HB2YQU",
        "01K5CQXM8N7VZR3TFWJ0HB2YQd",
        "01K5CQXM8N7VZR3TFWJ0HB2YQ/",
        "01K5CQXM8N7VZR3TFWJ0HB2YQ\u{e9}",
    ] {
        assert_eq!(
            SessionId::parse(text).expect_err("no ULID").describe(),
            format!("not a session id: {text}")
        );
    }
}
