use henmen::delegation::adapters::log::LogFile;
use henmen::delegation::adapters::session::{SavePlan, SessionFiles};
use henmen::delegation::application::{Mode, Session, SessionId, SessionStatus, ThreadId};
use henmen::error::{Cause, Error, Interrupted, TimedOut};
use henmen::launch::{
    build_request, exit_status, late_failure, opt_in_run_log, session_files, state_directory,
    timeout_seconds,
};
use std::collections::HashMap;
use std::path::{Path, PathBuf};

fn sample(id: &str) -> Session {
    Session {
        session_id: SessionId(id.to_string()),
        thread_id: ThreadId("thread_abc".to_string()),
        cwd: "/home/worker/tree".to_string(),
        model: "gpt-5.6-luna".to_string(),
        effort: "max".to_string(),
        mode: Mode::Inspect,
        status: SessionStatus::Running,
    }
}

#[test]
fn each_session_has_a_file() {
    let files: SessionFiles = SessionFiles::new(PathBuf::from("/state/sessions"));
    let session: Session = sample("01K5CQXM8N7VZR3TFWJ0HB2YQD");
    assert_eq!(
        files.path(&session.session_id),
        PathBuf::from("/state/sessions/01K5CQXM8N7VZR3TFWJ0HB2YQD.json")
    );
    let plan: SavePlan = files.save(&session);
    assert_eq!(plan.destination, files.load(&session.session_id));
    assert_eq!(
        plan.temporary,
        PathBuf::from("/state/sessions/01K5CQXM8N7VZR3TFWJ0HB2YQD.json.tmp")
    );
    assert_ne!(
        files.path(&session.session_id),
        files.path(&SessionId("01K5CQXM8N7VZR3TFWJ0HB2YQE".to_string()))
    );
}

#[test]
fn paths_join_as_the_system_joins_them() {
    let id: SessionId = SessionId("a.b/c".to_string());
    let absolute: SessionId = SessionId("/etc/x".to_string());
    for (root, path, absolute_path) in [
        ("", "a.b/c.json", "/etc/x.json"),
        ("/", "/a.b/c.json", "/etc/x.json"),
        ("dir/", "dir/a.b/c.json", "/etc/x.json"),
        ("dir", "dir/a.b/c.json", "/etc/x.json"),
    ] {
        let files: SessionFiles = SessionFiles::new(PathBuf::from(root));
        assert_eq!(files.path(&id).as_os_str(), Path::new(path).as_os_str());
        assert_eq!(
            files.path(&absolute).as_os_str(),
            Path::new(absolute_path).as_os_str()
        );
        let plan: SavePlan = files.save(&sample("a.b/c"));
        assert_eq!(
            plan.temporary.as_os_str(),
            Path::new(&format!("{}.tmp", path)).as_os_str()
        );
    }
}

#[test]
fn an_unusual_name_has_a_temporary_file_too() {
    let files: SessionFiles = SessionFiles::new(PathBuf::from("dir"));
    for (id, temporary) in [
        ("..", "dir/...json.tmp"),
        ("a.", "dir/a..json.tmp"),
        ("a/..", "dir/a/...json.tmp"),
        ("ä", "dir/ä.json.tmp"),
        ("", "dir/.json.json.tmp"),
        ("a/", "dir/a/.json.json.tmp"),
        ("/", "/.json.json.tmp"),
    ] {
        assert_eq!(
            files.save(&sample(id)).temporary.as_os_str(),
            Path::new(temporary).as_os_str()
        );
    }
}

#[test]
fn a_session_without_a_name_has_a_temporary_file_in_any_directory() {
    for (root, path) in [("", ".json"), ("/", "/.json"), ("dir/", "dir/.json")] {
        let plan: SavePlan = SessionFiles::new(PathBuf::from(root)).save(&sample(""));
        assert_eq!(plan.destination.as_os_str(), Path::new(path).as_os_str());
        assert_eq!(
            plan.temporary.as_os_str(),
            Path::new(&format!("{path}.json.tmp")).as_os_str()
        );
    }
}

#[test]
fn what_was_saved_is_loaded() {
    let files: SessionFiles = SessionFiles::new(PathBuf::from("/state/sessions"));
    let mut disk: HashMap<PathBuf, &str> = HashMap::new();
    for (id, contents) in [("one", "first"), ("other", "untouched"), ("one", "second")] {
        let plan: SavePlan = files.save(&sample(id));
        disk.insert(plan.temporary.clone(), contents);
        let written: &str = disk.remove(&plan.temporary).expect("it was just written");
        disk.insert(plan.destination, written);
    }
    assert_eq!(disk.len(), 2);
    assert_eq!(disk[&files.load(&SessionId("one".to_string()))], "second");
    assert_eq!(disk[&files.load(&SessionId("other".to_string()))], "untouched");
}

#[test]
fn a_save_that_fails_half_way_changes_no_session() {
    let files: SessionFiles = SessionFiles::new(PathBuf::from("/state/sessions"));
    let mut disk: HashMap<PathBuf, &str> = HashMap::new();
    for (id, contents) in [("one", "first"), ("other", "untouched")] {
        disk.insert(files.save(&sample(id)).destination, contents);
    }
    disk.insert(files.save(&sample("one")).temporary, "sec");
    assert_eq!(disk[&files.load(&SessionId("one".to_string()))], "first");
    assert_eq!(disk[&files.load(&SessionId("other".to_string()))], "untouched");
}

#[test]
fn what_was_saved_last_is_loaded_after_any_number_of_saves() {
    let files: SessionFiles = SessionFiles::new(PathBuf::from("/state/sessions"));
    let same: SessionFiles = SessionFiles::new(PathBuf::from("/state/sessions"));
    let mut disk: HashMap<PathBuf, &str> = HashMap::new();
    for (writer, id, contents, finished) in [
        (&files, "one", "first", true),
        (&same, "", "nameless", true),
        (&same, "one", "second", true),
        (&files, "one", "thi", false),
        (&files, "..", "dots", true),
        (&files, "", "na", false),
    ] {
        let plan: SavePlan = writer.save(&sample(id));
        disk.insert(plan.temporary.clone(), contents);
        if finished {
            let written: &str = disk.remove(&plan.temporary).expect("it was just written");
            disk.insert(plan.destination, written);
        }
    }
    for (id, contents) in [
        ("one", Some("second")),
        ("", Some("nameless")),
        ("..", Some("dots")),
        ("other", None),
    ] {
        let path: PathBuf = files.load(&SessionId(id.to_string()));
        assert_eq!(disk.get(&path).copied(), contents);
        assert_eq!(files.load(&SessionId(id.to_string())), path);
    }
}

#[test]
fn generated_names_stay_in_the_directory() {
    let files: SessionFiles = SessionFiles::new(PathBuf::from("/state/sessions"));
    let path: PathBuf = files.path(&SessionId::new());
    assert_eq!(path.parent(), Some(Path::new("/state/sessions")));
    assert_eq!(path.extension().and_then(|extension| extension.to_str()), Some("json"));
}

#[test]
fn ends_each_record_with_a_line_feed() {
    let log: LogFile = LogFile::new(PathBuf::from("/state/logs/runs.jsonl"));
    assert_eq!(log.path, PathBuf::from("/state/logs/runs.jsonl"));
    let mut contents: Vec<u8> = Vec::new();
    contents.extend(log.append(b"{\"kind\":\"delegate\"}".to_vec()));
    contents.extend(log.append(b"{}".to_vec()));
    assert_eq!(contents, b"{\"kind\":\"delegate\"}\n{}\n".to_vec());
    let text: String = String::from_utf8(contents).expect("plain text");
    assert_eq!(text.lines().count(), 2);

    let mut longer: Vec<u8> = text.clone().into_bytes();
    longer.extend(log.append(b"{\"kind\":\"resume\"}".to_vec()));
    let longer: String = String::from_utf8(longer).expect("plain text");
    assert!(longer.starts_with(&text));
    assert_eq!(longer.lines().collect::<Vec<&str>>()[2], "{\"kind\":\"resume\"}");
    assert_eq!(longer.lines().count(), 3);
}

#[test]
fn prefers_the_directory_for_state() {
    let xdg = || Some(PathBuf::from("/xdg"));
    let home = || Some(PathBuf::from("/home/worker"));
    assert_eq!(
        state_directory(xdg(), home()).expect("both are set"),
        PathBuf::from("/xdg/henmen")
    );
    assert_eq!(
        state_directory(None, home()).expect("one is set"),
        PathBuf::from("/home/worker/.local/state/henmen")
    );
    assert_eq!(
        state_directory(None, None).expect_err("none is set").describe(),
        "neither XDG_STATE_HOME nor HOME is set"
    );
    assert_eq!(
        session_files(xdg(), home()).expect("both are set").root,
        PathBuf::from("/xdg/henmen/sessions")
    );
    assert_eq!(
        session_files(None, home()).expect("one is set").root,
        PathBuf::from("/home/worker/.local/state/henmen/sessions")
    );
    assert_eq!(
        session_files(None, None).expect_err("none is set").describe(),
        "neither XDG_STATE_HOME nor HOME is set"
    );
}

#[test]
fn logs_runs_only_on_request() {
    let xdg = || Some(PathBuf::from("/xdg"));
    assert_eq!(
        opt_in_run_log(Some("1".to_string()), xdg(), None)
            .expect("there is a directory")
            .expect("it was asked for")
            .path,
        PathBuf::from("/xdg/henmen/logs/runs.jsonl")
    );
    for setting in [None, Some("0".to_string()), Some("".to_string()), Some("11".to_string())] {
        assert!(opt_in_run_log(setting, None, None).expect("no directory needed").is_none());
    }
    assert_eq!(
        opt_in_run_log(Some("1".to_string()), None, None)
            .expect_err("there is no directory")
            .describe(),
        "neither XDG_STATE_HOME nor HOME is set"
    );
}

#[test]
fn builds_a_request_and_its_deadline() {
    let request = build_request(
        "look".to_string(),
        "/work".to_string(),
        "luna".to_string(),
        "low".to_string(),
        Mode::Edit,
    );
    assert_eq!(request.task, "look");
    assert_eq!(request.cwd, "/work");
    assert_eq!(request.model, "luna");
    assert_eq!(request.effort, "low");
    assert_eq!(request.mode, Mode::Edit);
    assert_eq!(timeout_seconds(30), 1800);
    assert_eq!(timeout_seconds(0), 0);
}

#[test]
fn a_missed_deadline_has_an_exit_status_of_its_own() {
    let boom = || Error::message("boom".to_string());
    assert_eq!(exit_status(&boom()), 1);
    assert_eq!(exit_status(&boom().context(Cause::Interrupted(Interrupted))), 1);
    assert_eq!(exit_status(&boom().context(Cause::TimedOut(TimedOut))), 124);
    assert_eq!(
        exit_status(
            &boom()
                .context(Cause::TimedOut(TimedOut))
                .context(Cause::Message("session: x failed".to_string()))
        ),
        124
    );
}

#[test]
fn a_failure_after_the_deadline_is_put_down_to_it() {
    let late: Error = late_failure(Error::message("boom".to_string()), true);
    assert_eq!(late.describe(), "the worker ran into its deadline: boom");
    assert_eq!(exit_status(&late), 124);
    let early: Error = late_failure(Error::message("boom".to_string()), false);
    assert_eq!(early.describe(), "boom");
    assert_eq!(exit_status(&early), 1);
}

#[test]
fn tells_the_outermost_cause_first() {
    let error: Error = Error::message("root".to_string())
        .context(Cause::Message("middle".to_string()))
        .context(Cause::Interrupted(Interrupted))
        .context(Cause::TimedOut(TimedOut));
    assert_eq!(
        error.describe(),
        "the worker ran into its deadline: the worker was interrupted: middle: root"
    );
    assert!(error.is_interrupted());
    assert!(error.is_timed_out());
    assert_eq!(error.causes.last().map(Cause::text), Some("root".to_string()));
    assert!(!Error::message("the worker was interrupted".to_string()).is_interrupted());
}
