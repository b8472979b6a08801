//! What a run is made up from before it starts, and how its end is told.

use crate::delegation::adapters::log::LogFile;
use crate::delegation::adapters::session::SessionFiles;
use crate::delegation::application::{
    concludes, failures_name_the_session, Mode, SessionId, WorkerRequest, WorkerResponse,
};
use crate::error::{context_keeps_deadline, just, wrapped, Cause, Error, Reason, TimedOut};
use crate::paths::{join, joined, path_bytes};
use std::path::PathBuf;
use vstd::prelude::*;
use vstd::utf8::encode_utf8;

verus! {

/// A path below another.
pub open spec fn below(path: Seq<u8>, name: Seq<char>) -> Seq<u8> {
    joined(path, encode_utf8(name))
}

/// The directory in which everything is kept, from the directory for state and
/// the home directory, where they are set.
pub open spec fn state_path(state_home: Option<Seq<u8>>, home: Option<Seq<u8>>) -> Option<Seq<u8>> {
    match (state_home, home) {
        (Some(state_home), _) => Some(below(state_home, "henmen"@)),
        (None, Some(home)) => Some(
            below(below(below(home, ".local"@), "state"@), "henmen"@),
        ),
        (None, None) => None,
    }
}

/// The bytes of a path that may be missing.
pub open spec fn optional_bytes(path: Option<PathBuf>) -> Option<Seq<u8>> {
    match path {
        Some(path) => Some(path_bytes(path)),
        None => None,
    }
}

/// What is said when there is no place to keep anything.
pub open spec fn no_state_text() -> Seq<char> {
    "neither XDG_STATE_HOME nor HOME is set"@
}

/// The directory in which everything is kept.
pub fn state_directory(state_home: Option<PathBuf>, home: Option<PathBuf>) -> (directory: Result<
    PathBuf,
    Error,
>)
    ensures
        match directory {
            Ok(directory) => state_path(optional_bytes(state_home), optional_bytes(home)) == Some(
                path_bytes(directory),
            ),
            Err(error) => {
                &&& state_home is None
                &&& home is None
                &&& error@ == just(no_state_text())
            },
        },
{
    match state_home {
        Some(state_home) => Ok(join(&state_home, "henmen")),
        None => match home {
            Some(home) => Ok(join(&join(&join(&home, ".local"), "state"), "henmen")),
            None => Err(Error::message("neither XDG_STATE_HOME nor HOME is set".to_owned())),
        },
    }
}

/// The session files.
pub fn session_files(state_home: Option<PathBuf>, home: Option<PathBuf>) -> (files: Result<
    SessionFiles,
    Error,
>)
    ensures
        match files {
            Ok(files) => {
                &&& state_path(optional_bytes(state_home), optional_bytes(home)) is Some
                &&& path_bytes(files.root) == below(
                    state_path(optional_bytes(state_home), optional_bytes(home))->Some_0,
                    "sessions"@,
                )
            },
            Err(error) => {
                &&& state_home is None
                &&& home is None
                &&& error@ == just(no_state_text())
            },
        },
{
    match state_directory(state_home, home) {
        Ok(directory) => Ok(SessionFiles::new(join(&directory, "sessions"))),
        Err(error) => Err(error),
    }
}

/// The log of runs, which is kept only where the setting says `1`. Only a log that
/// is kept needs a state directory.
pub fn opt_in_run_log(
    setting: Option<String>,
    state_home: Option<PathBuf>,
    home: Option<PathBuf>,
) -> (log: Result<Option<LogFile>, Error>)
    ensures
        match log {
            Ok(None) => !(setting is Some && setting->Some_0@ == "1"@),
            Ok(Some(log)) => {
                &&& setting is Some
                &&& setting->Some_0@ == "1"@
                &&& state_path(optional_bytes(state_home), optional_bytes(home)) is Some
                &&& path_bytes(log.path) == below(
                    below(
                        state_path(optional_bytes(state_home), optional_bytes(home))->Some_0,
                        "logs"@,
                    ),
                    "runs.jsonl"@,
                )
            },
            Err(error) => {
                &&& setting is Some
                &&& setting->Some_0@ == "1"@
                &&& state_home is None
                &&& home is None
                &&& error@ == just(no_state_text())
            },
        },
{
    let wanted: bool = match setting {
        Some(setting) => setting == "1".to_owned(),
        None => false,
    };
    if !wanted {
        return Ok(None);
    }
    match state_directory(state_home, home) {
        Ok(directory) => Ok(Some(LogFile::new(join(&join(&directory, "logs"), "runs.jsonl")))),
        Err(error) => Err(error),
    }
}

/// A request from its parts.
pub fn build_request(task: String, cwd: String, model: String, effort: String, mode: Mode) -> (request:
    WorkerRequest)
    ensures
        request == (WorkerRequest { task, cwd, model, effort, mode }),
{
    WorkerRequest { task, cwd, model, effort, mode }
}

/// The deadline of a run in seconds.
pub fn timeout_seconds(minutes: u64) -> (seconds: u64)
    requires
        minutes * 60 <= u64::MAX,
    ensures
        seconds == minutes * 60,
{
    minutes * 60
}

/// What is told of a failure, once it is known whether the deadline had passed by
/// then: a failure that comes after the deadline is put down to it.
pub fn late_failure(error: Error, passed: bool) -> (failure: Error)
    ensures
        failure@ == (if passed {
            wrapped(Reason::TimedOut, error@)
        } else {
            error@
        }),
{
    if passed {
        error.context(Cause::TimedOut(TimedOut))
    } else {
        error
    }
}

/// The status with which the program exits after a failure: that of a command
/// which ran into its deadline, or that of any failure.
pub open spec fn failure_status(reasons: Seq<Reason>) -> i32 {
    if reasons.contains(Reason::TimedOut) {
        124
    } else {
        1
    }
}

/// The status with which the program exits after a failure.
pub fn exit_status(error: &Error) -> (status: i32)
    ensures
        status == failure_status(error@),
{
    if error.is_timed_out() {
        124
    } else {
        1
    }
}

/// A turn that fails ends the program with the status of a missed deadline exactly
/// if the deadline had passed, whatever came of the shutdown; the failure itself
/// knew nothing of a deadline.
pub proof fn late_turns_show_in_the_exit_status(
    inner: Seq<Reason>,
    passed: bool,
    id: SessionId,
    failure: Error,
    shutdown: Result<(), Error>,
    result: Result<(SessionId, WorkerResponse), Error>,
)
    requires
        !inner.contains(Reason::TimedOut),
        failure@ == (if passed {
            wrapped(Reason::TimedOut, inner)
        } else {
            inner
        }),
        concludes(id, Err(failure), shutdown, result),
    ensures
        result is Err,
        failure_status(result->Err_0@) == (if passed {
            124i32
        } else {
            1i32
        }),
{
    failures_name_the_session(id, failure, shutdown, result);
    context_keeps_deadline(Reason::TimedOut, inner);
}

/// Sessions and the log of runs lie below one directory: `henmen` in the directory for
/// state where that is set, and otherwise the usual place below the home directory. Only
/// where neither is set, nothing can be kept.
pub proof fn everything_is_kept_in_one_place(
    state_home: Option<PathBuf>,
    home: Option<PathBuf>,
    setting: Option<String>,
    directory: Result<PathBuf, Error>,
    files: Result<SessionFiles, Error>,
    log: Result<Option<LogFile>, Error>,
)
    requires
        call_ensures(state_directory, (state_home, home), directory),
        call_ensures(session_files, (state_home, home), files),
        call_ensures(opt_in_run_log, (setting, state_home, home), log),
    ensures
        directory is Ok <==> state_home is Some || home is Some,
        files is Ok <==> directory is Ok,
        state_home is Some ==> path_bytes(directory->Ok_0) == joined(
            path_bytes(state_home->Some_0),
            encode_utf8("henmen"@),
        ),
        state_home is None && home is Some ==> path_bytes(directory->Ok_0) == joined(
            joined(
                joined(path_bytes(home->Some_0), encode_utf8(".local"@)),
                encode_utf8("state"@),
            ),
            encode_utf8("henmen"@),
        ),
        directory is Err ==> {
            &&& directory->Err_0@ == seq![
                Reason::Message("neither XDG_STATE_HOME nor HOME is set"@),
            ]
            &&& files->Err_0@ == directory->Err_0@
        },
        directory is Ok ==> path_bytes(files->Ok_0.root) == joined(
            path_bytes(directory->Ok_0),
            encode_utf8("sessions"@),
        ),
        (setting is Some && setting->Some_0@ == "1"@) ==> {
            &&& log is Ok <==> directory is Ok
            &&& log is Err ==> log->Err_0@ == directory->Err_0@
            &&& log is Ok ==> log->Ok_0 is Some && path_bytes(log->Ok_0->Some_0.path) == joined(
                joined(path_bytes(directory->Ok_0), encode_utf8("logs"@)),
                encode_utf8("runs.jsonl"@),
            )
        },
        !(setting is Some && setting->Some_0@ == "1"@) ==> log is Ok && log->Ok_0 is None,
{
}

/// A request holds each of its parts in the place of that name, and its deadline has sixty
/// seconds to the minute.
pub proof fn requests_hold_their_parts(
    task: String,
    cwd: String,
    model: String,
    effort: String,
    mode: Mode,
    request: WorkerRequest,
    minutes: u64,
    seconds: u64,
)
    requires
        call_ensures(build_request, (task, cwd, model, effort, mode), request),
        call_ensures(timeout_seconds, (minutes,), seconds),
    ensures
        request.task == task,
        request.cwd == cwd,
        request.model == model,
        request.effort == effort,
        request.mode == mode,
        seconds == minutes * 60,
{
}

/// A failure that comes after the deadline gets that as its outermost cause, and the exit
/// status of a missed deadline; one that comes before it stays as it is, and the status
/// tells of a deadline only if the failure itself does.
pub proof fn late_failures_are_put_down_to_the_deadline(
    error: Error,
    passed: bool,
    failure: Error,
    status: i32,
)
    requires
        call_ensures(late_failure, (error, passed), failure),
        call_ensures(exit_status, (&failure,), status),
    ensures
        passed ==> failure@ == seq![Reason::TimedOut] + error@ && status == 124,
        !passed ==> failure@ == error@,
        !passed && !error@.contains(Reason::TimedOut) ==> status == 1,
        !passed && error@.contains(Reason::TimedOut) ==> status == 124,
{
    context_keeps_deadline(Reason::TimedOut, error@);
}

} // verus!
