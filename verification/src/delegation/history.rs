//! What holds of the account of one run, and of any number of runs after one another.

use crate::delegation::application::{
    delegate, delegation_calls, resume, resumption_calls, status_after, turn_calls, Session,
    SessionId, SessionStatus, ThreadId, WorkerRequest, WorkerResponse,
};
use crate::delegation::desk::{answered, Call, Desk};
use crate::delegation::ports::{SessionStore, Worker, WorkerThread};
use crate::error::{Error, Reason};
use vstd::prelude::*;

verus! {

/// The call asks the store to keep a session of that name.
pub open spec fn saves<T>(call: Call<T>, id: Seq<char>) -> bool {
    call is Save && call->session.session_id.0@ == id
}

/// The session of that name that the store has agreed to keep last.
pub open spec fn last_saved<T>(calls: Seq<Call<T>>, id: Seq<char>) -> Option<Session>
    decreases calls.len(),
{
    if calls.len() == 0 {
        None
    } else if saves(calls.last(), id) && calls.last()->kept is Ok {
        Some(calls.last()->session)
    } else {
        last_saved(calls.drop_last(), id)
    }
}

/// The calls of all the runs, one run after the other.
pub open spec fn history<T>(runs: Seq<Seq<Call<T>>>) -> Seq<Call<T>>
    decreases runs.len(),
{
    if runs.len() == 0 {
        Seq::empty()
    } else {
        history(runs.drop_last()) + runs.last()
    }
}

/// A delegation after those calls, whose session got a name that none had before.
pub open spec fn is_fresh_delegation<T>(
    before: Seq<Call<T>>,
    run: Seq<Call<T>>,
    request: WorkerRequest,
    result: Result<(SessionId, WorkerResponse), Error>,
) -> bool {
    &&& delegation_calls(request, run, result)
    &&& run.len() > 1 ==> forall|i: int|
        0 <= i < before.len() ==> !saves(#[trigger] before[i], run[1]->session.session_id.0@)
}

/// A session resumed after those calls, with a store that gives back nothing but
/// what it has agreed to keep last.
pub open spec fn is_faithful_resumption<T>(
    before: Seq<Call<T>>,
    run: Seq<Call<T>>,
    id: SessionId,
    request: WorkerRequest,
    result: Result<(SessionId, WorkerResponse), Error>,
) -> bool {
    &&& resumption_calls(id, request, run, result)
    &&& run[0]->found is Ok ==> last_saved(before, id.0@) == Some(run[0]->found->Ok_0)
}

/// Runs after one another: delegations under fresh names, and sessions resumed from
/// a store that gives back what it was given last.
pub open spec fn are_runs<T>(runs: Seq<Seq<Call<T>>>) -> bool
    decreases runs.len(),
{
    runs.len() > 0 ==> {
        let before = history(runs.drop_last());
        &&& are_runs(runs.drop_last())
        &&& {
            ||| exists|
                request: WorkerRequest,
                result: Result<(SessionId, WorkerResponse), Error>,
            | #[trigger]
                is_fresh_delegation(before, runs.last(), request, result)
            ||| exists|
                id: SessionId,
                request: WorkerRequest,
                result: Result<(SessionId, WorkerResponse), Error>,
            | #[trigger]
                is_faithful_resumption(before, runs.last(), id, request, result)
        }
    }
}

/// Under one name, one thread: whatever is saved of a session, and whenever, it has
/// the same thread.
pub open spec fn one_thread_each<T>(calls: Seq<Call<T>>) -> bool {
    forall|i: int, j: int|
        0 <= i < calls.len() && 0 <= j < calls.len() && (#[trigger] calls[i]) is Save && (
        #[trigger] calls[j]) is Save && calls[i]->session.session_id.0@
            == calls[j]->session.session_id.0@ ==> calls[i]->session.thread_id
            == calls[j]->session.thread_id
}

/// The call after that one asks the worker to go on with that thread.
pub open spec fn next_asks_for<T>(calls: Seq<Call<T>>, i: int, thread_id: ThreadId) -> bool {
    i + 1 < calls.len() && calls[i + 1] is Resume && calls[i + 1]->thread_id == thread_id
}

/// Whenever a session is found, the very next call asks the worker to go on with
/// the thread under which that session was saved, at any time.
pub open spec fn found_threads_are_asked_for<T>(calls: Seq<Call<T>>) -> bool {
    forall|i: int, j: int|
        0 <= i < calls.len() && 0 <= j < calls.len() && calls[i] is Load && calls[i]->found is Ok
            && saves(calls[j], calls[i]->id.0@) ==> #[trigger] next_asks_for(
            calls,
            i,
            calls[j]->session.thread_id,
        )
}

/// The call after that one asks the worker to go on with a thread under which the
/// session that the one asks for was saved.
spec fn next_asks_for_a_saved_thread<T>(calls: Seq<Call<T>>, i: int) -> bool {
    exists|j: int|
        0 <= j < calls.len() && saves(calls[j], calls[i]->id.0@) && #[trigger] next_asks_for(
            calls,
            i,
            calls[j]->session.thread_id,
        )
}

/// Whenever a session is found, the worker is asked next to go on with a thread
/// under which that session was saved.
spec fn found_threads_were_saved<T>(calls: Seq<Call<T>>) -> bool {
    forall|i: int|
        0 <= i < calls.len() && calls[i] is Load && calls[i]->found is Ok ==> #[trigger]
            next_asks_for_a_saved_thread(calls, i)
}

/// A session that was saved last was saved by one of the calls.
proof fn lemma_last_saved<T>(calls: Seq<Call<T>>, id: Seq<char>) -> (i: int)
    requires
        last_saved(calls, id) is Some,
    ensures
        0 <= i < calls.len(),
        saves(calls[i], id),
        calls[i]->session == last_saved(calls, id)->Some_0,
    decreases calls.len(),
{
    if saves(calls.last(), id) && calls.last()->kept is Ok {
        calls.len() - 1
    } else {
        lemma_last_saved(calls.drop_last(), id)
    }
}

/// Calls by which the store keeps nothing of a session do not change what it has.
proof fn lemma_nothing_saved<T>(before: Seq<Call<T>>, run: Seq<Call<T>>, id: Seq<char>)
    requires
        forall|i: int|
            0 <= i < run.len() ==> !(saves(#[trigger] run[i], id) && run[i]->kept is Ok),
    ensures
        last_saved(before + run, id) == last_saved(before, id),
    decreases run.len(),
{
    if run.len() == 0 {
        assert(before + run =~= before);
    } else {
        assert((before + run).drop_last() =~= before + run.drop_last());
        assert((before + run).last() == run[run.len() - 1]);
        lemma_nothing_saved(before, run.drop_last(), id);
    }
}

/// What is saved in a turn is saved under the names of its session, and a turn
/// neither loads nor reopens anything.
proof fn lemma_turn_calls<T>(
    session: Session,
    thread: T,
    request: WorkerRequest,
    calls: Seq<Call<T>>,
    result: Result<(SessionId, WorkerResponse), Error>,
)
    requires
        turn_calls(session, thread, request, calls, result),
    ensures
        1 <= calls.len() <= 4,
        forall|i: int|
            0 <= i < calls.len() ==> (#[trigger] calls[i]) !is Load && (calls[i] is Save ==> {
                &&& calls[i]->session.session_id == session.session_id
                &&& calls[i]->session.thread_id == session.thread_id
            }),
{
}

/// What is saved in a delegation is saved under the name that it gives, and under
/// the name of the thread that it started.
proof fn lemma_delegation_calls<T>(
    request: WorkerRequest,
    calls: Seq<Call<T>>,
    result: Result<(SessionId, WorkerResponse), Error>,
)
    requires
        delegation_calls(request, calls, result),
    ensures
        calls[0]->opened is Ok ==> calls.len() > 1 && calls[1] is Save
            && calls[1]->session.thread_id == calls[0]->opened->Ok_0.1,
        calls[0]->opened is Err ==> calls.len() == 1,
        result is Ok ==> calls[0]->opened is Ok && result->Ok_0.0
            == calls[1]->session.session_id,
        forall|i: int|
            0 <= i < calls.len() ==> (#[trigger] calls[i]) !is Load && (calls[i] is Save ==> {
                &&& calls.len() > 1
                &&& calls[i]->session.session_id == calls[1]->session.session_id
                &&& calls[i]->session.thread_id == calls[1]->session.thread_id
            }),
{
    if calls[0]->opened is Ok {
        let rest = calls.skip(1);
        lemma_turn_calls(
            calls[1]->session,
            calls[0]->opened->Ok_0.0,
            request,
            rest,
            result,
        );
        assert forall|i: int| 1 <= i < calls.len() implies #[trigger] calls[i] == rest[i - 1] by {}
        assert(rest[0] == calls[1]);
    }
}

/// What is saved when a session is resumed is saved under the names that were found.
proof fn lemma_resumption_calls<T>(
    id: SessionId,
    request: WorkerRequest,
    calls: Seq<Call<T>>,
    result: Result<(SessionId, WorkerResponse), Error>,
)
    requires
        resumption_calls(id, request, calls, result),
    ensures
        calls[0]->found is Ok ==> calls.len() > 1 && calls[1] is Resume && calls[1]->thread_id
            == calls[0]->found->Ok_0.thread_id,
        result is Ok ==> calls[0]->found is Ok && result->Ok_0.0
            == calls[0]->found->Ok_0.session_id,
        forall|i: int|
            0 < i < calls.len() ==> (#[trigger] calls[i]) !is Load && (calls[i] is Save ==> {
                &&& calls[0]->found is Ok
                &&& calls[i]->session.session_id == calls[0]->found->Ok_0.session_id
                &&& calls[i]->session.thread_id == calls[0]->found->Ok_0.thread_id
            }),
{
    if calls[0]->found is Ok && calls[1]->reopened is Ok {
        let rest = calls.skip(2);
        lemma_turn_calls(
            calls[0]->found->Ok_0.continued(request),
            calls[1]->reopened->Ok_0,
            request,
            rest,
            result,
        );
        assert forall|i: int| 2 <= i < calls.len() implies #[trigger] calls[i] == rest[i - 2] by {}
    }
}

/// Once both saves of a turn were kept, the store has the session with what the
/// turn came to: completed exactly if there is a response, and running in no case.
/// How the thread was shut down makes no difference to that.
pub proof fn records_tell_how_the_turn_came_out<T>(
    session: Session,
    thread: T,
    request: WorkerRequest,
    calls: Seq<Call<T>>,
    result: Result<(SessionId, WorkerResponse), Error>,
)
    requires
        turn_calls(session, thread, request, calls, result),
        calls[0]->kept is Ok,
        calls[2]->kept is Ok,
    ensures
        last_saved(calls, session.session_id.0@) == Some(
            session.ended(status_after(calls[1]->outcome)),
        ),
        status_after(calls[1]->outcome) != SessionStatus::Running,
        status_after(calls[1]->outcome) == SessionStatus::Completed <==> calls[1]->outcome is Ok,
{
    assert(calls.drop_last().last() == calls[2]);
    assert(!saves(calls.last(), session.session_id.0@));
    assert(last_saved(calls, session.session_id.0@) == last_saved(
        calls.drop_last(),
        session.session_id.0@,
    ));
}

/// Where a delegation gives a response, it is the one that the started thread gave,
/// blocked or not; there were five calls; and what the store has of the session is
/// that it was completed.
pub proof fn responses_leave_a_completed_session<T>(
    request: WorkerRequest,
    calls: Seq<Call<T>>,
    id: SessionId,
    response: WorkerResponse,
)
    requires
        delegation_calls(request, calls, Ok((id, response))),
    ensures
        calls.len() == 5,
        calls[0] is Start && calls[0]->opened is Ok,
        calls[1] is Save && calls[1]->session.status == SessionStatus::Running,
        calls[2] is Turn && calls[2]->Turn_thread == calls[0]->opened->Ok_0.0,
        calls[2]->outcome == Ok::<WorkerResponse, Error>(response),
        calls[3] is Save,
        calls[4] is Shutdown && calls[4]->Shutdown_thread == calls[2]->left,
        last_saved(calls, id.0@) == Some(
            Session::begun(id, calls[0]->opened->Ok_0.1, request).ended(SessionStatus::Completed),
        ),
{
    let result: Result<(SessionId, WorkerResponse), Error> = Ok((id, response));
    let rest = calls.skip(1);
    let session = calls[1]->session;
    assert(turn_calls(session, calls[0]->opened->Ok_0.0, request, rest, result));
    assert(rest[0] == calls[1] && rest[1] == calls[2] && rest[2] == calls[3] && rest[3]
        == calls[4]);
    assert(rest[1]->outcome == Ok::<WorkerResponse, Error>(response));
    records_tell_how_the_turn_came_out(
        session,
        calls[0]->opened->Ok_0.0,
        request,
        rest,
        result,
    );
    lemma_after_other_calls(calls.take(1), rest, id.0@);
    assert(calls =~= calls.take(1) + rest);
}

/// Where a resumed session gives a response, it is the one that the reopened thread
/// gave; there were six calls; and what the store has of the session is that it was
/// completed, with what was asked for this time.
pub proof fn resumed_responses_leave_a_completed_session<T>(
    name: SessionId,
    request: WorkerRequest,
    calls: Seq<Call<T>>,
    id: SessionId,
    response: WorkerResponse,
)
    requires
        resumption_calls(name, request, calls, Ok((id, response))),
    ensures
        calls.len() == 6,
        calls[0] is Load && calls[0]->found is Ok,
        calls[1] is Resume && calls[1]->reopened is Ok,
        calls[2] is Save && calls[2]->session.status == SessionStatus::Running,
        calls[3] is Turn && calls[3]->Turn_thread == calls[1]->reopened->Ok_0,
        calls[3]->outcome == Ok::<WorkerResponse, Error>(response),
        calls[4] is Save,
        calls[5] is Shutdown && calls[5]->Shutdown_thread == calls[3]->left,
        id == calls[0]->found->Ok_0.session_id,
        last_saved(calls, id.0@) == Some(
            calls[0]->found->Ok_0.continued(request).ended(SessionStatus::Completed),
        ),
{
    let result: Result<(SessionId, WorkerResponse), Error> = Ok((id, response));
    let rest = calls.skip(2);
    let session = calls[0]->found->Ok_0.continued(request);
    assert(turn_calls(session, calls[1]->reopened->Ok_0, request, rest, result));
    assert(rest[0] == calls[2] && rest[1] == calls[3] && rest[2] == calls[4] && rest[3]
        == calls[5]);
    assert(rest[1]->outcome == Ok::<WorkerResponse, Error>(response));
    records_tell_how_the_turn_came_out(
        session,
        calls[1]->reopened->Ok_0,
        request,
        rest,
        result,
    );
    lemma_after_other_calls(calls.take(2), rest, id.0@);
    assert(calls =~= calls.take(2) + rest);
}

/// What was saved last of a session does not depend on earlier calls.
proof fn lemma_after_other_calls<T>(before: Seq<Call<T>>, run: Seq<Call<T>>, id: Seq<char>)
    requires
        last_saved(run, id) is Some,
    ensures
        last_saved(before + run, id) == last_saved(run, id),
    decreases run.len(),
{
    assert((before + run).drop_last() =~= before + run.drop_last());
    assert((before + run).last() == run.last());
    if !(saves(run.last(), id) && run.last()->kept is Ok) {
        lemma_after_other_calls(before, run.drop_last(), id);
    }
}

/// A delegation for which no thread could be started saves nothing: what the store
/// has is what it had.
pub proof fn without_a_thread_nothing_is_saved<T>(
    before: Seq<Call<T>>,
    request: WorkerRequest,
    calls: Seq<Call<T>>,
    result: Result<(SessionId, WorkerResponse), Error>,
    id: Seq<char>,
)
    requires
        delegation_calls(request, calls, result),
        calls[0]->opened is Err,
    ensures
        forall|i: int| 0 <= i < calls.len() ==> (#[trigger] calls[i]) !is Save,
        last_saved(before + calls, id) == last_saved(before, id),
{
    lemma_nothing_saved(before, calls, id);
}

/// A session that was not found, or whose thread could not be reopened, stays as it
/// was, and so does every other.
pub proof fn sessions_that_do_not_reopen_stay_as_they_were<T>(
    before: Seq<Call<T>>,
    id: SessionId,
    request: WorkerRequest,
    calls: Seq<Call<T>>,
    result: Result<(SessionId, WorkerResponse), Error>,
    other: Seq<char>,
)
    requires
        resumption_calls(id, request, calls, result),
        calls[0]->found is Err || calls[1]->reopened is Err,
    ensures
        forall|i: int| 0 <= i < calls.len() ==> (#[trigger] calls[i]) !is Save,
        calls[0]->found is Err ==> calls.len() == 1,
        last_saved(before + calls, other) == last_saved(before, other),
{
    lemma_nothing_saved(before, calls, other);
}

/// A delegation under a fresh name keeps to the threads.
proof fn lemma_delegation_keeps_threads<T>(
    before: Seq<Call<T>>,
    run: Seq<Call<T>>,
    request: WorkerRequest,
    result: Result<(SessionId, WorkerResponse), Error>,
)
    requires
        one_thread_each(before),
        is_fresh_delegation(before, run, request, result),
    ensures
        one_thread_each(before + run),
{
    let calls = before + run;
    let n = before.len() as int;
    lemma_delegation_calls(request, run, result);
    assert forall|i: int, j: int|
        0 <= i < calls.len() && 0 <= j < calls.len() && (#[trigger] calls[i]) is Save && (
        #[trigger] calls[j]) is Save && calls[i]->session.session_id.0@
            == calls[j]->session.session_id.0@ implies calls[i]->session.thread_id
        == calls[j]->session.thread_id by {
        assert(calls[i] == if i < n { before[i] } else { run[i - n] });
        assert(calls[j] == if j < n { before[j] } else { run[j - n] });
    }
}

/// A session resumed from what was saved last keeps to the threads.
proof fn lemma_resumption_keeps_threads<T>(
    before: Seq<Call<T>>,
    run: Seq<Call<T>>,
    id: SessionId,
    request: WorkerRequest,
    result: Result<(SessionId, WorkerResponse), Error>,
)
    requires
        one_thread_each(before),
        is_faithful_resumption(before, run, id, request, result),
    ensures
        one_thread_each(before + run),
{
    let calls = before + run;
    let n = before.len() as int;
    lemma_resumption_calls(id, request, run, result);
    assert forall|i: int, j: int|
        0 <= i < calls.len() && 0 <= j < calls.len() && (#[trigger] calls[i]) is Save && (
        #[trigger] calls[j]) is Save && calls[i]->session.session_id.0@
            == calls[j]->session.session_id.0@ implies calls[i]->session.thread_id
        == calls[j]->session.thread_id by {
        assert(calls[i] == if i < n { before[i] } else { run[i - n] });
        assert(calls[j] == if j < n { before[j] } else { run[j - n] });
        if run[0]->found is Ok {
            let k = lemma_last_saved(before, id.0@);
            assert(before[k] is Save);
        }
    }
}

/// What was asked for before a run was saved before it, too.
proof fn lemma_found_before_run<T>(before: Seq<Call<T>>, run: Seq<Call<T>>, i: int)
    requires
        found_threads_were_saved(before),
        0 <= i < before.len(),
        before[i] is Load,
        before[i]->found is Ok,
    ensures
        next_asks_for_a_saved_thread(before + run, i),
{
    let calls = before + run;
    assert(next_asks_for_a_saved_thread(before, i));
    let j = choose|j: int|
        0 <= j < before.len() && saves(before[j], before[i]->id.0@) && #[trigger] next_asks_for(
            before,
            i,
            before[j]->session.thread_id,
        );
    assert(calls[j] == before[j]);
    assert(calls[i + 1] == before[i + 1]);
    assert(next_asks_for(calls, i, calls[j]->session.thread_id));
}

/// What is asked for in a run was saved before it.
proof fn lemma_found_in_run<T>(
    before: Seq<Call<T>>,
    run: Seq<Call<T>>,
    id: SessionId,
    request: WorkerRequest,
    result: Result<(SessionId, WorkerResponse), Error>,
)
    requires
        is_faithful_resumption(before, run, id, request, result),
        run[0]->found is Ok,
    ensures
        next_asks_for_a_saved_thread(before + run, before.len() as int),
{
    let calls = before + run;
    lemma_resumption_calls(id, request, run, result);
    let k = lemma_last_saved(before, id.0@);
    assert(calls[k] == before[k]);
    assert(calls[before.len() as int] == run[0]);
    assert(calls[before.len() as int + 1] == run[1]);
    assert(next_asks_for(calls, before.len() as int, calls[k]->session.thread_id));
}

/// After any number of runs, whatever was saved of a session has the same thread,
/// and every time a session was found, the worker was asked next to go on with that
/// very thread.
pub proof fn sessions_stay_with_their_threads<T>(runs: Seq<Seq<Call<T>>>)
    requires
        are_runs(runs),
    ensures
        one_thread_each(history(runs)),
        found_threads_are_asked_for(history(runs)),
{
    lemma_runs(runs);
    let calls = history(runs);
    assert forall|i: int, j: int|
        0 <= i < calls.len() && 0 <= j < calls.len() && calls[i] is Load && calls[i]->found is Ok
            && saves(calls[j], calls[i]->id.0@) implies #[trigger] next_asks_for(
        calls,
        i,
        calls[j]->session.thread_id,
    ) by {
        assert(next_asks_for_a_saved_thread(calls, i));
    }
}

proof fn lemma_runs<T>(runs: Seq<Seq<Call<T>>>)
    requires
        are_runs(runs),
    ensures
        one_thread_each(history(runs)),
        found_threads_were_saved(history(runs)),
    decreases runs.len(),
{
    if runs.len() > 0 {
        let before = history(runs.drop_last());
        let run = runs.last();
        let calls = before + run;
        lemma_runs(runs.drop_last());
        if exists|request: WorkerRequest, result: Result<(SessionId, WorkerResponse), Error>|
            #[trigger] is_fresh_delegation(before, run, request, result) {
            let (request, result) = choose|
                request: WorkerRequest,
                result: Result<(SessionId, WorkerResponse), Error>,
            | #[trigger]
                is_fresh_delegation(before, run, request, result);
            lemma_delegation_keeps_threads(before, run, request, result);
            lemma_delegation_calls(request, run, result);
            assert forall|i: int|
                0 <= i < calls.len() && calls[i] is Load && calls[i]->found
                    is Ok implies #[trigger] next_asks_for_a_saved_thread(calls, i) by {
                assert(i >= before.len() ==> calls[i] == run[i - before.len()]);
                lemma_found_before_run(before, run, i);
            }
        } else {
            let (id, request, result) = choose|
                id: SessionId,
                request: WorkerRequest,
                result: Result<(SessionId, WorkerResponse), Error>,
            | #[trigger]
                is_faithful_resumption(before, run, id, request, result);
            lemma_resumption_keeps_threads(before, run, id, request, result);
            lemma_resumption_calls(id, request, run, result);
            assert forall|i: int|
                0 <= i < calls.len() && calls[i] is Load && calls[i]->found
                    is Ok implies #[trigger] next_asks_for_a_saved_thread(calls, i) by {
                assert(i >= before.len() ==> calls[i] == run[i - before.len()]);
                if i < before.len() {
                    lemma_found_before_run(before, run, i);
                } else {
                    lemma_found_in_run(before, run, id, request, result);
                }
            }
        }
    }
}

/// Every call of every run has its place in the history.
proof fn lemma_history_holds<T>(runs: Seq<Seq<Call<T>>>, k: int, j: int) -> (i: int)
    requires
        0 <= k < runs.len(),
        0 <= j < runs[k].len(),
    ensures
        0 <= i < history(runs).len(),
        history(runs)[i] == runs[k][j],
        j + 1 < runs[k].len() ==> i + 1 < history(runs).len() && history(runs)[i + 1]
            == runs[k][j + 1],
    decreases runs.len(),
{
    if k == runs.len() - 1 {
        history(runs.drop_last()).len() + j
    } else {
        lemma_history_holds(runs.drop_last(), k, j)
    }
}

/// The name that a delegation gives back is good to go on in the same thread. After
/// it, any number of sessions may have been delegated and resumed, this one among
/// them: resuming it asks the worker for the very thread that the delegation had
/// started, unless the store does not find it; and what comes of it is again given
/// back under that name.
pub proof fn resuming_continues_the_delegated_thread<T>(
    runs: Seq<Seq<Call<T>>>,
    k: int,
    request: WorkerRequest,
    id: SessionId,
    response: WorkerResponse,
    name: SessionId,
    next_request: WorkerRequest,
    result: Result<(SessionId, WorkerResponse), Error>,
)
    requires
        are_runs(runs),
        0 <= k < runs.len() - 1,
        delegation_calls(request, runs[k], Ok((id, response))),
        is_faithful_resumption(
            history(runs.drop_last()),
            runs.last(),
            name,
            next_request,
            result,
        ),
        name.0@ == id.0@,
    ensures
        runs[k][0]->opened is Ok,
        runs.last()[0]->found is Ok ==> next_asks_for(
            runs.last(),
            0,
            runs[k][0]->opened->Ok_0.1,
        ),
        runs.last()[0]->found is Err ==> runs.last().len() == 1 && result is Err,
        result is Ok ==> result->Ok_0.0.0@ == id.0@,
{
    sessions_stay_with_their_threads(runs);
    lemma_delegation_calls(request, runs[k], Ok((id, response)));
    lemma_resumption_calls(name, next_request, runs.last(), result);
    let j = lemma_history_holds(runs, k, 1);
    let i = lemma_history_holds(runs, runs.len() - 1, 0);
    let calls = history(runs);
    assert(saves(calls[j], id.0@));
    if runs.last()[0]->found is Ok {
        assert(next_asks_for(calls, i, calls[j]->session.thread_id));
        lemma_last_saved(history(runs.drop_last()), name.0@);
    }
}

/// What a delegation does and gives, call by call. With a thread it saves a running
/// session under a fresh name, takes one turn in that thread, saves the session again
/// with how the turn came out, and shuts that thread down; and whenever the turn gives a
/// response and nothing else fails, that response is given back, under the name that was
/// saved. The first start or save that fails ends the run, and is told as it is.
pub proof fn delegations_give_what_their_worker_gave<W: Worker, S: SessionStore>(
    request: WorkerRequest,
    result: Result<(SessionId, WorkerResponse), Error>,
)
    ensures
        forall|desk: &mut Desk<W, S>| #[trigger]
            call_ensures(delegate::<W, S>, (desk, &request), result) ==> {
                let run = final(desk).calls().skip((*desk).calls().len() as int);
                &&& final(desk).calls() == (*desk).calls() + run
                &&& forall|i: int|
                    0 <= i < run.len() ==> answered(
                        (*desk).worker(),
                        (*desk).store(),
                        #[trigger] run[i],
                    )
                &&& final(desk).thread() is None
                &&& run.len() > 0
                &&& run[0] is Start
                &&& run[0]->Start_request == request
                &&& run.len() == (if run[0]->opened is Err {
                    1nat
                } else if run[1]->kept is Err {
                    2nat
                } else if run[3]->kept is Err {
                    4nat
                } else {
                    5nat
                })
                &&& run.len() == 1 ==> result is Err && result->Err_0 == run[0]->opened->Err_0
                &&& run.len() > 1 ==> {
                    &&& run[1] is Save
                    &&& call_ensures(SessionId::new, (), run[1]->session.session_id)
                    &&& run[1]->session.thread_id == run[0]->opened->Ok_0.1
                    &&& run[1]->session.cwd == request.cwd
                    &&& run[1]->session.model == request.model
                    &&& run[1]->session.effort == request.effort
                    &&& run[1]->session.mode == request.mode
                    &&& run[1]->session.status == SessionStatus::Running
                }
                &&& run.len() > 2 ==> exists|during: &mut W::Thread| #[trigger]
                    call_ensures(W::Thread::turn, (during, &request), run[2]->outcome)
                        && *during == run[2]->Turn_thread && *final(during) == run[2]->left
                &&& run.len() > 2 ==> {
                    &&& run[2] is Turn
                    &&& run[2]->Turn_thread == run[0]->opened->Ok_0.0
                    &&& run[2]->Turn_request == request
                    &&& run[3] is Save
                    &&& run[3]->session.session_id == run[1]->session.session_id
                    &&& run[3]->session.thread_id == run[1]->session.thread_id
                    &&& run[3]->session.cwd == run[1]->session.cwd
                    &&& run[3]->session.model == run[1]->session.model
                    &&& run[3]->session.effort == run[1]->session.effort
                    &&& run[3]->session.mode == run[1]->session.mode
                    &&& run[3]->session.status == (match run[2]->outcome {
                        Ok(_) => SessionStatus::Completed,
                        Err(error) => if error@.contains(Reason::Interrupted) {
                            SessionStatus::Interrupted
                        } else {
                            SessionStatus::Failed
                        },
                    })
                }
                &&& run.len() > 4 ==> {
                    &&& run[4] is Shutdown
                    &&& run[4]->Shutdown_thread == run[2]->left
                    &&& match (run[2]->outcome, run[4]->closed) {
                        (Ok(response), Ok(_)) => {
                            &&& result is Ok
                            &&& result->Ok_0.0 == run[1]->session.session_id
                            &&& result->Ok_0.1 == response
                        },
                        (Ok(_), Err(error)) => result is Err && result->Err_0 == error,
                        (Err(error), _) => {
                            let id = run[1]->session.session_id.0@;
                            let told = Reason::Message("session: "@ + id + " failed"@);
                            &&& result is Err
                            &&& result->Err_0@ == seq![told] + error@
                        },
                    }
                }
                &&& run.len() == 2 ==> result is Err && run[1]->kept is Err && result->Err_0
                    == run[1]->kept->Err_0
                &&& run.len() == 4 ==> result is Err && run[3]->kept is Err && result->Err_0
                    == run[3]->kept->Err_0
            },
{
    assert forall|desk: &mut Desk<W, S>| #[trigger]
        call_ensures(delegate::<W, S>, (desk, &request), result) implies final(desk).calls()
        == (*desk).calls() + final(desk).calls().skip((*desk).calls().len() as int) by {}
}

/// What resuming a session does and gives, call by call. A session that is found is gone
/// on with in its own thread, and from there on as a delegation is; what is saved of it
/// keeps its names.
pub proof fn resumptions_give_what_their_worker_gave<W: Worker, S: SessionStore>(
    id: SessionId,
    request: WorkerRequest,
    result: Result<(SessionId, WorkerResponse), Error>,
)
    ensures
        forall|desk: &mut Desk<W, S>| #[trigger]
            call_ensures(resume::<W, S>, (desk, &id, &request), result) ==> {
                let run = final(desk).calls().skip((*desk).calls().len() as int);
                &&& final(desk).calls() == (*desk).calls() + run
                &&& forall|i: int|
                    0 <= i < run.len() ==> answered(
                        (*desk).worker(),
                        (*desk).store(),
                        #[trigger] run[i],
                    )
                &&& final(desk).thread() is None
                &&& run.len() > 0
                &&& run[0] is Load
                &&& run[0]->id == id
                &&& run.len() == (if run[0]->found is Err {
                    1nat
                } else if run[1]->reopened is Err {
                    2nat
                } else if run[2]->kept is Err {
                    3nat
                } else if run[4]->kept is Err {
                    5nat
                } else {
                    6nat
                })
                &&& run.len() == 1 ==> result is Err && result->Err_0 == run[0]->found->Err_0
                &&& run.len() == 2 ==> result is Err && result->Err_0 == run[1]->reopened->Err_0
                &&& run.len() > 1 ==> {
                    &&& run[1] is Resume
                    &&& run[1]->thread_id == run[0]->found->Ok_0.thread_id
                    &&& run[1]->Resume_request == request
                }
                &&& run.len() > 2 ==> {
                    &&& run[2] is Save
                    &&& run[2]->session.session_id == run[0]->found->Ok_0.session_id
                    &&& run[2]->session.thread_id == run[0]->found->Ok_0.thread_id
                    &&& run[2]->session.cwd == request.cwd
                    &&& run[2]->session.model == request.model
                    &&& run[2]->session.effort == request.effort
                    &&& run[2]->session.mode == request.mode
                    &&& run[2]->session.status == SessionStatus::Running
                }
                &&& run.len() > 3 ==> exists|during: &mut W::Thread| #[trigger]
                    call_ensures(W::Thread::turn, (during, &request), run[3]->outcome)
                        && *during == run[3]->Turn_thread && *final(during) == run[3]->left
                &&& run.len() > 3 ==> {
                    &&& run[3] is Turn
                    &&& run[3]->Turn_thread == run[1]->reopened->Ok_0
                    &&& run[3]->Turn_request == request
                    &&& run[4] is Save
                    &&& run[4]->session.session_id == run[2]->session.session_id
                    &&& run[4]->session.thread_id == run[2]->session.thread_id
                    &&& run[4]->session.cwd == run[2]->session.cwd
                    &&& run[4]->session.model == run[2]->session.model
                    &&& run[4]->session.effort == run[2]->session.effort
                    &&& run[4]->session.mode == run[2]->session.mode
                    &&& run[4]->session.status == (match run[3]->outcome {
                        Ok(_) => SessionStatus::Completed,
                        Err(error) => if error@.contains(Reason::Interrupted) {
                            SessionStatus::Interrupted
                        } else {
                            SessionStatus::Failed
                        },
                    })
                }
                &&& run.len() > 5 ==> {
                    &&& run[5] is Shutdown
                    &&& run[5]->Shutdown_thread == run[3]->left
                    &&& match (run[3]->outcome, run[5]->closed) {
                        (Ok(response), Ok(_)) => {
                            &&& result is Ok
                            &&& result->Ok_0.0 == run[2]->session.session_id
                            &&& result->Ok_0.1 == response
                        },
                        (Ok(_), Err(error)) => result is Err && result->Err_0 == error,
                        (Err(error), _) => {
                            let id = run[2]->session.session_id.0@;
                            let told = Reason::Message("session: "@ + id + " failed"@);
                            &&& result is Err
                            &&& result->Err_0@ == seq![told] + error@
                        },
                    }
                }
                &&& run.len() == 3 ==> result is Err && run[2]->kept is Err && result->Err_0
                    == run[2]->kept->Err_0
                &&& run.len() == 5 ==> result is Err && run[4]->kept is Err && result->Err_0
                    == run[4]->kept->Err_0
            },
{
    assert forall|desk: &mut Desk<W, S>| #[trigger]
        call_ensures(resume::<W, S>, (desk, &id, &request), result) implies final(desk).calls()
        == (*desk).calls() + final(desk).calls().skip((*desk).calls().len() as int) by {}
}

/// The account is true: every entry is a call that the worker, its thread or the store has
/// answered in that way.
pub proof fn accounts_are_true<W: Worker, S: SessionStore>(
    worker: W,
    store: S,
    call: Call<W::Thread>,
)
    requires
        answered(worker, store, call),
    ensures
        match call {
            Call::Start { request, opened: Ok((thread, name)) } => {
                &&& call_ensures(W::start, (&worker, &request), Ok(thread))
                &&& call_ensures(W::Thread::thread_id, (&thread,), &name)
            },
            Call::Start { request, opened: Err(error) } => call_ensures(
                W::start,
                (&worker, &request),
                Err(error),
            ),
            Call::Resume { thread_id, request, reopened } => call_ensures(
                W::resume,
                (&worker, &thread_id, &request),
                reopened,
            ),
            Call::Load { id, found } => call_ensures(S::load, (&store, &id), found),
            Call::Save { session, kept } => call_ensures(S::save, (&store, &session), kept),
            Call::Turn { thread, request, outcome, .. } => exists|during: &mut W::Thread| #[trigger]
                call_ensures(W::Thread::turn, (during, &request), outcome) && *during == thread,
            Call::Shutdown { thread, closed } => exists|during: &mut W::Thread| #[trigger]
                call_ensures(W::Thread::shutdown, (during,), closed) && *during == thread,
        },
{
}

} // verus!
