//! Sessions, and the two ways to hand work to a worker: in a fresh thread, and
//! in one that exists.

use crate::delegation::desk::{Call, Desk};
use crate::delegation::ports::{SessionStore, Worker, WorkerThread};
use crate::error::{just, wrapped, Cause, Error, Reason};
use vstd::prelude::*;

verus! {

/// The name of a session.
#[derive(Debug, Clone, PartialEq, Eq, Hash)]
pub struct SessionId(pub String);

/// The name by which the worker knows a thread.
#[derive(Debug, Clone, PartialEq, Eq, Hash)]
pub struct ThreadId(pub String);

/// Whether the worker may change files.
#[derive(Debug, Clone, Copy, PartialEq, Eq, Hash)]
pub enum Mode {
    Inspect,
    Edit,
}

/// How far a session has come.
#[derive(Debug, Clone, Copy, PartialEq, Eq, Hash)]
pub enum SessionStatus {
    Running,
    Completed,
    Failed,
    Interrupted,
}

/// What is kept of a thread between two turns.
#[derive(Debug, Clone, PartialEq)]
pub struct Session {
    pub session_id: SessionId,
    pub thread_id: ThreadId,
    pub cwd: String,
    pub model: String,
    pub effort: String,
    pub mode: Mode,
    pub status: SessionStatus,
}

/// What a worker is asked to do, and how.
#[derive(Debug, Clone)]
pub struct WorkerRequest {
    pub task: String,
    pub cwd: String,
    pub model: String,
    pub effort: String,
    pub mode: Mode,
}

/// Whether the worker did what it was asked.
#[derive(Debug, Clone, Copy, PartialEq, Eq, Hash)]
pub enum WorkerStatus {
    Done,
    Blocked,
}

/// What the worker reports.
#[derive(Debug, Clone, PartialEq)]
pub struct WorkerResponse {
    pub status: WorkerStatus,
    pub summary: String,
    pub evidence: Vec<String>,
    pub changed_files: Vec<String>,
    pub tests: Vec<String>,
    pub open_questions: Vec<String>,
}

/// The tokens that a turn took, where the worker told.
#[derive(Debug, Clone, Copy, PartialEq, Eq)]
pub struct TokenUsage {
    pub input_tokens: Option<u64>,
    pub cached_input_tokens: Option<u64>,
    pub output_tokens: Option<u64>,
}

/// What a thread knows of its own cost.
#[derive(Debug, Clone, Copy, PartialEq, Eq)]
pub struct WorkerMetrics {
    pub usage: Option<TokenUsage>,
    pub startup_milliseconds: Option<u64>,
}

/// A digit of Crockford's base 32.
pub open spec fn is_base32_digit(c: char) -> bool {
    ||| '0' <= c <= '9'
    ||| 'A' <= c <= 'Z' && c != 'I' && c != 'L' && c != 'O' && c != 'U'
}

/// The canonical text of a ULID: 26 digits, of which the first is at most 7.
pub open spec fn is_ulid_text(text: Seq<char>) -> bool {
    &&& text.len() == 26
    &&& '0' <= text[0] <= '7'
    &&& forall|i: int| 0 <= i < text.len() ==> is_base32_digit(#[trigger] text[i])
}

/// `ulid::Ulid::generate` and `to_string`: a fresh ULID from the clock and a
/// random number, of which only the form is known.
#[verifier::external_body]
fn generate_ulid() -> (text: String)
    ensures
        is_ulid_text(text@),
{
    ulid::Ulid::generate().to_string()
}

/// Whether the text is one that [`generate_ulid`] gave.
pub closed spec fn is_generated(text: String) -> bool {
    call_ensures(generate_ulid, (), text)
}

/// Whether the character is a digit of Crockford's base 32.
fn has_base32_form(c: char) -> (found: bool)
    ensures
        found == is_base32_digit(c),
{
    if c <= '9' {
        '0' <= c
    } else {
        'A' <= c && c <= 'Z' && c != 'I' && c != 'L' && c != 'O' && c != 'U'
    }
}

/// Whether the text is the canonical text of a ULID.
fn has_ulid_form(text: &str) -> (found: bool)
    ensures
        found == is_ulid_text(text@),
{
    if text.unicode_len() != 26 {
        return false;
    }
    let first: char = text.get_char(0);
    if first < '0' || '7' < first {
        return false;
    }
    let mut i: usize = 0;
    while i < 26
        invariant
            i <= 26,
            text@.len() == 26,
            forall|j: int| 0 <= j < i ==> is_base32_digit(#[trigger] text@[j]),
        decreases 26 - i,
    {
        if !has_base32_form(text.get_char(i)) {
            return false;
        }
        i = i + 1;
    }
    true
}

impl SessionId {
    /// A fresh name: a ULID that was generated for it.
    pub fn new() -> (id: SessionId)
        ensures
            is_ulid_text(id.0@),
            is_generated(id.0),
    {
        SessionId(generate_ulid())
    }

    /// The name with that text. Only the canonical text of a ULID names a session.
    pub fn parse(text: &str) -> (id: Result<SessionId, Error>)
        ensures
            id is Ok <==> is_ulid_text(text@),
            id is Ok ==> id->Ok_0.0@ == text@,
            id is Err ==> id->Err_0@ == just("not a session id: "@ + text@),
    {
        if has_ulid_form(text) {
            Ok(SessionId(text.to_owned()))
        } else {
            let mut message: String = "not a session id: ".to_owned();
            message.append(text);
            Err(Error::message(message))
        }
    }

    /// The name as text.
    pub fn as_str(&self) -> (text: &str)
        ensures
            text@ == self.0@,
    {
        self.0.as_str()
    }
}

impl std::str::FromStr for SessionId {
    type Err = Error;

    fn from_str(text: &str) -> (id: Result<SessionId, Error>)
        ensures
            id is Ok <==> is_ulid_text(text@),
            id is Ok ==> id->Ok_0.0@ == text@,
            id is Err ==> id->Err_0@ == just("not a session id: "@ + text@),
    {
        SessionId::parse(text)
    }
}

/// The status of a session whose turn came to that end.
pub open spec fn status_after(turn: Result<WorkerResponse, Error>) -> SessionStatus {
    match turn {
        Ok(_) => SessionStatus::Completed,
        Err(error) => if error@.contains(Reason::Interrupted) {
            SessionStatus::Interrupted
        } else {
            SessionStatus::Failed
        },
    }
}

/// What is said of a session whose turn failed.
pub open spec fn failure_text(id: SessionId) -> Seq<char> {
    "session: "@ + id.0@ + " failed"@
}

/// Whether `result` is what a session amounts to whose turn and shutdown came to
/// these ends. A failed turn counts for more than a failed shutdown.
pub open spec fn concludes(
    id: SessionId,
    turn: Result<WorkerResponse, Error>,
    shutdown: Result<(), Error>,
    result: Result<(SessionId, WorkerResponse), Error>,
) -> bool {
    match (turn, shutdown) {
        (Err(error), _) => result is Err && result->Err_0@ == wrapped(
            Reason::Message(failure_text(id)),
            error@,
        ),
        (Ok(_), Err(error)) => result is Err && result->Err_0 == error,
        (Ok(response), Ok(_)) => result is Ok && result->Ok_0 == (id, response),
    }
}

impl Session {
    /// A session whose first turn is about to run.
    pub open spec fn begun(id: SessionId, thread_id: ThreadId, request: WorkerRequest) -> Session {
        Session {
            session_id: id,
            thread_id,
            cwd: request.cwd,
            model: request.model,
            effort: request.effort,
            mode: request.mode,
            status: SessionStatus::Running,
        }
    }

    /// The session when another turn is about to run: it goes on under the same
    /// names, with what the new request asks for.
    pub open spec fn continued(self, request: WorkerRequest) -> Session {
        Session::begun(self.session_id, self.thread_id, request)
    }

    /// The session once its turn has come to an end.
    pub open spec fn ended(self, status: SessionStatus) -> Session {
        Session { status, ..self }
    }

    /// A session whose first turn is about to run.
    pub fn begin(session_id: SessionId, thread_id: ThreadId, request: &WorkerRequest) -> (session:
        Session)
        ensures
            session == Session::begun(session_id, thread_id, *request),
    {
        Session {
            session_id,
            thread_id,
            cwd: request.cwd.clone(),
            model: request.model.clone(),
            effort: request.effort.clone(),
            mode: request.mode,
            status: SessionStatus::Running,
        }
    }

    /// Turns to another request in the same thread.
    pub fn proceed(&mut self, request: &WorkerRequest)
        ensures
            *final(self) == old(self).continued(*request),
    {
        self.cwd = request.cwd.clone();
        self.model = request.model.clone();
        self.effort = request.effort.clone();
        self.mode = request.mode;
        self.status = SessionStatus::Running;
    }

    /// Notes how the turn came out.
    pub fn record(&mut self, turn: &Result<WorkerResponse, Error>)
        ensures
            *final(self) == old(self).ended(status_after(*turn)),
    {
        self.status = match turn {
            Ok(_) => SessionStatus::Completed,
            Err(error) => if error.is_interrupted() {
                SessionStatus::Interrupted
            } else {
                SessionStatus::Failed
            },
        };
    }
}

/// What a session amounts to whose turn and shutdown came to these ends.
pub fn conclude(
    session_id: SessionId,
    turn: Result<WorkerResponse, Error>,
    shutdown: Result<(), Error>,
) -> (result: Result<(SessionId, WorkerResponse), Error>)
    ensures
        concludes(session_id, turn, shutdown, result),
{
    match turn {
        Err(error) => {
            let mut text: String = "session: ".to_owned();
            text.append(session_id.as_str());
            text.append(" failed");
            Err(error.context(Cause::Message(text)))
        },
        Ok(response) => match shutdown {
            Err(error) => Err(error),
            Ok(_) => Ok((session_id, response)),
        },
    }
}

/// The calls of a turn in that session and that thread: the session is saved, the
/// turn is taken, the session is saved with what the turn came to, and then the
/// thread, as the turn has left it, is shut down, however the turn came out. The
/// first save that fails ends it.
pub open spec fn turn_calls<T>(
    session: Session,
    thread: T,
    request: WorkerRequest,
    calls: Seq<Call<T>>,
    result: Result<(SessionId, WorkerResponse), Error>,
) -> bool {
    &&& calls.len() > 0
    &&& calls[0] is Save
    &&& calls[0]->session == session
    &&& match calls[0]->kept {
        Err(error) => calls.len() == 1 && result is Err && result->Err_0 == error,
        Ok(_) => {
            &&& calls.len() > 2
            &&& calls[1] is Turn
            &&& calls[1]->Turn_thread == thread
            &&& calls[1]->Turn_request == request
            &&& calls[2] is Save
            &&& calls[2]->session == session.ended(status_after(calls[1]->outcome))
            &&& match calls[2]->kept {
                Err(error) => calls.len() == 3 && result is Err && result->Err_0 == error,
                Ok(_) => {
                    &&& calls.len() == 4
                    &&& calls[3] is Shutdown
                    &&& calls[3]->Shutdown_thread == calls[1]->left
                    &&& concludes(session.session_id, calls[1]->outcome, calls[3]->closed, result)
                },
            }
        },
    }
}

/// The calls of a delegation: the worker is asked for a fresh thread, and a turn is
/// taken in it, in a session that got its name from [`SessionId::new`]. Without a
/// thread nothing follows.
pub open spec fn delegation_calls<T>(
    request: WorkerRequest,
    calls: Seq<Call<T>>,
    result: Result<(SessionId, WorkerResponse), Error>,
) -> bool {
    &&& calls.len() > 0
    &&& calls[0] is Start
    &&& calls[0]->Start_request == request
    &&& match calls[0]->opened {
        Err(error) => calls.len() == 1 && result is Err && result->Err_0 == error,
        Ok((thread, name)) => {
            let session = calls[1]->session;
            &&& call_ensures(SessionId::new, (), session.session_id)
            &&& session == Session::begun(session.session_id, name, request)
            &&& turn_calls(session, thread, request, calls.skip(1), result)
        },
    }
}

/// The calls when a session is resumed: the store is asked for the session, the
/// worker to go on with its thread, and a turn is taken in it. Without the session
/// the worker is not asked, and without the thread nothing follows.
pub open spec fn resumption_calls<T>(
    id: SessionId,
    request: WorkerRequest,
    calls: Seq<Call<T>>,
    result: Result<(SessionId, WorkerResponse), Error>,
) -> bool {
    &&& calls.len() > 0
    &&& calls[0] is Load
    &&& calls[0]->id == id
    &&& match calls[0]->found {
        Err(error) => calls.len() == 1 && result is Err && result->Err_0 == error,
        Ok(session) => {
            &&& calls.len() > 1
            &&& calls[1] is Resume
            &&& calls[1]->thread_id == session.thread_id
            &&& calls[1]->Resume_request == request
            &&& match calls[1]->reopened {
                Err(error) => calls.len() == 2 && result is Err && result->Err_0 == error,
                Ok(thread) => turn_calls(
                    session.continued(request),
                    thread,
                    request,
                    calls.skip(2),
                    result,
                ),
            }
        },
    }
}

/// Takes a turn in the thread at hand, and lets the thread go.
fn take_turn<W: Worker, S: SessionStore>(
    desk: &mut Desk<'_, W, S>,
    session: Session,
    request: &WorkerRequest,
) -> (result: Result<(SessionId, WorkerResponse), Error>)
    requires
        old(desk).thread() is Some,
    ensures
        final(desk).follows(*old(desk)),
        final(desk).thread() is None,
        turn_calls(
            session,
            old(desk).thread()->Some_0,
            *request,
            final(desk).calls_since(*old(desk)),
            result,
        ),
        final(desk).answered_since(*old(desk)),
        ({
            let calls = final(desk).calls_since(*old(desk));
            calls.len() > 1 ==> exists|during: &mut W::Thread| #[trigger]
                call_ensures(W::Thread::turn, (during, request), calls[1]->outcome) && *during
                    == calls[1]->Turn_thread && *final(during) == calls[1]->left
        }),
{
    let mut session: Session = session;
    match desk.save(&session) {
        Err(error) => {
            desk.release();
            return Err(error);
        },
        Ok(_) => {},
    }
    let turn: Result<WorkerResponse, Error> = desk.turn(request);
    session.record(&turn);
    match desk.save(&session) {
        Err(error) => {
            desk.release();
            return Err(error);
        },
        Ok(_) => {},
    }
    let shutdown: Result<(), Error> = desk.shutdown();
    desk.release();
    let Session { session_id, .. } = session;
    conclude(session_id, turn, shutdown)
}

/// Runs one turn in a fresh thread. The clauses fix every call that is made, in
/// order, and what came of each; the last says what the turn makes of the thread
/// that is then shut down.
pub fn delegate<W: Worker, S: SessionStore>(
    desk: &mut Desk<'_, W, S>,
    request: &WorkerRequest,
) -> (result: Result<(SessionId, WorkerResponse), Error>)
    ensures
        final(desk).follows(*old(desk)),
        final(desk).thread() is None,
        delegation_calls(*request, final(desk).calls_since(*old(desk)), result),
        final(desk).answered_since(*old(desk)),
        ({
            let calls = final(desk).calls_since(*old(desk));
            calls.len() > 2 ==> exists|during: &mut W::Thread| #[trigger]
                call_ensures(W::Thread::turn, (during, request), calls[2]->outcome) && *during
                    == calls[2]->Turn_thread && *final(during) == calls[2]->left
        }),
{
    match desk.start(request) {
        Err(error) => {
            desk.release();
            Err(error)
        },
        Ok(thread_id) => {
            let ghost before_turn = *desk;
            let session: Session = Session::begin(SessionId::new(), thread_id, request);
            let result: Result<(SessionId, WorkerResponse), Error> = take_turn(
                desk,
                session,
                request,
            );
            proof {
                let calls = desk.calls_since(*old(desk));
                assert(calls.skip(1) =~= desk.calls_since(before_turn));
                assert(calls[0] == before_turn.calls().last());
                assert(forall|i: int|
                    1 <= i < calls.len() ==> #[trigger] calls[i] == desk.calls_since(
                        before_turn,
                    )[i - 1]);
            }
            result
        },
    }
}

/// Runs one more turn in the thread of an earlier session. The clauses fix every
/// call that is made, in order, and what came of each; the last says what the turn
/// makes of the thread that is then shut down.
pub fn resume<W: Worker, S: SessionStore>(
    desk: &mut Desk<'_, W, S>,
    session_id: &SessionId,
    request: &WorkerRequest,
) -> (result: Result<(SessionId, WorkerResponse), Error>)
    ensures
        final(desk).follows(*old(desk)),
        final(desk).thread() is None,
        resumption_calls(*session_id, *request, final(desk).calls_since(*old(desk)), result),
        final(desk).answered_since(*old(desk)),
        ({
            let calls = final(desk).calls_since(*old(desk));
            calls.len() > 3 ==> exists|during: &mut W::Thread| #[trigger]
                call_ensures(W::Thread::turn, (during, request), calls[3]->outcome) && *during
                    == calls[3]->Turn_thread && *final(during) == calls[3]->left
        }),
{
    match desk.load(session_id) {
        Err(error) => {
            desk.release();
            Err(error)
        },
        Ok(session) => {
            let mut session: Session = session;
            match desk.resume(&session.thread_id, request) {
                Err(error) => {
                    desk.release();
                    Err(error)
                },
                Ok(_) => {
                    let ghost before_turn = *desk;
                    session.proceed(request);
                    let result: Result<(SessionId, WorkerResponse), Error> = take_turn(
                        desk,
                        session,
                        request,
                    );
                    proof {
                        let calls = desk.calls_since(*old(desk));
                        assert(calls.skip(2) =~= desk.calls_since(before_turn));
                        assert(calls[0] == before_turn.calls()[old(desk).calls().len() as int]);
                        assert(calls[1] == before_turn.calls().last());
                        assert(forall|i: int|
                            2 <= i < calls.len() ==> #[trigger] calls[i] == desk.calls_since(
                                before_turn,
                            )[i - 2]);
                    }
                    result
                },
            }
        },
    }
}

/// A failed turn is told as such, with the name of its session, and an
/// interruption can still be made out in what is told.
pub proof fn failures_name_the_session(
    id: SessionId,
    cause: Error,
    shutdown: Result<(), Error>,
    result: Result<(SessionId, WorkerResponse), Error>,
)
    requires
        concludes(id, Err(cause), shutdown, result),
    ensures
        result is Err,
        result->Err_0@[0] == Reason::Message("session: "@ + id.0@ + " failed"@),
        result->Err_0@.contains(Reason::Interrupted) <==> cause@.contains(Reason::Interrupted),
        result->Err_0@.contains(Reason::TimedOut) <==> cause@.contains(Reason::TimedOut),
{
    let message = Reason::Message(failure_text(id));
    crate::error::context_keeps_interruption(message, cause@);
    crate::error::context_keeps_deadline(message, cause@);
}

/// Going on with a session changes what is asked of the worker, not which session
/// and which thread it is; and neither does the end of a turn.
pub proof fn sessions_keep_their_names(
    session: Session,
    request: WorkerRequest,
    status: SessionStatus,
)
    ensures
        session.continued(request).session_id == session.session_id,
        session.continued(request).thread_id == session.thread_id,
        session.continued(request).status == SessionStatus::Running,
        session.ended(status).session_id == session.session_id,
        session.ended(status).thread_id == session.thread_id,
        session.ended(status).continued(request) == session.continued(request),
{
}

/// What a run gives, from what came of its turn and its shutdown. A response that was
/// followed by a good shutdown is given back as it is, with the session's name, whatever
/// its status. After a failed turn that failure is told, under the session's name, and
/// after a good turn a failed shutdown, as it is.
pub proof fn responses_are_given_back(
    id: SessionId,
    turn: Result<WorkerResponse, Error>,
    shutdown: Result<(), Error>,
    result: Result<(SessionId, WorkerResponse), Error>,
)
    requires
        call_ensures(conclude, (id, turn, shutdown), result),
    ensures
        result is Ok <==> turn is Ok && shutdown is Ok,
        turn is Ok && shutdown is Ok ==> result == Ok::<(SessionId, WorkerResponse), Error>(
            (id, turn->Ok_0),
        ),
        turn is Ok && shutdown is Err ==> result->Err_0 == shutdown->Err_0,
        turn is Err ==> result->Err_0@ == seq![
            Reason::Message("session: "@ + id.0@ + " failed"@),
        ] + turn->Err_0@,
{
}

/// How a session stands after its turn: completed with a response, interrupted if that is
/// among the causes of the failure, and failed otherwise. Nothing else changes.
pub proof fn sessions_record_how_the_turn_came_out(turn: Result<WorkerResponse, Error>)
    ensures
        forall|session: &mut Session| #[trigger]
            call_ensures(Session::record, (session, &turn), ()) ==> {
                &&& final(session).status == SessionStatus::Completed <==> turn is Ok
                &&& final(session).status == SessionStatus::Interrupted <==> turn is Err
                    && turn->Err_0@.contains(Reason::Interrupted)
                &&& final(session).status == SessionStatus::Failed <==> turn is Err
                    && !turn->Err_0@.contains(Reason::Interrupted)
                &&& final(session).session_id == (*session).session_id
                &&& final(session).thread_id == (*session).thread_id
                &&& final(session).cwd == (*session).cwd
                &&& final(session).model == (*session).model
                &&& final(session).effort == (*session).effort
                &&& final(session).mode == (*session).mode
            },
{
}

/// A session that begins runs, and has every part of the request in the place of that
/// name; and so has one that proceeds, under the names it had.
pub proof fn sessions_hold_what_was_asked(
    session_id: SessionId,
    thread_id: ThreadId,
    request: WorkerRequest,
    fresh: Session,
)
    requires
        call_ensures(Session::begin, (session_id, thread_id, &request), fresh),
    ensures
        fresh.session_id == session_id,
        fresh.thread_id == thread_id,
        fresh.cwd == request.cwd,
        fresh.model == request.model,
        fresh.effort == request.effort,
        fresh.mode == request.mode,
        fresh.status == SessionStatus::Running,
        forall|session: &mut Session| #[trigger]
            call_ensures(Session::proceed, (session, &request), ()) ==> {
                &&& final(session).session_id == (*session).session_id
                &&& final(session).thread_id == (*session).thread_id
                &&& final(session).cwd == request.cwd
                &&& final(session).model == request.model
                &&& final(session).effort == request.effort
                &&& final(session).mode == request.mode
                &&& final(session).status == SessionStatus::Running
            },
{
}

/// The names of sessions: 26 characters out of 32, the first of them a digit up to seven.
/// Exactly such a text is taken for a name, and as it is; a fresh name is one, and what a
/// name is as text is what it was made from.
pub proof fn names_are_26_characters_out_of_32(
    text: &str,
    parsed: Result<SessionId, Error>,
    fresh: SessionId,
    id: SessionId,
    shown: &str,
)
    requires
        call_ensures(SessionId::parse, (text,), parsed),
        call_ensures(SessionId::new, (), fresh),
        call_ensures(SessionId::as_str, (&id,), shown),
    ensures
        parsed is Ok <==> {
            &&& text@.len() == 26
            &&& "01234567"@.contains(text@[0])
            &&& forall|i: int|
                0 <= i < 26 ==> "0123456789ABCDEFGHJKMNPQRSTVWXYZ"@.contains(#[trigger] text@[i])
        },
        parsed is Ok ==> parsed->Ok_0.0@ == text@,
        parsed is Err ==> parsed->Err_0@ == seq![
            Reason::Message("not a session id: "@ + text@),
        ],
        fresh.0@.len() == 26,
        forall|i: int|
            0 <= i < 26 ==> "0123456789ABCDEFGHJKMNPQRSTVWXYZ"@.contains(#[trigger] fresh.0@[i]),
        shown@ == id.0@,
{
    assert forall|c: char| is_base32_digit(c) <==> #[trigger]
        "0123456789ABCDEFGHJKMNPQRSTVWXYZ"@.contains(c) by {
        lemma_base32_digit(c);
    }
    if text@.len() == 26 {
        lemma_octal_digit(text@[0]);
        assert forall|i: int| 0 <= i < 26 && parsed is Ok implies
            "0123456789ABCDEFGHJKMNPQRSTVWXYZ"@.contains(#[trigger] text@[i]) by {
            assert(is_base32_digit(text@[i]));
        }
        if forall|i: int|
            0 <= i < 26 ==> "0123456789ABCDEFGHJKMNPQRSTVWXYZ"@.contains(#[trigger] text@[i]) {
            assert forall|i: int| 0 <= i < text@.len() implies is_base32_digit(
                #[trigger] text@[i],
            ) by {
                assert("0123456789ABCDEFGHJKMNPQRSTVWXYZ"@.contains(text@[i]));
            }
        }
    }
    assert forall|i: int| 0 <= i < 26 implies "0123456789ABCDEFGHJKMNPQRSTVWXYZ"@.contains(
        #[trigger] fresh.0@[i],
    ) by {
        assert(is_base32_digit(fresh.0@[i]));
    }
}

/// The digits, spelled out.
proof fn lemma_base32_digit(c: char)
    ensures
        is_base32_digit(c) <==> "0123456789ABCDEFGHJKMNPQRSTVWXYZ"@.contains(c),
{
    reveal_strlit("0123456789ABCDEFGHJKMNPQRSTVWXYZ");
    let digits = "0123456789ABCDEFGHJKMNPQRSTVWXYZ"@;
    if is_base32_digit(c) {
        let i: int = if c <= '9' {
            c as int - '0' as int
        } else if c <= 'H' {
            c as int - 'A' as int + 10
        } else if c <= 'K' {
            c as int - 'J' as int + 18
        } else if c <= 'N' {
            c as int - 'M' as int + 20
        } else if c <= 'T' {
            c as int - 'P' as int + 22
        } else {
            c as int - 'V' as int + 27
        };
        assert(digits[i] == c);
    }
}

proof fn lemma_octal_digit(c: char)
    ensures
        '0' <= c <= '7' <==> "01234567"@.contains(c),
{
    reveal_strlit("01234567");
    if '0' <= c <= '7' {
        assert("01234567"@[c as int - '0' as int] == c);
    }
}

} // verus!
