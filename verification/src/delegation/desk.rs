//! The desk across which a run deals with its worker and its store. Nothing else
//! reaches the two. Each method of the desk makes one call and enters it in an account,
//! in which the calls stand in the order in which they were made. That an entry is
//! true is proved; that a method of the desk makes no call besides the one it enters
//! is not, since no contract can count calls through a shared reference. It can be
//! seen from the bodies below, which are short.

use crate::delegation::application::{
    Session, SessionId, ThreadId, WorkerRequest, WorkerResponse,
};
use crate::delegation::ports::{SessionStore, Worker, WorkerThread};
use crate::error::Error;
use vstd::prelude::*;

verus! {

/// A call across the desk: what was asked, and what came of it. `T` is the kind of
/// thread that the worker opens.
pub enum Call<T> {
    /// The worker was asked for a fresh thread. A thread comes with its name.
    Start { request: WorkerRequest, opened: Result<(T, ThreadId), Error> },
    /// The worker was asked to go on with a thread.
    Resume { thread_id: ThreadId, request: WorkerRequest, reopened: Result<T, Error> },
    /// The store was asked for a session.
    Load { id: SessionId, found: Result<Session, Error> },
    /// The store was asked to keep a session.
    Save { session: Session, kept: Result<(), Error> },
    /// The thread was asked for a turn, which left it as `left`.
    Turn { thread: T, request: WorkerRequest, outcome: Result<WorkerResponse, Error>, left: T },
    /// The thread was asked to shut down.
    Shutdown { thread: T, closed: Result<(), Error> },
}

/// The worker gives that outcome when asked for a fresh thread.
pub open spec fn started<W: Worker>(
    worker: W,
    request: WorkerRequest,
    outcome: Result<W::Thread, Error>,
) -> bool {
    call_ensures(W::start, (&worker, &request), outcome)
}

/// The worker gives that outcome when asked to go on with that thread.
pub open spec fn reopened<W: Worker>(
    worker: W,
    thread_id: ThreadId,
    request: WorkerRequest,
    outcome: Result<W::Thread, Error>,
) -> bool {
    call_ensures(W::resume, (&worker, &thread_id, &request), outcome)
}

/// The store gives that outcome when asked for that session.
pub open spec fn loaded<S: SessionStore>(
    store: S,
    id: SessionId,
    outcome: Result<Session, Error>,
) -> bool {
    call_ensures(S::load, (&store, &id), outcome)
}

/// The store gives that outcome when asked to keep that session.
pub open spec fn saved<S: SessionStore>(
    store: S,
    session: Session,
    outcome: Result<(), Error>,
) -> bool {
    call_ensures(S::save, (&store, &session), outcome)
}

/// The thread gives that name as its own.
pub open spec fn named<T: WorkerThread>(thread: T, name: ThreadId) -> bool {
    call_ensures(T::thread_id, (&thread,), &name)
}

/// The thread gives that outcome when asked for a turn.
pub open spec fn turned<T: WorkerThread>(
    thread: T,
    request: WorkerRequest,
    outcome: Result<WorkerResponse, Error>,
) -> bool {
    exists|before: &mut T| #[trigger]
        call_ensures(T::turn, (before, &request), outcome) && *before == thread
}

/// The thread gives that outcome when asked to shut down.
pub open spec fn shut_down<T: WorkerThread>(thread: T, outcome: Result<(), Error>) -> bool {
    exists|before: &mut T| #[trigger]
        call_ensures(T::shutdown, (before,), outcome) && *before == thread
}

/// What the account says came of the call is what the worker, its thread or the
/// store gave.
pub open spec fn answered<W: Worker, S: SessionStore>(
    worker: W,
    store: S,
    call: Call<W::Thread>,
) -> bool {
    match call {
        Call::Start { request, opened } => match opened {
            Ok((thread, name)) => started(worker, request, Ok(thread)) && named(thread, name),
            Err(error) => started(worker, request, Err(error)),
        },
        Call::Resume { thread_id, request, reopened: outcome } => reopened(
            worker,
            thread_id,
            request,
            outcome,
        ),
        Call::Load { id, found } => loaded(store, id, found),
        Call::Save { session, kept } => saved(store, session, kept),
        Call::Turn { thread, request, outcome, .. } => turned(thread, request, outcome),
        Call::Shutdown { thread, closed } => shut_down(thread, closed),
    }
}

/// A worker, a store, the thread at hand, and an account of the calls.
pub struct Desk<'a, W: Worker, S: SessionStore> {
    worker: &'a W,
    store: &'a S,
    thread: Option<W::Thread>,
    calls: Ghost<Seq<Call<W::Thread>>>,
}

impl<'a, W: Worker, S: SessionStore> Desk<'a, W, S> {
    /// The worker behind the desk.
    pub closed spec fn worker(self) -> W {
        *self.worker
    }

    /// The store behind the desk.
    pub closed spec fn store(self) -> S {
        *self.store
    }

    /// The thread at hand: the one opened last, until it is let go.
    pub closed spec fn thread(self) -> Option<W::Thread> {
        self.thread
    }

    /// Every call so far, the first one first.
    pub closed spec fn calls(self) -> Seq<Call<W::Thread>> {
        self.calls@
    }

    /// The same desk at a later time: the account has only grown.
    pub open spec fn follows(self, before: Self) -> bool {
        &&& self.worker() == before.worker()
        &&& self.store() == before.store()
        &&& before.calls().is_prefix_of(self.calls())
    }

    /// The calls made since then.
    pub open spec fn calls_since(self, before: Self) -> Seq<Call<W::Thread>> {
        self.calls().skip(before.calls().len() as int)
    }

    /// What the account says came of the calls since then is what came of them.
    pub open spec fn answered_since(self, before: Self) -> bool {
        forall|i: int|
            0 <= i < self.calls_since(before).len() ==> answered(
                self.worker(),
                self.store(),
                #[trigger] self.calls_since(before)[i],
            )
    }

    /// The same desk, one call later.
    pub open spec fn made(self, before: Self, call: Call<W::Thread>) -> bool {
        &&& self.worker() == before.worker()
        &&& self.store() == before.store()
        &&& self.calls() == before.calls().push(call)
        &&& answered(self.worker(), self.store(), call)
    }

    /// A desk across which no call has been made.
    pub fn new(worker: &'a W, store: &'a S) -> (desk: Self)
        ensures
            desk.worker() == *worker,
            desk.store() == *store,
            desk.thread() is None,
            desk.calls() == Seq::<Call<W::Thread>>::empty(),
    {
        Desk { worker, store, thread: None, calls: Ghost(Seq::empty()) }
    }

    /// Asks the worker for a fresh thread, and the thread for its name.
    pub(crate) fn start(&mut self, request: &WorkerRequest) -> (opened: Result<ThreadId, Error>)
        ensures
            match opened {
                Ok(name) => {
                    &&& final(self).thread() is Some
                    &&& final(self).made(
                        *old(self),
                        Call::Start {
                            request: *request,
                            opened: Ok((final(self).thread()->Some_0, name)),
                        },
                    )
                },
                Err(error) => {
                    &&& final(self).thread() == old(self).thread()
                    &&& final(self).made(
                        *old(self),
                        Call::Start { request: *request, opened: Err(error) },
                    )
                },
            },
    {
        let outcome: Result<W::Thread, Error> = self.worker.start(request);
        assert(started(*self.worker, *request, outcome));
        match outcome {
            Ok(thread) => {
                let id: &ThreadId = thread.thread_id();
                assert(named(thread, *id));
                let name: ThreadId = ThreadId(id.0.clone());
                self.calls = Ghost(
                    self.calls@.push(
                        Call::Start { request: *request, opened: Ok((thread, name)) },
                    ),
                );
                self.thread = Some(thread);
                Ok(name)
            },
            Err(error) => {
                self.calls = Ghost(
                    self.calls@.push(Call::Start { request: *request, opened: Err(error) }),
                );
                Err(error)
            },
        }
    }

    /// Asks the worker to go on with a thread.
    pub(crate) fn resume(&mut self, thread_id: &ThreadId, request: &WorkerRequest) -> (outcome:
        Result<(), Error>)
        ensures
            match outcome {
                Ok(_) => {
                    &&& final(self).thread() is Some
                    &&& final(self).made(
                        *old(self),
                        Call::Resume {
                            thread_id: *thread_id,
                            request: *request,
                            reopened: Ok(final(self).thread()->Some_0),
                        },
                    )
                },
                Err(error) => {
                    &&& final(self).thread() == old(self).thread()
                    &&& final(self).made(
                        *old(self),
                        Call::Resume {
                            thread_id: *thread_id,
                            request: *request,
                            reopened: Err(error),
                        },
                    )
                },
            },
    {
        let outcome: Result<W::Thread, Error> = self.worker.resume(thread_id, request);
        assert(reopened(*self.worker, *thread_id, *request, outcome));
        self.calls = Ghost(
            self.calls@.push(
                Call::Resume { thread_id: *thread_id, request: *request, reopened: outcome },
            ),
        );
        match outcome {
            Ok(thread) => {
                self.thread = Some(thread);
                Ok(())
            },
            Err(error) => Err(error),
        }
    }

    /// Asks the store for a session.
    pub(crate) fn load(&mut self, id: &SessionId) -> (found: Result<Session, Error>)
        ensures
            final(self).thread() == old(self).thread(),
            final(self).made(*old(self), Call::Load { id: *id, found }),
    {
        let found: Result<Session, Error> = self.store.load(id);
        assert(loaded(*self.store, *id, found));
        self.calls = Ghost(self.calls@.push(Call::Load { id: *id, found }));
        found
    }

    /// Asks the store to keep a session.
    pub(crate) fn save(&mut self, session: &Session) -> (kept: Result<(), Error>)
        ensures
            final(self).thread() == old(self).thread(),
            final(self).made(*old(self), Call::Save { session: *session, kept }),
    {
        let kept: Result<(), Error> = self.store.save(session);
        assert(saved(*self.store, *session, kept));
        self.calls = Ghost(self.calls@.push(Call::Save { session: *session, kept }));
        kept
    }

    /// Asks the thread at hand for a turn.
    pub(crate) fn turn(&mut self, request: &WorkerRequest) -> (outcome: Result<
        WorkerResponse,
        Error,
    >)
        requires
            old(self).thread() is Some,
        ensures
            final(self).thread() is Some,
            final(self).made(
                *old(self),
                Call::Turn {
                    thread: old(self).thread()->Some_0,
                    request: *request,
                    outcome,
                    left: final(self).thread()->Some_0,
                },
            ),
            exists|during: &mut W::Thread| #[trigger]
                call_ensures(W::Thread::turn, (during, request), outcome) && *during == old(
                    self,
                ).thread()->Some_0 && *final(during) == final(self).thread()->Some_0,
    {
        let mut thread: W::Thread = self.thread.take().unwrap();
        let ghost fresh = thread;
        let outcome: Result<WorkerResponse, Error> = thread.turn(request);
        assert(exists|during: &mut W::Thread| #[trigger]
            call_ensures(W::Thread::turn, (during, request), outcome) && *during == fresh
                && *final(during) == thread);
        assert(turned(fresh, *request, outcome));
        self.calls = Ghost(
            self.calls@.push(
                Call::Turn { thread: fresh, request: *request, outcome, left: thread },
            ),
        );
        self.thread = Some(thread);
        outcome
    }

    /// Asks the thread at hand to shut down.
    pub(crate) fn shutdown(&mut self) -> (closed: Result<(), Error>)
        requires
            old(self).thread() is Some,
        ensures
            final(self).thread() is Some,
            final(self).made(
                *old(self),
                Call::Shutdown { thread: old(self).thread()->Some_0, closed },
            ),
    {
        let mut thread: W::Thread = self.thread.take().unwrap();
        let ghost used = thread;
        let closed: Result<(), Error> = thread.shutdown();
        assert(shut_down(used, closed));
        self.calls = Ghost(self.calls@.push(Call::Shutdown { thread: used, closed }));
        self.thread = Some(thread);
        closed
    }

    /// Lets the thread at hand go.
    pub(crate) fn release(&mut self)
        ensures
            final(self).worker() == old(self).worker(),
            final(self).store() == old(self).store(),
            final(self).calls() == old(self).calls(),
            final(self).thread() is None,
    {
        self.thread = None;
    }
}

} // verus!
