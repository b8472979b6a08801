//! What the delegation needs from its surroundings.

use crate::delegation::application::{
    Session, SessionId, ThreadId, WorkerRequest, WorkerResponse,
};
use crate::error::Error;
use vstd::prelude::*;

verus! {

/// Where sessions are kept.
pub trait SessionStore {
    fn save(&self, session: &Session) -> Result<(), Error>;

    fn load(&self, id: &SessionId) -> Result<Session, Error>;
}

/// What starts and continues threads of work.
pub trait Worker {
    type Thread: WorkerThread;

    fn start(&self, request: &WorkerRequest) -> Result<Self::Thread, Error>;

    fn resume(&self, thread_id: &ThreadId, request: &WorkerRequest) -> Result<Self::Thread, Error>;
}

/// A thread of work.
pub trait WorkerThread {
    fn thread_id(&self) -> &ThreadId;

    fn turn(&mut self, request: &WorkerRequest) -> Result<WorkerResponse, Error>;

    fn shutdown(&mut self) -> Result<(), Error>;
}

} // verus!
