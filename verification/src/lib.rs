//! Delegating work to a worker agent: sessions, the worker's protocol, and the
//! rules that tie one to the other.

pub mod delegation;
pub mod error;
pub mod json;
pub mod launch;
pub mod paths;
pub mod termination;
