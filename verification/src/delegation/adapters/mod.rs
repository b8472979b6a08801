pub mod codex;
pub mod log;
pub mod session;
