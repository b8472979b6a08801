pub mod process;
pub mod thread;
pub mod usage;
pub mod worker;
