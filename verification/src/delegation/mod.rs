pub mod adapters;
pub mod application;
pub mod desk;
pub mod history;
pub mod ports;
