//! Dispatches shell commands to a fleet of hosts over SSH and gathers the
//! outcome of each into one ordered report.
pub mod text;
pub mod config;
pub mod task;
pub mod outcome;
pub mod order;
pub mod aggregate;
pub mod render;
pub mod dispatch;
