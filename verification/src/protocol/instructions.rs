//! Instructions and their execution.

pub mod exec;
pub mod laws;
pub mod requests;
pub mod types;
