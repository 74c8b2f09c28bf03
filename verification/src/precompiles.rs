//! Stateful precompiles of the EVM layer and the storage that they run on.

pub mod abi;
pub mod agent;
pub mod asset;
pub mod balance;
pub mod bridge;
pub mod compliance;
pub mod dispatch;
pub mod governance;
pub mod journal_backend;
pub mod laws;
pub mod meter;
pub mod oracle;
pub mod runner;
pub mod shielded;
pub mod slots;
pub mod steps;
pub mod storage;
pub mod switch;
pub mod tree;
pub mod validator;
