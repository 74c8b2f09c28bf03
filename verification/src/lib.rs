//! Protocol rules and EVM precompiles of the Callchain ledger, verified with Verus.

pub mod bytes;
pub mod crypto;
pub mod precompiles;
pub mod primitives;
pub mod protocol;
pub mod vec_map;
pub mod words;
