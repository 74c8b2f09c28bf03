//! Errors of protocol operations.

use vstd::prelude::*;

verus! {

/// Why a protocol operation failed.
#[derive(Clone, Copy, Debug)]
pub enum ProtocolError {
    InsufficientBalance,
    Unauthorized,
    NonceError { expected: u64, got: u64 },
    Compliance(&'static str),
    GasError(&'static str),
    BalanceError(&'static str),
    SponsorError(&'static str),
    AssetError(&'static str),
    RegistryError(&'static str),
    ReceiptError(&'static str),
    Economics(&'static str),
    Recovery(&'static str),
    SessionKey(&'static str),
    InvalidSignature(&'static str),
    InvalidInstruction(&'static str),
    /// An instruction is invalid because the service that it is for refused it, for a reason.
    Refused { by: &'static str, reason: &'static str },
}

pub type ProtocolResult<T> = Result<T, ProtocolError>;

} // verus!
