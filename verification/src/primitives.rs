//! Base types shared by all layers.

use crate::words::U256;
use vstd::prelude::*;
use vstd::string::StringExecFns;

verus! {

/// The hash of a transaction.
pub type TxHash = U256;

/// The hash of a block.
pub type BlockHash = U256;

/// A 32-byte hash.
pub type Hash = U256;

/// The number of an asset.
pub type AssetId = u64;

/// An amount in the smallest unit.
pub type Balance = u128;

/// The number of a validator.
pub type ValidatorId = u32;

/// The number of a transaction among those of its sender.
pub type Nonce = u64;

/// A secp256k1 signature: r, s and v.
pub type Signature = [u8; 65];

/// An uncompressed secp256k1 public key: x and y.
pub type PublicKey = [u8; 64];

/// An Ed25519 public key.
pub type Ed25519PublicKey = [u8; 32];

/// The smallest amount.
pub const MINIMUM_UNIT: u128 = 1;

/// The length of an address in bytes.
pub const ADDRESS_LEN: usize = 20;

/// The length of a signature in bytes.
pub const SIGNATURE_LEN: usize = 65;

/// The length of a public key in bytes.
pub const PUBKEY_LEN: usize = 64;

/// An asset and the one that its price is given in. The number 0 stands for the US dollar.
#[derive(Clone, Copy, Debug, PartialEq, Eq, Hash, Structural)]
pub struct PricePair {
    pub base: u64,
    pub quote: u64,
}

impl PricePair {
    /// The price of the native asset in US dollars.
    #[verifier::allow_in_spec]
    pub fn call_usd() -> Self
        returns
            (PricePair { base: 1, quote: 0 }),
    {
        PricePair { base: 1, quote: 0 }
    }

    #[verifier::allow_in_spec]
    pub fn new(base: u64, quote: u64) -> Self
        returns
            (PricePair { base, quote }),
    {
        PricePair { base, quote }
    }
}

/// A version of the protocol.
#[derive(Clone, Copy, Debug, PartialEq, Eq, Hash, Structural)]
pub struct ProtocolVersion {
    pub major: u16,
    pub minor: u16,
    pub patch: u16,
}

/// The decimal digit `d`.
pub open spec fn digit(d: int) -> char {
    if d == 0 {
        '0'
    } else if d == 1 {
        '1'
    } else if d == 2 {
        '2'
    } else if d == 3 {
        '3'
    } else if d == 4 {
        '4'
    } else if d == 5 {
        '5'
    } else if d == 6 {
        '6'
    } else if d == 7 {
        '7'
    } else if d == 8 {
        '8'
    } else {
        '9'
    }
}

/// `n` in decimal.
pub open spec fn decimal(n: nat) -> Seq<char>
    decreases n,
{
    if n < 10 {
        seq![digit(n as int)]
    } else {
        decimal(n / 10).push(digit((n % 10) as int))
    }
}

fn digit_text(d: u16) -> (r: &'static str)
    requires
        d < 10,
    ensures
        r@ == seq![digit(d as int)],
{
    proof {
        reveal_strlit("0");
        reveal_strlit("1");
        reveal_strlit("2");
        reveal_strlit("3");
        reveal_strlit("4");
        reveal_strlit("5");
        reveal_strlit("6");
        reveal_strlit("7");
        reveal_strlit("8");
        reveal_strlit("9");
    }
    match d {
        0 => "0",
        1 => "1",
        2 => "2",
        3 => "3",
        4 => "4",
        5 => "5",
        6 => "6",
        7 => "7",
        8 => "8",
        _ => "9",
    }
}

fn push_decimal(out: &mut String, n: u16)
    ensures
        final(out)@ == old(out)@ + decimal(n as nat),
    decreases n,
{
    if n >= 10 {
        push_decimal(out, n / 10);
    }
    out.append(digit_text(n % 10));
}

impl ProtocolVersion {
    #[verifier::allow_in_spec]
    pub fn new(major: u16, minor: u16, patch: u16) -> Self
        returns
            (ProtocolVersion { major, minor, patch }),
    {
        ProtocolVersion { major, minor, patch }
    }

    /// The three numbers in decimal, with dots between them.
    pub fn to_string(&self) -> (r: String)
        ensures
            r@ == decimal(self.major as nat).push('.') + decimal(self.minor as nat).push('.')
                + decimal(self.patch as nat),
    {
        let mut out: String = String::new();
        push_decimal(&mut out, self.major);
        out.append(".");
        push_decimal(&mut out, self.minor);
        out.append(".");
        push_decimal(&mut out, self.patch);
        proof {
            reveal_strlit(".");
            assert(out@ =~= decimal(self.major as nat).push('.') + decimal(
                self.minor as nat,
            ).push('.') + decimal(self.patch as nat));
        }
        out
    }
}

/// What a fee is paid in.
#[derive(Clone, Copy, Debug, PartialEq, Eq, Hash, Structural)]
pub enum FeeCurrency {
    /// The native asset.
    Call,
    /// A registered stablecoin.
    Stablecoin(u64),
}

/// How a transaction ended.
#[derive(Clone, Debug, PartialEq, Eq)]
pub enum ExecutionStatus {
    Success,
    Reverted { reason: String },
}

impl ExecutionStatus {
    pub fn is_success(&self) -> (r: bool)
        ensures
            r == (self is Success),
    {
        matches!(self, ExecutionStatus::Success)
    }

    pub fn is_reverted(&self) -> (r: bool)
        ensures
            r == (self is Reverted),
    {
        matches!(self, ExecutionStatus::Reverted { .. })
    }
}

} // verus!
