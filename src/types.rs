use vstd::prelude::*;

verus! {

/// A 160-bit account or contract address: `hi` holds the first four bytes,
/// `lo` the remaining sixteen, both big-endian.
#[derive(Clone, Copy, Debug, PartialEq, Eq, Structural)]
pub struct Address {
    pub hi: u32,
    pub lo: u128,
}

/// An unsigned 256-bit integer (token amounts, deadlines) as two halves.
#[derive(Clone, Copy, Debug, PartialEq, Eq, Structural)]
pub struct U256 {
    pub hi: u128,
    pub lo: u128,
}

/// A 32-byte transaction hash.
#[derive(Clone, Copy, Debug, PartialEq, Eq, Structural)]
pub struct TxHash {
    pub hi: u128,
    pub lo: u128,
}

impl Address {
    pub open spec fn value(self) -> nat {
        self.hi as nat * 0x1_0000_0000_0000_0000_0000_0000_0000_0000 + self.lo as nat
    }
}

impl U256 {
    pub open spec fn value(self) -> nat {
        self.hi as nat * 0x1_0000_0000_0000_0000_0000_0000_0000_0000 + self.lo as nat
    }

    /// The amount `v`, which fits in the low half.
    pub fn from_u128(v: u128) -> (r: U256)
        ensures
            r.hi == 0,
            r.lo == v,
            r.value() == v,
    {
        U256 { hi: 0, lo: v }
    }
}

/// Category of an error, so that callers can tell failures apart without
/// reading message text.
#[derive(Clone, Copy, Debug, PartialEq, Eq, Structural)]
pub enum ErrorKind {
    ConfigError,
    ConnectionError,
    DecodeError,
    ContractCallError,
    SubmissionError,
}

} // verus!
