//! The failures an operation on the pools can end in.

use vstd::prelude::*;

verus! {

/// Why an operation was refused. Every failure leaves the state untouched.
#[derive(Clone, Copy, Debug, PartialEq, Eq, Structural)]
pub enum ClpError {
    /// A pool for the token already exists.
    PoolExists,
    /// An amount that has to be positive is zero.
    Zero,
    /// The input required is larger than the caller's maximum.
    MaxExceeded,
    /// The output computed is smaller than the caller's minimum.
    MinNotMet,
    /// The caller holds fewer shares than are to be redeemed.
    InsufficientShares,
    /// Both legs of a token to token swap name the same token.
    SameAsset,
    /// The pool has no reserve to trade against.
    Depleted,
    /// The caller has no right to the operation.
    Unauthorized,
    /// The account identifier is malformed.
    BadAccount,
    /// A value does not fit the width it has to be stored in.
    Arith,
    /// No pool exists for the token.
    PoolMissing,
}

impl ClpError {
    /// The short code under which callers know the failure.
    pub open spec fn code_of(self) -> Seq<char> {
        match self {
            ClpError::PoolExists => "E1"@,
            ClpError::Zero => "E2"@,
            ClpError::MaxExceeded => "E3"@,
            ClpError::MinNotMet => "E4"@,
            ClpError::InsufficientShares => "E5"@,
            ClpError::SameAsset => "E9"@,
            ClpError::Depleted => "E10"@,
            ClpError::Unauthorized => "ErrUnauthorized"@,
            ClpError::BadAccount => "ErrBadAccount"@,
            ClpError::Arith => "ErrArith"@,
            ClpError::PoolMissing => "ErrPoolMissing"@,
        }
    }

    /// The short code under which callers know the failure.
    pub fn code(&self) -> (r: &'static str)
        ensures
            r@ == self.code_of(),
    {
        match self {
            ClpError::PoolExists => "E1",
            ClpError::Zero => "E2",
            ClpError::MaxExceeded => "E3",
            ClpError::MinNotMet => "E4",
            ClpError::InsufficientShares => "E5",
            ClpError::SameAsset => "E9",
            ClpError::Depleted => "E10",
            ClpError::Unauthorized => "ErrUnauthorized",
            ClpError::BadAccount => "ErrBadAccount",
            ClpError::Arith => "ErrArith",
            ClpError::PoolMissing => "ErrPoolMissing",
        }
    }
}

} // verus!
