//! Error taxonomy of the trust score ledger.
//!
//! Every failed operation aborts with one of these discrete codes and leaves
//! storage completely unchanged; nothing is retried internally.

use vstd::prelude::*;

verus! {

/// Why an update or a read was refused.
#[derive(Clone, Copy, PartialEq, Eq, Structural, Debug)]
pub enum TrustOracleError {
    /// The submitted score lies above 100.
    InvalidTrustScore,
    /// The caller did not sign, or does not match the record's stored owner.
    UnauthorizedOracle,
    /// The submitted risk value denotes none of the four risk levels.
    InvalidRisk,
    /// The caller-supplied storage address does not match the address derived
    /// from the caller's identity and the wallet identity.
    InvalidWallet,
    /// No record has ever been written at the derived address.
    NotFound,
    /// No valid disambiguation value exists within the bounded search space
    /// of the address derivation (practically unreachable).
    DerivationFailed,
}

/// The discrete code of each error.
pub open spec fn spec_error_code(e: TrustOracleError) -> u32 {
    match e {
        TrustOracleError::InvalidTrustScore => 6000,
        TrustOracleError::UnauthorizedOracle => 6001,
        TrustOracleError::InvalidRisk => 6002,
        TrustOracleError::InvalidWallet => 6003,
        TrustOracleError::NotFound => 6004,
        TrustOracleError::DerivationFailed => 6005,
    }
}

impl TrustOracleError {
    /// Discrete error code, distinct per variant.
    pub fn code(&self) -> (c: u32)
        ensures
            c == spec_error_code(*self),
    {
        match self {
            TrustOracleError::InvalidTrustScore => 6000,
            TrustOracleError::UnauthorizedOracle => 6001,
            TrustOracleError::InvalidRisk => 6002,
            TrustOracleError::InvalidWallet => 6003,
            TrustOracleError::NotFound => 6004,
            TrustOracleError::DerivationFailed => 6005,
        }
    }

    /// Human-readable message for this error.
    pub fn message(&self) -> (s: &'static str) {
        match self {
            TrustOracleError::InvalidTrustScore => "Trust score must be 0-100",
            TrustOracleError::UnauthorizedOracle => "Only the oracle authority may update",
            TrustOracleError::InvalidRisk => "Risk level must be one of the four defined values",
            TrustOracleError::InvalidWallet => "Supplied address does not match the derived address",
            TrustOracleError::NotFound => "No trust score record exists for this pair",
            TrustOracleError::DerivationFailed => "No valid address could be derived",
        }
    }
}

} // verus!
