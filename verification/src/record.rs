//! The fixed-shape trust score record.

use vstd::prelude::*;
use crate::risk::RiskLevel;

verus! {

/// One trust score record. Exactly one exists per (oracle, wallet) pair,
/// at the storage address derived from that pair; it is allocated by the
/// first successful update for the pair and persists indefinitely.
#[derive(Clone, Copy, PartialEq, Eq, Debug)]
pub struct TrustScoreAccount {
    /// Identity of the subject wallet.
    pub wallet: [u8; 32],
    /// Trust score in [0, 100], enforced at write time.
    pub score: u8,
    /// Risk level supplied by the caller alongside the score.
    pub risk: RiskLevel,
    /// Seconds since epoch of the last successful update.
    pub last_updated: i64,
    /// Identity of the oracle authority that owns this record.
    pub oracle: [u8; 32],
}

} // verus!
