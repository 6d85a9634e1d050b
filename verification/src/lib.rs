//! Trust Score Ledger: an authenticated key-value registry in which an
//! oracle authority publishes a trust classification for a wallet identity
//! and anyone may read the current classification.
//!
//! Each record lives at a storage address derived deterministically from a
//! constant namespace tag, the oracle identity and the wallet identity.
//! An update re-derives that address, validates the arguments and the
//! caller's identity, and then applies an atomic create-or-update write;
//! any failed check leaves storage completely unchanged.

pub mod address;
pub mod codec;
pub mod error;
pub mod laws;
pub mod ledger;
pub mod record;
pub mod risk;

pub use address::{bytes_eq, derive_trust_score_address};
pub use codec::{decode_record, encode_record};
pub use error::TrustOracleError;
pub use ledger::{GetTrustScore, TrustScoreLedger, UpdateTrustScore};
pub use record::TrustScoreAccount;
pub use risk::RiskLevel;
