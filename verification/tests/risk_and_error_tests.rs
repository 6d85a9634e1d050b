use trust_oracle::{RiskLevel, TrustOracleError};

#[test]
fn risk_levels_round_trip_through_wire_values() {
    let levels = [
        RiskLevel::Low,
        RiskLevel::Medium,
        RiskLevel::High,
        RiskLevel::Critical,
    ];
    for (i, level) in levels.iter().enumerate() {
        assert_eq!(level.to_u8(), i as u8);
        assert_eq!(RiskLevel::from_u8(i as u8), Some(*level));
    }
    for bad in 4u8..=255 {
        assert_eq!(RiskLevel::from_u8(bad), None);
    }
}

#[test]
fn error_codes_are_distinct_and_messages_nonempty() {
    let errors = [
        TrustOracleError::InvalidTrustScore,
        TrustOracleError::UnauthorizedOracle,
        TrustOracleError::InvalidRisk,
        TrustOracleError::InvalidWallet,
        TrustOracleError::NotFound,
        TrustOracleError::DerivationFailed,
    ];
    let mut codes: Vec<u32> = errors.iter().map(|e| e.code()).collect();
    codes.sort();
    codes.dedup();
    assert_eq!(codes.len(), errors.len());
    assert_eq!(TrustOracleError::InvalidTrustScore.code(), 6000);
    assert_eq!(TrustOracleError::UnauthorizedOracle.code(), 6001);
    for e in errors {
        assert!(!e.message().is_empty());
    }
}
