use trust_oracle::{
    derive_trust_score_address, GetTrustScore, RiskLevel, TrustOracleError, TrustScoreLedger,
    UpdateTrustScore,
};

const PROGRAM_ID: [u8; 32] = [7u8; 32];

fn id(b: u8) -> [u8; 32] {
    [b; 32]
}

fn ctx_for(ledger: &TrustScoreLedger, oracle: [u8; 32], wallet: [u8; 32], signed: bool) -> UpdateTrustScore {
    let (addr, _bump) =
        derive_trust_score_address(&ledger.program_id(), &oracle, &wallet).unwrap();
    UpdateTrustScore {
        trust_score_account: addr,
        oracle,
        oracle_signed: signed,
        wallet,
    }
}

#[test]
fn valid_update_stores_submitted_values() {
    let mut ledger = TrustScoreLedger::new(PROGRAM_ID, true);
    let oracle = id(1);
    let wallet = id(2);
    let ctx = ctx_for(&ledger, oracle, wallet, true);
    for score in [0u8, 1, 50, 99, 100] {
        for risk in 0u8..=3 {
            assert_eq!(ledger.update_trust_score(&ctx, score, risk, 1_000), Ok(()));
            let rec = ledger
                .get_trust_score(&GetTrustScore { oracle, wallet })
                .unwrap();
            assert_eq!(rec.score, score);
            assert_eq!(rec.risk.to_u8(), risk);
            assert_eq!(rec.last_updated, 1_000);
            assert_eq!(rec.wallet, wallet);
            assert_eq!(rec.oracle, oracle);
        }
    }
}

#[test]
fn overlarge_score_rejected_and_storage_unchanged() {
    let mut ledger = TrustScoreLedger::new(PROGRAM_ID, true);
    let oracle = id(1);
    let wallet = id(2);
    let ctx = ctx_for(&ledger, oracle, wallet, true);
    for bad in [101u8, 150, 255] {
        assert_eq!(
            ledger.update_trust_score(&ctx, bad, 0, 5),
            Err(TrustOracleError::InvalidTrustScore)
        );
    }
    // never initialised: still unallocated
    assert_eq!(ledger.record_count(), 0);
    assert_eq!(
        ledger.get_trust_score(&GetTrustScore { oracle, wallet }),
        Err(TrustOracleError::NotFound)
    );
    // initialise, then fail again: prior state kept
    assert_eq!(ledger.update_trust_score(&ctx, 60, 1, 10), Ok(()));
    assert_eq!(
        ledger.update_trust_score(&ctx, 101, 2, 20),
        Err(TrustOracleError::InvalidTrustScore)
    );
    let rec = ledger
        .get_trust_score(&GetTrustScore { oracle, wallet })
        .unwrap();
    assert_eq!(rec.score, 60);
    assert_eq!(rec.risk, RiskLevel::Medium);
    assert_eq!(rec.last_updated, 10);
}

#[test]
fn invalid_risk_rejected() {
    let mut ledger = TrustScoreLedger::new(PROGRAM_ID, true);
    let ctx = ctx_for(&ledger, id(1), id(2), true);
    for bad in [4u8, 9, 255] {
        assert_eq!(
            ledger.update_trust_score(&ctx, 50, bad, 5),
            Err(TrustOracleError::InvalidRisk)
        );
    }
    assert_eq!(ledger.record_count(), 0);
}

#[test]
fn mismatched_address_rejected() {
    let mut ledger = TrustScoreLedger::new(PROGRAM_ID, true);
    let oracle = id(1);
    let wallet = id(2);
    let mut ctx = ctx_for(&ledger, oracle, wallet, true);
    ctx.trust_score_account = id(9);
    assert_eq!(
        ledger.update_trust_score(&ctx, 50, 0, 5),
        Err(TrustOracleError::InvalidWallet)
    );
    assert_eq!(ledger.record_count(), 0);
}

#[test]
fn unsigned_caller_rejected() {
    let mut ledger = TrustScoreLedger::new(PROGRAM_ID, true);
    let ctx = ctx_for(&ledger, id(1), id(2), false);
    assert_eq!(
        ledger.update_trust_score(&ctx, 50, 0, 5),
        Err(TrustOracleError::UnauthorizedOracle)
    );
    assert_eq!(ledger.record_count(), 0);
}

#[test]
fn upsert_is_idempotent_up_to_timestamp() {
    let mut ledger = TrustScoreLedger::new(PROGRAM_ID, true);
    let oracle = id(1);
    let wallet = id(2);
    let ctx = ctx_for(&ledger, oracle, wallet, true);
    assert_eq!(ledger.update_trust_score(&ctx, 80, 0, 100), Ok(()));
    let first = ledger
        .get_trust_score(&GetTrustScore { oracle, wallet })
        .unwrap();
    assert_eq!(ledger.update_trust_score(&ctx, 80, 0, 101), Ok(()));
    let second = ledger
        .get_trust_score(&GetTrustScore { oracle, wallet })
        .unwrap();
    assert_eq!(second.wallet, first.wallet);
    assert_eq!(second.score, first.score);
    assert_eq!(second.risk, first.risk);
    assert_eq!(second.oracle, first.oracle);
    assert!(second.last_updated > first.last_updated);
    assert_eq!(ledger.record_count(), 1);
}

#[test]
fn read_of_never_updated_pair_fails_not_found() {
    let ledger = TrustScoreLedger::new(PROGRAM_ID, true);
    assert_eq!(
        ledger.get_trust_score(&GetTrustScore { oracle: id(1), wallet: id(2) }),
        Err(TrustOracleError::NotFound)
    );
}

#[test]
fn update_read_overwrite_and_foreign_signer_scenario() {
    let mut ledger = TrustScoreLedger::new(PROGRAM_ID, true);
    let oracle_one = id(1);
    let oracle_two = id(3);
    let wallet = id(2);
    let ctx = ctx_for(&ledger, oracle_one, wallet, true);

    // first update creates the record, owner is the caller
    assert_eq!(ledger.update_trust_score(&ctx, 85, 0, 50), Ok(()));
    let rec = ledger
        .get_trust_score(&GetTrustScore { oracle: oracle_one, wallet })
        .unwrap();
    assert_eq!(rec.oracle, oracle_one);
    assert_eq!(rec.score, 85);
    assert_eq!(rec.risk, RiskLevel::Low);

    // second update by the owner overwrites in place at the same address
    assert_eq!(ledger.update_trust_score(&ctx, 40, 2, 60), Ok(()));
    let rec = ledger
        .get_trust_score(&GetTrustScore { oracle: oracle_one, wallet })
        .unwrap();
    assert_eq!(rec.score, 40);
    assert_eq!(rec.risk, RiskLevel::High);
    assert!(rec.last_updated > 50);
    assert_eq!(ledger.record_count(), 1);

    // a different signer aiming at oracle_one's address without
    // oracle_one's signature is rejected
    let spoof = UpdateTrustScore {
        trust_score_account: ctx.trust_score_account,
        oracle: oracle_one,
        oracle_signed: false,
        wallet,
    };
    assert_eq!(
        ledger.update_trust_score(&spoof, 1, 3, 70),
        Err(TrustOracleError::UnauthorizedOracle)
    );
    // supplying oracle_one's address under oracle_two's own identity
    // fails the address re-derivation check
    let mismatch = UpdateTrustScore {
        trust_score_account: ctx.trust_score_account,
        oracle: oracle_two,
        oracle_signed: true,
        wallet,
    };
    assert_eq!(
        ledger.update_trust_score(&mismatch, 1, 3, 70),
        Err(TrustOracleError::InvalidWallet)
    );
    // oracle_one's record is untouched either way
    let rec = ledger
        .get_trust_score(&GetTrustScore { oracle: oracle_one, wallet })
        .unwrap();
    assert_eq!(rec.score, 40);

    // the same wallet has an independent record under oracle_two
    let ctx_two = ctx_for(&ledger, oracle_two, wallet, true);
    assert_eq!(ledger.update_trust_score(&ctx_two, 10, 3, 80), Ok(()));
    assert_eq!(ledger.record_count(), 2);
    let rec_two = ledger
        .get_trust_score(&GetTrustScore { oracle: oracle_two, wallet })
        .unwrap();
    assert_eq!(rec_two.score, 10);
    assert_eq!(rec_two.oracle, oracle_two);
    let rec_one = ledger
        .get_trust_score(&GetTrustScore { oracle: oracle_one, wallet })
        .unwrap();
    assert_eq!(rec_one.score, 40);
}

#[test]
fn relaxed_ledger_accepts_updates_too() {
    let mut ledger = TrustScoreLedger::new(PROGRAM_ID, false);
    assert!(!ledger.enforce_owner());
    let oracle = id(1);
    let wallet = id(2);
    let ctx = ctx_for(&ledger, oracle, wallet, true);
    assert_eq!(ledger.update_trust_score(&ctx, 30, 2, 5), Ok(()));
    let rec = ledger
        .get_trust_score(&GetTrustScore { oracle, wallet })
        .unwrap();
    assert_eq!(rec.score, 30);
}
