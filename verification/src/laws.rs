//! Properties that hold of the ledger across calls, each proved from the
//! contracts that the operations themselves state.

use vstd::prelude::*;
use crate::address::{spec_derivation_admits, spec_derived};
use crate::error::TrustOracleError;
use crate::ledger::{spec_read_result, spec_update_applied, spec_update_result};
use crate::ledger::{GetTrustScore, TrustScoreLedger, UpdateTrustScore};
use crate::record::TrustScoreAccount;

verus! {

/// Address derivation is a pure function of the program id and the
/// (oracle, wallet) pair: any two results that the derivation contract
/// admits for identical inputs are identical.
pub proof fn lemma_address_derivation_pure(
    program: Seq<u8>,
    oracle: Seq<u8>,
    wallet: Seq<u8>,
    r1: Result<(Seq<u8>, u8), TrustOracleError>,
    r2: Result<(Seq<u8>, u8), TrustOracleError>,
)
    requires
        spec_derivation_admits(program, oracle, wallet, r1),
        spec_derivation_admits(program, oracle, wallet, r2),
    ensures
        r1 == r2,
{
}

/// Every score in [0, 100] submitted with a valid risk value, a signed
/// caller, the correctly derived address and (when ownership is enforced)
/// the owning oracle's identity is accepted.
pub proof fn lemma_valid_update_accepted(
    pre: TrustScoreLedger,
    ctx: UpdateTrustScore,
    score: u8,
    risk: u8,
)
    requires
        score <= 100,
        risk <= 3,
        ctx.oracle_signed,
        ({
            let d = spec_derived(pre.spec_program_id(), ctx.oracle@, ctx.wallet@);
            d is Some && (d->0).0 == ctx.trust_score_account@
        }),
        pre.spec_enforce_owner() ==> match pre.spec_get(ctx.trust_score_account@) {
            Some(prev) => prev.oracle@ == ctx.oracle@,
            None => true,
        },
    ensures
        spec_update_result(pre, ctx, score, risk) is Ok,
{
}

/// Every score above 100 submitted at the correctly derived address is
/// rejected with `InvalidTrustScore` (and, by the update's own contract,
/// a rejected update leaves storage unchanged).
pub proof fn lemma_overlarge_score_rejected(
    pre: TrustScoreLedger,
    ctx: UpdateTrustScore,
    score: u8,
    risk: u8,
)
    requires
        score > 100,
        ({
            let d = spec_derived(pre.spec_program_id(), ctx.oracle@, ctx.wallet@);
            d is Some && (d->0).0 == ctx.trust_score_account@
        }),
    ensures
        spec_update_result(pre, ctx, score, risk) == Err::<(), TrustOracleError>(TrustOracleError::InvalidTrustScore),
{
}

/// Upserting is idempotent up to the timestamp: applying the same update
/// twice leaves every other address untouched both times, and the second
/// record equals the first in wallet, score, risk and owner while its
/// timestamp advances with the clock.
pub proof fn lemma_upsert_idempotent(
    l0: TrustScoreLedger,
    l1: TrustScoreLedger,
    l2: TrustScoreLedger,
    ctx: UpdateTrustScore,
    score: u8,
    risk: u8,
    t1: i64,
    t2: i64,
)
    requires
        spec_update_applied(l0, l1, ctx, score, risk, t1),
        spec_update_applied(l1, l2, ctx, score, risk, t2),
        t1 < t2,
    ensures
        ({
            let d = spec_derived(l0.spec_program_id(), ctx.oracle@, ctx.wallet@);
            let addr = (d->0).0;
            let first = l1.spec_get(addr);
            let second = l2.spec_get(addr);
            &&& d is Some
            &&& forall|a: Seq<u8>| a != addr ==> l2.spec_get(a) == l1.spec_get(a)
            &&& first is Some
            &&& second is Some
            &&& second->0.wallet@ == first->0.wallet@
            &&& second->0.score == first->0.score
            &&& second->0.risk == first->0.risk
            &&& second->0.oracle@ == first->0.oracle@
            &&& first->0.last_updated == t1
            &&& second->0.last_updated == t2
            &&& second->0.last_updated > first->0.last_updated
        }),
{
}

/// Reading a pair whose derived address holds no record fails with
/// `NotFound`.
pub proof fn lemma_read_of_absent_pair_not_found(l: TrustScoreLedger, ctx: GetTrustScore)
    requires
        ({
            let d = spec_derived(l.spec_program_id(), ctx.oracle@, ctx.wallet@);
            d is Some && l.spec_get((d->0).0) is None
        }),
    ensures
        spec_read_result(l, ctx) == Err::<TrustScoreAccount, TrustOracleError>(TrustOracleError::NotFound),
{
}

} // verus!
