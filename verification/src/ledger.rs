//! The record store and its validation/authorization state machine.
//!
//! An update re-derives the storage address from the caller's identity and
//! the wallet identity, runs the validation checks in a fixed order, and
//! only then applies an atomic create-or-update write; any failed check
//! returns an error with storage completely unchanged.

use vstd::prelude::*;
use crate::address::{bytes_eq, derive_trust_score_address, spec_derived};
use crate::error::TrustOracleError;
use crate::record::TrustScoreAccount;
use crate::risk::{spec_risk_from_u8, RiskLevel};

verus! {

broadcast use vstd::array::group_array_axioms;

/// One stored entry: the derived address and the record kept at it.
pub(crate) type Entry = ([u8; 32], TrustScoreAccount);

/// Instruction context of an update: the caller-supplied storage address,
/// the oracle authority making the call, whether the host environment
/// verified that authority's signature, and the subject wallet.
#[derive(Clone, Copy)]
pub struct UpdateTrustScore {
    /// Caller-supplied storage address; it must equal the derived address.
    pub trust_score_account: [u8; 32],
    /// Identity of the oracle authority making the call.
    pub oracle: [u8; 32],
    /// Whether the host environment verified the oracle's signature.
    pub oracle_signed: bool,
    /// Identity of the subject wallet.
    pub wallet: [u8; 32],
}

/// Instruction context of a read: the pair whose record is fetched. Reads
/// run no validation of the caller's identity.
#[derive(Clone, Copy)]
pub struct GetTrustScore {
    /// Identity of the oracle authority that owns the record.
    pub oracle: [u8; 32],
    /// Identity of the subject wallet.
    pub wallet: [u8; 32],
}

/// The first record stored at the given address, scanning in order.
pub(crate) open spec fn spec_find_entry(entries: Seq<Entry>, addr: Seq<u8>) -> Option<TrustScoreAccount>
    decreases entries.len(),
{
    if entries.len() == 0 {
        None
    } else if entries[0].0@ == addr {
        Some(entries[0].1)
    } else {
        spec_find_entry(entries.drop_first(), addr)
    }
}

/// No two entries share a storage address.
pub(crate) open spec fn spec_unique(entries: Seq<Entry>) -> bool {
    forall|i: int, j: int|
        0 <= i < j < entries.len() ==> entries[i].0@ != entries[j].0@
}

/// The trust score ledger: one fixed-shape record per (oracle, wallet)
/// pair, each stored at the address derived from that pair under this
/// ledger's program id. Whether an update to an existing record must come
/// from the record's stored owner is a configuration choice made at
/// construction (`enforce_owner`).
pub struct TrustScoreLedger {
    program_id: [u8; 32],
    enforce_owner: bool,
    records: Vec<Entry>,
}

/// The error, if any, that the fixed-order validation of an update yields:
/// address derivation, address match, score range, risk range, caller
/// signature, then record ownership (the last only when the ledger
/// enforces it).
pub open spec fn spec_update_result(pre: TrustScoreLedger, ctx: UpdateTrustScore, score: u8, risk: u8) -> Result<(), TrustOracleError> {
    match spec_derived(pre.spec_program_id(), ctx.oracle@, ctx.wallet@) {
        None => Err(TrustOracleError::DerivationFailed),
        Some(p) => if p.0 != ctx.trust_score_account@ {
            Err(TrustOracleError::InvalidWallet)
        } else if score > 100 {
            Err(TrustOracleError::InvalidTrustScore)
        } else if risk > 3 {
            Err(TrustOracleError::InvalidRisk)
        } else if !ctx.oracle_signed {
            Err(TrustOracleError::UnauthorizedOracle)
        } else if pre.spec_enforce_owner() && (match pre.spec_get(p.0) {
            Some(prev) => prev.oracle@ != ctx.oracle@,
            None => false,
        }) {
            Err(TrustOracleError::UnauthorizedOracle)
        } else {
            Ok(())
        },
    }
}

/// How a successful update relates the ledger after the call to the ledger
/// before it: the record at the derived address holds exactly the
/// submitted wallet, score and risk, the given timestamp, and the owner
/// (kept from the existing record, or the caller on first creation);
/// every other address is unchanged, as is the configuration.
pub open spec fn spec_update_applied(pre: TrustScoreLedger, post: TrustScoreLedger, ctx: UpdateTrustScore, score: u8, risk: u8, now: i64) -> bool {
    match spec_derived(pre.spec_program_id(), ctx.oracle@, ctx.wallet@) {
        None => false,
        Some(p) => {
            &&& post.spec_program_id() == pre.spec_program_id()
            &&& post.spec_enforce_owner() == pre.spec_enforce_owner()
            &&& (forall|a: Seq<u8>| a != p.0 ==> post.spec_get(a) == pre.spec_get(a))
            &&& match post.spec_get(p.0) {
                None => false,
                Some(rec) => {
                    &&& rec.wallet@ == ctx.wallet@
                    &&& rec.score == score
                    &&& spec_risk_from_u8(risk) == Some(rec.risk)
                    &&& rec.last_updated == now
                    &&& rec.oracle@ == match pre.spec_get(p.0) {
                        Some(prev) => prev.oracle@,
                        None => ctx.oracle@,
                    }
                },
            }
        },
    }
}

/// What a read returns: the record stored at the derived address verbatim,
/// `NotFound` when none exists, or the derivation error.
pub open spec fn spec_read_result(self_: TrustScoreLedger, ctx: GetTrustScore) -> Result<TrustScoreAccount, TrustOracleError> {
    match spec_derived(self_.spec_program_id(), ctx.oracle@, ctx.wallet@) {
        None => Err(TrustOracleError::DerivationFailed),
        Some(p) => match self_.spec_get(p.0) {
            Some(rec) => Ok(rec),
            None => Err(TrustOracleError::NotFound),
        },
    }
}

proof fn lemma_unique_drop_first(entries: Seq<Entry>)
    requires
        entries.len() > 0,
        spec_unique(entries),
    ensures
        spec_unique(entries.drop_first()),
{
    assert forall|i: int, j: int|
        0 <= i < j < entries.drop_first().len() implies entries.drop_first()[i].0@ != entries.drop_first()[j].0@ by {
        assert(entries.drop_first()[i] == entries[i + 1]);
        assert(entries.drop_first()[j] == entries[j + 1]);
    }
}

proof fn lemma_find_present(entries: Seq<Entry>, i: int)
    requires
        spec_unique(entries),
        0 <= i < entries.len(),
    ensures
        spec_find_entry(entries, entries[i].0@) == Some(entries[i].1),
    decreases entries.len(),
{
    if i > 0 {
        assert(entries[0].0@ != entries[i].0@);
        lemma_unique_drop_first(entries);
        lemma_find_present(entries.drop_first(), i - 1);
        assert(entries.drop_first()[i - 1] == entries[i]);
    }
}

proof fn lemma_find_absent(entries: Seq<Entry>, addr: Seq<u8>)
    requires
        forall|k: int| 0 <= k < entries.len() ==> entries[k].0@ != addr,
    ensures
        spec_find_entry(entries, addr) is None,
    decreases entries.len(),
{
    if entries.len() > 0 {
        assert(entries[0].0@ != addr);
        assert forall|k: int|
            0 <= k < entries.drop_first().len() implies entries.drop_first()[k].0@ != addr by {
            assert(entries.drop_first()[k] == entries[k + 1]);
        }
        lemma_find_absent(entries.drop_first(), addr);
    }
}

proof fn lemma_find_push(entries: Seq<Entry>, e: Entry, x: Seq<u8>)
    requires
        forall|k: int| 0 <= k < entries.len() ==> entries[k].0@ != e.0@,
    ensures
        spec_find_entry(entries.push(e), x) == (if x == e.0@ {
            Some(e.1)
        } else {
            spec_find_entry(entries, x)
        }),
    decreases entries.len(),
{
    let p = entries.push(e);
    if entries.len() == 0 {
        assert(p[0] == e);
        assert(p.drop_first() =~= Seq::<Entry>::empty());
        if x == e.0@ {
            assert(spec_find_entry(p, x) == Some(e.1));
        } else {
            assert(spec_find_entry(p, x) == spec_find_entry(p.drop_first(), x));
            assert(spec_find_entry(Seq::<Entry>::empty(), x) is None);
        }
    } else {
        assert(p[0] == entries[0]);
        assert(p.drop_first() =~= entries.drop_first().push(e));
        assert forall|k: int|
            0 <= k < entries.drop_first().len() implies entries.drop_first()[k].0@ != e.0@ by {
            assert(entries.drop_first()[k] == entries[k + 1]);
        }
        lemma_find_push(entries.drop_first(), e, x);
        if x == entries[0].0@ {
            assert(x != e.0@);
            assert(spec_find_entry(p, x) == Some(entries[0].1));
            assert(spec_find_entry(entries, x) == Some(entries[0].1));
        } else {
            assert(spec_find_entry(p, x) == spec_find_entry(p.drop_first(), x));
            assert(spec_find_entry(entries, x) == spec_find_entry(entries.drop_first(), x));
        }
    }
}

proof fn lemma_find_remove(entries: Seq<Entry>, i: int, x: Seq<u8>)
    requires
        spec_unique(entries),
        0 <= i < entries.len(),
    ensures
        spec_find_entry(entries.remove(i), x) == (if x == entries[i].0@ {
            None
        } else {
            spec_find_entry(entries, x)
        }),
    decreases entries.len(),
{
    if i == 0 {
        assert(entries.remove(0) =~= entries.drop_first());
        if x == entries[0].0@ {
            assert forall|k: int|
                0 <= k < entries.drop_first().len() implies entries.drop_first()[k].0@ != x by {
                assert(entries.drop_first()[k] == entries[k + 1]);
                assert(entries[0].0@ != entries[k + 1].0@);
            }
            lemma_find_absent(entries.drop_first(), x);
        }
    } else {
        assert(entries.remove(i)[0] == entries[0]);
        assert(entries.remove(i).drop_first() =~= entries.drop_first().remove(i - 1));
        lemma_unique_drop_first(entries);
        lemma_find_remove(entries.drop_first(), i - 1, x);
        assert(entries.drop_first()[i - 1] == entries[i]);
        assert(entries[0].0@ != entries[i].0@);
    }
}

proof fn lemma_unique_remove(entries: Seq<Entry>, i: int)
    requires
        spec_unique(entries),
        0 <= i < entries.len(),
    ensures
        spec_unique(entries.remove(i)),
{
    assert forall|a: int, b: int|
        0 <= a < b < entries.remove(i).len() implies entries.remove(i)[a].0@ != entries.remove(i)[b].0@ by {
        let a0 = if a < i { a } else { a + 1 };
        let b0 = if b < i { b } else { b + 1 };
        assert(entries.remove(i)[a] == entries[a0]);
        assert(entries.remove(i)[b] == entries[b0]);
    }
}

proof fn lemma_unique_push(entries: Seq<Entry>, e: Entry)
    requires
        spec_unique(entries),
        forall|k: int| 0 <= k < entries.len() ==> entries[k].0@ != e.0@,
    ensures
        spec_unique(entries.push(e)),
{
    assert forall|a: int, b: int|
        0 <= a < b < entries.push(e).len() implies entries.push(e)[a].0@ != entries.push(e)[b].0@ by {
        if b < entries.len() {
            assert(entries.push(e)[a] == entries[a]);
            assert(entries.push(e)[b] == entries[b]);
        } else {
            assert(entries.push(e)[a] == entries[a]);
            assert(entries.push(e)[b] == e);
        }
    }
}

/// Index of the entry stored at the given address, if one exists.
fn find_index(entries: &Vec<Entry>, addr: &[u8; 32]) -> (r: Option<usize>)
    ensures
        match r {
            Some(i) => i < entries@.len() && entries@[i as int].0@ == addr@,
            None => forall|k: int| 0 <= k < entries@.len() ==> entries@[k].0@ != addr@,
        },
{
    let mut i: usize = 0;
    while i < entries.len()
        invariant
            i <= entries@.len(),
            forall|k: int| 0 <= k < i ==> entries@[k].0@ != addr@,
        decreases entries@.len() - i,
    {
        if bytes_eq(&entries[i].0, addr) {
            return Some(i);
        }
        i += 1;
    }
    None
}

impl TrustScoreLedger {
    #[verifier::type_invariant]
    spec fn wf(self) -> bool {
        spec_unique(self.records@)
    }

    /// The program id under which this ledger derives storage addresses.
    pub closed spec fn spec_program_id(self) -> Seq<u8> {
        self.program_id@
    }

    /// Whether updates to an existing record are restricted to its owner.
    pub closed spec fn spec_enforce_owner(self) -> bool {
        self.enforce_owner
    }

    /// The record stored at the given address, if any.
    pub closed spec fn spec_get(self, addr: Seq<u8>) -> Option<TrustScoreAccount> {
        spec_find_entry(self.records@, addr)
    }

    /// Creates an empty ledger for the given program id. `enforce_owner`
    /// selects the strict ownership check on updates to existing records.
    pub fn new(program_id: [u8; 32], enforce_owner: bool) -> (l: TrustScoreLedger)
        ensures
            l.spec_program_id() == program_id@,
            l.spec_enforce_owner() == enforce_owner,
            forall|a: Seq<u8>| l.spec_get(a) is None,
    {
        TrustScoreLedger { program_id, enforce_owner, records: Vec::new() }
    }

    /// The program id, for deriving addresses to pass back in.
    pub fn program_id(&self) -> (p: [u8; 32])
        ensures
            p@ == self.spec_program_id(),
    {
        self.program_id
    }

    /// Whether this ledger enforces the strict ownership check.
    pub fn enforce_owner(&self) -> (b: bool)
        ensures
            b == self.spec_enforce_owner(),
    {
        self.enforce_owner
    }

    /// Number of allocated records.
    pub fn record_count(&self) -> (n: usize) {
        self.records.len()
    }

    /// Validates and applies one update: re-derives the storage address
    /// from the caller's identity and the wallet, checks it against the
    /// supplied address, checks the score range, the risk range, the
    /// caller's signature and (when enforced) the record's ownership, and
    /// only then upserts the record, stamping it with `now`. Any failure
    /// leaves the ledger exactly as it was.
    pub fn update_trust_score(&mut self, ctx: &UpdateTrustScore, score: u8, risk: u8, now: i64) -> (r: Result<(), TrustOracleError>)
        ensures
            r == spec_update_result(*old(self), *ctx, score, risk),
            r is Err ==> *final(self) == *old(self),
            r is Ok ==> spec_update_applied(*old(self), *final(self), *ctx, score, risk, now),
    {
        proof {
            use_type_invariant(&*self);
        }
        let derived = derive_trust_score_address(&self.program_id, &ctx.oracle, &ctx.wallet);
        let addr: [u8; 32] = match derived {
            Ok(p) => p.0,
            Err(_) => {
                return Err(TrustOracleError::DerivationFailed);
            },
        };
        if !bytes_eq(&addr, &ctx.trust_score_account) {
            return Err(TrustOracleError::InvalidWallet);
        }
        if score > 100 {
            return Err(TrustOracleError::InvalidTrustScore);
        }
        let risk_level: RiskLevel = match RiskLevel::from_u8(risk) {
            Some(rl) => rl,
            None => {
                return Err(TrustOracleError::InvalidRisk);
            },
        };
        if !ctx.oracle_signed {
            return Err(TrustOracleError::UnauthorizedOracle);
        }
        let ghost pre = self.records@;
        let idx = find_index(&self.records, &addr);
        let stored_oracle: [u8; 32] = match idx {
            Some(i) => {
                proof {
                    lemma_find_present(pre, i as int);
                }
                let prev = self.records[i].1;
                if self.enforce_owner && !bytes_eq(&prev.oracle, &ctx.oracle) {
                    return Err(TrustOracleError::UnauthorizedOracle);
                }
                prev.oracle
            },
            None => {
                proof {
                    lemma_find_absent(pre, addr@);
                }
                ctx.oracle
            },
        };
        let rec = TrustScoreAccount {
            wallet: ctx.wallet,
            score,
            risk: risk_level,
            last_updated: now,
            oracle: stored_oracle,
        };
        let mut entries: Vec<Entry> = Vec::new();
        std::mem::swap(&mut entries, &mut self.records);
        match idx {
            Some(i) => {
                entries.remove(i);
                proof {
                    lemma_unique_remove(pre, i as int);
                    assert forall|k: int|
                        0 <= k < pre.remove(i as int).len() implies pre.remove(i as int)[k].0@ != addr@ by {
                        let k0 = if k < i { k } else { k + 1 };
                        assert(pre.remove(i as int)[k] == pre[k0]);
                        if k0 < i {
                            assert(pre[k0].0@ != pre[i as int].0@);
                        } else {
                            assert(pre[i as int].0@ != pre[k0].0@);
                        }
                    }
                }
            },
            None => {},
        }
        let ghost trimmed = entries@;
        entries.push((addr, rec));
        proof {
            lemma_unique_push(trimmed, (addr, rec));
            assert forall|x: Seq<u8>|
                #[trigger] spec_find_entry(entries@, x) == (if x == addr@ {
                    Some(rec)
                } else {
                    spec_find_entry(pre, x)
                }) by {
                lemma_find_push(trimmed, (addr, rec), x);
                if idx is Some {
                    lemma_find_remove(pre, idx->0 as int, x);
                }
            }
        }
        self.records = entries;
        Ok(())
    }

    /// Reads the record for the (oracle, wallet) pair: re-derives the
    /// address and returns the stored record verbatim, `NotFound` when the
    /// pair was never updated. No caller identity is checked.
    pub fn get_trust_score(&self, ctx: &GetTrustScore) -> (r: Result<TrustScoreAccount, TrustOracleError>)
        ensures
            r == spec_read_result(*self, *ctx),
    {
        proof {
            use_type_invariant(&*self);
        }
        let derived = derive_trust_score_address(&self.program_id, &ctx.oracle, &ctx.wallet);
        let addr: [u8; 32] = match derived {
            Ok(p) => p.0,
            Err(_) => {
                return Err(TrustOracleError::DerivationFailed);
            },
        };
        match find_index(&self.records, &addr) {
            Some(i) => {
                proof {
                    lemma_find_present(self.records@, i as int);
                }
                Ok(self.records[i].1)
            },
            None => {
                proof {
                    lemma_find_absent(self.records@, addr@);
                }
                Err(TrustOracleError::NotFound)
            },
        }
    }
}

} // verus!
