//! Deterministic storage address derivation.
//!
//! A record's storage address is a pure function of the constant namespace
//! tag, the oracle identity and the wallet identity: the host ledger's
//! program-derived-address search hashes the concatenated seeds together
//! with the program id and a disambiguation byte ("bump") until the result
//! falls outside the space of directly-spendable addresses.

use vstd::prelude::*;
use crate::error::TrustOracleError;

verus! {

/// The address and bump that the program-derived-address search yields for
/// a seed triple under a program id, or `None` when no disambiguation byte
/// in the bounded search space gives a valid address. A pure function of
/// its arguments, reproducible by any caller.
pub uninterp spec fn pda_of(tag: Seq<u8>, seed_a: Seq<u8>, seed_b: Seq<u8>, program: Seq<u8>) -> Option<(Seq<u8>, u8)>;

/// Relies on anchor_lang's `Pubkey::try_find_program_address` (the
/// re-exported `solana_address::Address::try_find_program_address`): its
/// result is computed from the seed slices and the program id alone, and it
/// returns `None` only when no bump byte yields a valid address.
#[verifier::external_body]
fn try_find_pda(tag: &Vec<u8>, seed_a: &[u8; 32], seed_b: &[u8; 32], program: &[u8; 32]) -> (r: Option<([u8; 32], u8)>)
    ensures
        match r {
            Some(p) => pda_of(tag@, seed_a@, seed_b@, program@) == Some((p.0@, p.1)),
            None => pda_of(tag@, seed_a@, seed_b@, program@) is None,
        },
{
    let program_id = anchor_lang::prelude::Pubkey::new_from_array(*program);
    let found = anchor_lang::prelude::Pubkey::try_find_program_address(
        &[tag.as_slice(), seed_a.as_slice(), seed_b.as_slice()],
        &program_id,
    );
    found.map(|(addr, bump)| (addr.to_bytes(), bump))
}

/// The namespace tag put first among the derivation seeds: the ASCII bytes
/// of `trust_score`.
pub open spec fn spec_seed_tag() -> Seq<u8> {
    seq![116u8, 114u8, 117u8, 115u8, 116u8, 95u8, 115u8, 99u8, 111u8, 114u8, 101u8]
}

/// Builds the namespace tag used as the first derivation seed.
pub fn seed_tag() -> (v: Vec<u8>)
    ensures
        v@ == spec_seed_tag(),
{
    let mut v: Vec<u8> = Vec::new();
    v.push(116);
    v.push(114);
    v.push(117);
    v.push(115);
    v.push(116);
    v.push(95);
    v.push(115);
    v.push(99);
    v.push(111);
    v.push(114);
    v.push(101);
    proof {
        assert(v@ =~= spec_seed_tag());
    }
    v
}

/// The derivation outcome for a (oracle, wallet) pair under a program id.
pub open spec fn spec_derived(program: Seq<u8>, oracle: Seq<u8>, wallet: Seq<u8>) -> Option<(Seq<u8>, u8)> {
    pda_of(spec_seed_tag(), oracle, wallet, program)
}

/// What `derive_trust_score_address` may return for the given inputs,
/// stated over views: success carries exactly the derived address and bump,
/// and failure occurs exactly when no valid bump exists.
pub open spec fn spec_derivation_admits(program: Seq<u8>, oracle: Seq<u8>, wallet: Seq<u8>, r: Result<(Seq<u8>, u8), TrustOracleError>) -> bool {
    match r {
        Ok(p) => spec_derived(program, oracle, wallet) == Some(p),
        Err(e) => e == TrustOracleError::DerivationFailed && spec_derived(program, oracle, wallet) is None,
    }
}

/// Derives the storage address and bump for the (oracle, wallet) pair under
/// the given program id, from those three inputs alone.
pub fn derive_trust_score_address(program: &[u8; 32], oracle: &[u8; 32], wallet: &[u8; 32]) -> (r: Result<([u8; 32], u8), TrustOracleError>)
    ensures
        spec_derivation_admits(
            program@,
            oracle@,
            wallet@,
            match r {
                Ok(p) => Ok((p.0@, p.1)),
                Err(e) => Err(e),
            },
        ),
{
    let tag = seed_tag();
    match try_find_pda(&tag, oracle, wallet, program) {
        Some(p) => Ok(p),
        None => Err(TrustOracleError::DerivationFailed),
    }
}

/// Compares two 32-byte identifiers for equality.
pub fn bytes_eq(a: &[u8; 32], b: &[u8; 32]) -> (r: bool)
    ensures
        r <==> a@ == b@,
{
    let mut i: usize = 0;
    while i < 32
        invariant
            i <= 32,
            forall|j: int| 0 <= j < i ==> a@[j] == b@[j],
        decreases 32 - i,
    {
        if a[i] != b[i] {
            return false;
        }
        i += 1;
    }
    proof {
        assert(a@ =~= b@);
    }
    true
}

} // verus!
