//! The persisted record layout, in fixed order and fixed width:
//! wallet (32 bytes), score (1), risk (1), last_updated (8, signed,
//! little-endian), oracle (32) — 74 bytes in all.

use vstd::prelude::*;
use crate::record::TrustScoreAccount;
use crate::risk::{spec_risk_from_u8, spec_risk_to_u8, RiskLevel};

verus! {

/// Width of the persisted record layout in bytes.
pub const RECORD_LEN: usize = 74;

/// The two's-complement bit pattern of a signed 64-bit value.
pub open spec fn spec_i64_bits(x: i64) -> u64 {
    if x >= 0 {
        x as u64
    } else {
        ((x as int) + 0x10000000000000000) as u64
    }
}

/// The signed 64-bit value with the given two's-complement bit pattern.
pub open spec fn spec_bits_i64(b: u64) -> i64 {
    if b <= 0x7fffffffffffffff {
        b as i64
    } else {
        ((b as int) - 0x10000000000000000) as i64
    }
}

/// The bit pattern denotes the value it was taken from.
pub proof fn lemma_bits_of_i64_round_trip(x: i64)
    ensures
        spec_bits_i64(spec_i64_bits(x)) == x,
{
}

/// The value denotes the bit pattern it was taken from.
pub proof fn lemma_i64_of_bits_round_trip(b: u64)
    ensures
        spec_i64_bits(spec_bits_i64(b)) == b,
{
}

fn i64_bits(x: i64) -> (r: u64)
    ensures
        r == spec_i64_bits(x),
{
    if x >= 0 {
        x as u64
    } else {
        let m: i64 = -(x + 1);
        0xffffffffffffffffu64 - (m as u64)
    }
}

fn bits_i64(b: u64) -> (r: i64)
    ensures
        r == spec_bits_i64(b),
{
    if b <= 0x7fffffffffffffff {
        b as i64
    } else {
        let m: u64 = 0xffffffffffffffffu64 - b;
        -(m as i64) - 1
    }
}

/// The persisted bytes of a record.
pub open spec fn spec_encode_record(r: TrustScoreAccount) -> Seq<u8> {
    r.wallet@ + seq![r.score, spec_risk_to_u8(r.risk)]
        + vstd::bytes::spec_u64_to_le_bytes(spec_i64_bits(r.last_updated)) + r.oracle@
}

fn push_bytes32(out: &mut Vec<u8>, b: &[u8; 32])
    ensures
        final(out)@ == old(out)@ + b@,
{
    proof {
        assert(old(out)@ + b@.subrange(0, 0) =~= old(out)@);
    }
    let mut i: usize = 0;
    while i < 32
        invariant
            i <= 32,
            out@ == old(out)@ + b@.subrange(0, i as int),
        decreases 32 - i,
    {
        out.push(b[i]);
        proof {
            assert(out@ =~= old(out)@ + b@.subrange(0, i + 1));
        }
        i += 1;
    }
    proof {
        assert(b@.subrange(0, 32) =~= b@);
    }
}

fn read_bytes32(bytes: &Vec<u8>, start: usize) -> (out: [u8; 32])
    requires
        start + 32 <= bytes@.len(),
    ensures
        out@ == bytes@.subrange(start as int, start as int + 32),
{
    let n: usize = bytes.len();
    let mut out: [u8; 32] = [0; 32];
    let mut i: usize = 0;
    while i < 32
        invariant
            i <= 32,
            start + 32 <= n == bytes@.len(),
            forall|j: int| 0 <= j < i ==> out@[j] == bytes@[start + j],
        decreases 32 - i,
    {
        out[i] = bytes[start + i];
        i += 1;
    }
    proof {
        assert(out@ =~= bytes@.subrange(start as int, start as int + 32));
    }
    out
}

/// Serialises a record into its persisted layout.
pub fn encode_record(r: &TrustScoreAccount) -> (out: Vec<u8>)
    ensures
        out@ == spec_encode_record(*r),
        out@.len() == RECORD_LEN,
{
    let mut out: Vec<u8> = Vec::new();
    push_bytes32(&mut out, &r.wallet);
    out.push(r.score);
    out.push(r.risk.to_u8());
    let mut ts = vstd::bytes::u64_to_le_bytes(i64_bits(r.last_updated));
    out.append(&mut ts);
    push_bytes32(&mut out, &r.oracle);
    proof {
        assert(out@ =~= spec_encode_record(*r));
    }
    out
}

/// Parses a persisted record. Succeeds exactly on inputs of the layout's
/// width whose risk byte denotes a risk level, and then yields the one
/// record whose encoding is the input.
pub fn decode_record(bytes: &Vec<u8>) -> (r: Option<TrustScoreAccount>)
    ensures
        r is Some <==> (bytes@.len() == RECORD_LEN && spec_risk_from_u8(bytes@[33]) is Some),
        r matches Some(rec) ==> spec_encode_record(rec) == bytes@,
{
    if bytes.len() != RECORD_LEN {
        return None;
    }
    let risk: RiskLevel = match RiskLevel::from_u8(bytes[33]) {
        Some(rl) => rl,
        None => {
            return None;
        },
    };
    let wallet = read_bytes32(bytes, 0);
    let score = bytes[32];
    let mut ts_bytes: Vec<u8> = Vec::new();
    let mut i: usize = 0;
    while i < 8
        invariant
            i <= 8,
            bytes@.len() == 74,
            ts_bytes@ == bytes@.subrange(34, 34 + i as int),
        decreases 8 - i,
    {
        ts_bytes.push(bytes[34 + i]);
        proof {
            assert(ts_bytes@ =~= bytes@.subrange(34, 34 + i + 1));
        }
        i += 1;
    }
    let bits = vstd::bytes::u64_from_le_bytes(ts_bytes.as_slice());
    let last_updated = bits_i64(bits);
    let oracle = read_bytes32(bytes, 42);
    let rec = TrustScoreAccount { wallet, score, risk, last_updated, oracle };
    proof {
        crate::risk::lemma_risk_wire_inverse(bytes@[33]);
        lemma_i64_of_bits_round_trip(bits);
        vstd::bytes::lemma_auto_spec_u64_to_from_le_bytes();
        assert(vstd::bytes::spec_u64_to_le_bytes(spec_i64_bits(rec.last_updated)) == ts_bytes@);
        assert(spec_encode_record(rec) =~= bytes@);
    }
    Some(rec)
}

/// The persisted layout is injective: two records with one encoding agree
/// on every field.
pub proof fn lemma_encode_injective(r1: TrustScoreAccount, r2: TrustScoreAccount)
    requires
        spec_encode_record(r1) == spec_encode_record(r2),
    ensures
        r1.wallet@ == r2.wallet@,
        r1.score == r2.score,
        r1.risk == r2.risk,
        r1.last_updated == r2.last_updated,
        r1.oracle@ == r2.oracle@,
{
    vstd::bytes::lemma_auto_spec_u64_to_from_le_bytes();
    let s1 = spec_encode_record(r1);
    let s2 = spec_encode_record(r2);
    assert forall|j: int| 0 <= j < 32 implies r1.wallet@[j] == r2.wallet@[j] by {
        assert(s1[j] == r1.wallet@[j]);
        assert(s2[j] == r2.wallet@[j]);
    }
    assert(r1.wallet@ =~= r2.wallet@);
    assert(s1[32] == r1.score);
    assert(s2[32] == r2.score);
    assert(s1[33] == spec_risk_to_u8(r1.risk));
    assert(s2[33] == spec_risk_to_u8(r2.risk));
    let b1 = vstd::bytes::spec_u64_to_le_bytes(spec_i64_bits(r1.last_updated));
    let b2 = vstd::bytes::spec_u64_to_le_bytes(spec_i64_bits(r2.last_updated));
    assert forall|j: int| 0 <= j < 8 implies b1[j] == b2[j] by {
        assert(s1[34 + j] == b1[j]);
        assert(s2[34 + j] == b2[j]);
    }
    assert(b1 =~= b2);
    assert(vstd::bytes::spec_u64_from_le_bytes(b1) == spec_i64_bits(r1.last_updated));
    assert(vstd::bytes::spec_u64_from_le_bytes(b2) == spec_i64_bits(r2.last_updated));
    lemma_bits_of_i64_round_trip(r1.last_updated);
    lemma_bits_of_i64_round_trip(r2.last_updated);
    assert forall|j: int| 0 <= j < 32 implies r1.oracle@[j] == r2.oracle@[j] by {
        assert(s1[42 + j] == r1.oracle@[j]);
        assert(s2[42 + j] == r2.oracle@[j]);
    }
    assert(r1.oracle@ =~= r2.oracle@);
}

} // verus!
