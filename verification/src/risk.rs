//! The four-band risk classification.

use vstd::prelude::*;

verus! {

/// Coarse four-band risk classification. Correlated with, but never
/// mechanically derived from, the trust score: the caller supplies both and
/// no consistency between them is enforced.
#[derive(Clone, Copy, PartialEq, Eq, Structural, Debug)]
pub enum RiskLevel {
    /// Expected alongside scores of 70 and above.
    Low,
    /// Expected alongside scores in [50, 70).
    Medium,
    /// Expected alongside scores in [30, 50).
    High,
    /// Expected alongside scores below 30.
    Critical,
}

/// The wire value of a risk level: Low is 0, Medium 1, High 2, Critical 3.
pub open spec fn spec_risk_to_u8(r: RiskLevel) -> u8 {
    match r {
        RiskLevel::Low => 0,
        RiskLevel::Medium => 1,
        RiskLevel::High => 2,
        RiskLevel::Critical => 3,
    }
}

/// The risk level denoted by a wire value, if it denotes one.
pub open spec fn spec_risk_from_u8(v: u8) -> Option<RiskLevel> {
    if v == 0 {
        Some(RiskLevel::Low)
    } else if v == 1 {
        Some(RiskLevel::Medium)
    } else if v == 2 {
        Some(RiskLevel::High)
    } else if v == 3 {
        Some(RiskLevel::Critical)
    } else {
        None
    }
}

/// A wire value that denotes a risk level is the wire value of that level.
pub proof fn lemma_risk_wire_inverse(v: u8)
    requires
        spec_risk_from_u8(v) is Some,
    ensures
        spec_risk_to_u8(spec_risk_from_u8(v)->0) == v,
{
}

impl RiskLevel {
    /// Wire value of this risk level.
    pub fn to_u8(self) -> (v: u8)
        ensures
            v == spec_risk_to_u8(self),
            spec_risk_from_u8(v) == Some(self),
    {
        match self {
            RiskLevel::Low => 0,
            RiskLevel::Medium => 1,
            RiskLevel::High => 2,
            RiskLevel::Critical => 3,
        }
    }

    /// Risk level denoted by a wire value; `None` for any value above 3.
    pub fn from_u8(v: u8) -> (r: Option<RiskLevel>)
        ensures
            r == spec_risk_from_u8(v),
            r is Some <==> v <= 3,
    {
        if v == 0 {
            Some(RiskLevel::Low)
        } else if v == 1 {
            Some(RiskLevel::Medium)
        } else if v == 2 {
            Some(RiskLevel::High)
        } else if v == 3 {
            Some(RiskLevel::Critical)
        } else {
            None
        }
    }
}

} // verus!
