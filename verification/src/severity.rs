//! The closed sets of outlier severities and verification states.

use vstd::prelude::*;

verus! {

/// How serious an outlier is. The four levels are totally ordered:
/// `Low < Medium < High < Critical`.
#[derive(Clone, Copy, Debug, PartialEq, Eq, Structural)]
pub enum OutlierSeverity {
    Low,
    Medium,
    High,
    Critical,
}

impl OutlierSeverity {
    /// Position of a level in the order, counted from one.
    pub open spec fn spec_rank(self) -> nat {
        match self {
            OutlierSeverity::Low => 1,
            OutlierSeverity::Medium => 2,
            OutlierSeverity::High => 3,
            OutlierSeverity::Critical => 4,
        }
    }

    /// Whether `self` is at least as severe as `threshold`.
    pub open spec fn spec_at_least(self, threshold: OutlierSeverity) -> bool {
        self.spec_rank() >= threshold.spec_rank()
    }

    /// Position of the level in the order: 1 for `Low` up to 4 for `Critical`.
    pub fn rank(self) -> (r: u8)
        ensures
            r == self.spec_rank(),
            1 <= r <= 4,
    {
        match self {
            OutlierSeverity::Low => 1,
            OutlierSeverity::Medium => 2,
            OutlierSeverity::High => 3,
            OutlierSeverity::Critical => 4,
        }
    }

    /// Whether `self` is at least as severe as `threshold`.
    #[verifier::when_used_as_spec(spec_at_least)]
    pub fn at_least(self, threshold: OutlierSeverity) -> (b: bool)
        ensures
            b == self.spec_at_least(threshold),
    {
        self.rank() >= threshold.rank()
    }
}

/// Any two levels are comparable, and the comparison is an order: reflexive,
/// antisymmetric and transitive.
pub proof fn severity_is_total_order(a: OutlierSeverity, b: OutlierSeverity, c: OutlierSeverity)
    ensures
        a.spec_at_least(b) || b.spec_at_least(a),
        a.spec_at_least(a),
        a.spec_at_least(b) && b.spec_at_least(a) ==> a == b,
        a.spec_at_least(b) && b.spec_at_least(c) ==> a.spec_at_least(c),
        OutlierSeverity::Critical.spec_at_least(a),
        a.spec_at_least(OutlierSeverity::Low),
{
}

/// Where an outlier stands in the verification process. The states carry no
/// order.
#[derive(Clone, Copy, Debug, PartialEq, Eq, Structural)]
pub enum VerificationStatus {
    Pending,
    Verified,
    Disputed,
    Flagged,
}

} // verus!
