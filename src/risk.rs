use vstd::prelude::*;

use crate::text::same_text;

verus! {

/// Severity attached to a finding, ordered `Low < Medium < High < Critical`.
#[derive(Clone, Copy, Debug, PartialEq, Eq, Structural)]
pub enum RiskLevel {
    Low,
    Medium,
    High,
    Critical,
}

impl RiskLevel {
    pub open spec fn rank(self) -> nat {
        match self {
            RiskLevel::Low => 0,
            RiskLevel::Medium => 1,
            RiskLevel::High => 2,
            RiskLevel::Critical => 3,
        }
    }

    /// The name under which the level is stored.
    pub open spec fn name(self) -> Seq<char> {
        match self {
            RiskLevel::Low => "low"@,
            RiskLevel::Medium => "medium"@,
            RiskLevel::High => "high"@,
            RiskLevel::Critical => "critical"@,
        }
    }

    pub fn as_str(&self) -> (r: &'static str)
        ensures
            r@ == self.name(),
    {
        match self {
            RiskLevel::Low => "low",
            RiskLevel::Medium => "medium",
            RiskLevel::High => "high",
            RiskLevel::Critical => "critical",
        }
    }

    /// The level stored under `s`, if any.
    pub fn parse(s: &str) -> (r: Option<RiskLevel>)
        ensures
            r matches Some(l) ==> l.name() == s@,
            r is None ==> forall|l: RiskLevel| l.name() != s@,
    {
        if same_text(s, "low") {
            Some(RiskLevel::Low)
        } else if same_text(s, "medium") {
            Some(RiskLevel::Medium)
        } else if same_text(s, "high") {
            Some(RiskLevel::High)
        } else if same_text(s, "critical") {
            Some(RiskLevel::Critical)
        } else {
            None
        }
    }

    /// `true` when `self` is strictly less severe than `other`.
    pub fn is_below(&self, other: &RiskLevel) -> (r: bool)
        ensures
            r == (self.rank() < other.rank()),
    {
        self.severity() < other.severity()
    }

    pub fn severity(&self) -> (r: u8)
        ensures
            r as nat == self.rank(),
    {
        match self {
            RiskLevel::Low => 0,
            RiskLevel::Medium => 1,
            RiskLevel::High => 2,
            RiskLevel::Critical => 3,
        }
    }
}

} // verus!
