//! The three tiers of models.
use vstd::prelude::*;

verus! {

/// How strong a model is.
#[derive(Debug, Clone, Copy, PartialEq, Eq, Structural)]
pub enum Tier {
    Small,
    Medium,
    Frontier,
}

impl Tier {
    /// The name of the tier.
    pub open spec fn name(self) -> Seq<char> {
        match self {
            Tier::Small => "small"@,
            Tier::Medium => "medium"@,
            Tier::Frontier => "frontier"@,
        }
    }

    /// The name of the tier.
    pub fn as_str(self) -> (r: &'static str)
        ensures
            r@ == self.name(),
    {
        match self {
            Tier::Small => "small",
            Tier::Medium => "medium",
            Tier::Frontier => "frontier",
        }
    }
}

} // verus!
