//! What the relay selection asks of a compiled set of Geo rules.
//!
//! The language of the endpoint expressions is not part of this library. The
//! functions that need it take a compiler, from a configuration to a
//! [`RuleSet`], or a selector, from a rule set to a [`Selection`].
use vstd::prelude::*;

verus! {

/// The databases whose fields the expressions of a rule set mention.
#[derive(Clone, Copy, Debug, PartialEq, Eq, Structural)]
pub struct DbRequirements {
    pub country: bool,
    pub city: bool,
    pub asn: bool,
}

/// The relay that a rule selected.
#[derive(Clone, Debug)]
pub struct Selection {
    pub relay: String,
    pub rule_name: String,
}

/// A compiled rule set: the compiler's own form of it, how many rules there
/// are, and which databases they need.
pub struct RuleSet<R> {
    pub compiled: Option<R>,
    pub count: usize,
    pub needs: DbRequirements,
}

impl<R> RuleSet<R> {
    /// The rule set without rules.
    pub open spec fn is_empty_set(self) -> bool {
        &&& self.compiled is None
        &&& self.count == 0
        &&& self.needs == DbRequirements { country: false, city: false, asn: false }
    }

    /// The rule set without rules.
    pub fn empty() -> (rules: Self)
        ensures
            rules.is_empty_set(),
    {
        RuleSet {
            compiled: None,
            count: 0,
            needs: DbRequirements { country: false, city: false, asn: false },
        }
    }

    /// The number of rules.
    pub fn len(&self) -> (count: usize)
        ensures
            count == self.count,
    {
        self.count
    }

    /// The databases that the rules need.
    pub fn requirements(&self) -> (needs: DbRequirements)
        ensures
            needs == self.needs,
    {
        self.needs
    }
}

} // verus!
