//! Where a destination is routed.
use vstd::prelude::*;

use crate::ipc::{DecisionKind, RuleClass};

verus! {

/// Position of a rule in declaration order, invalidated by the next load.
#[derive(Debug, Clone, Copy, PartialEq, Eq, PartialOrd, Ord, Structural)]
pub struct RuleId(pub usize);

/// Where a destination is routed.
///
/// [`Decision::Direct`] and [`Decision::Never`] both dial the destination, and differ only in how
/// they are reported.
#[derive(Debug, Clone, Copy, PartialEq, Eq, Structural)]
pub enum Decision {
    /// Dialled directly because no rule matched.
    Direct,
    /// Dialled directly because a `never` rule matched.
    Never {
        /// Rule that matched.
        rule: RuleId,
    },
    /// Handed to the upstream proxy.
    Upstream {
        /// Class of the rule that matched.
        class: RuleClass,
        /// Rule that matched.
        rule: RuleId,
    },
}

impl Decision {
    /// Returns how the decision is reported on the wire.
    pub fn kind(&self) -> (r: DecisionKind)
        ensures
            r == match *self {
                Decision::Direct => DecisionKind::Direct,
                Decision::Never { .. } => DecisionKind::Never,
                Decision::Upstream { .. } => DecisionKind::Upstream,
            },
    {
        match self {
            Self::Direct => DecisionKind::Direct,
            Self::Never { rule: _ } => DecisionKind::Never,
            Self::Upstream { class: _, rule: _ } => DecisionKind::Upstream,
        }
    }

    /// Returns the rule that decided, absent when none matched.
    pub fn rule(&self) -> (r: Option<RuleId>)
        ensures
            r == match *self {
                Decision::Direct => None,
                Decision::Never { rule } => Some(rule),
                Decision::Upstream { class: _, rule } => Some(rule),
            },
    {
        match self {
            Self::Direct => None,
            Self::Never { rule } => Some(*rule),
            Self::Upstream { class: _, rule } => Some(*rule),
        }
    }

    /// Returns the class of the rule that decided, absent when none matched.
    pub fn class(&self) -> (r: Option<RuleClass>)
        ensures
            r == match *self {
                Decision::Direct => None,
                Decision::Never { .. } => Some(RuleClass::Never),
                Decision::Upstream { class, rule: _ } => Some(class),
            },
    {
        match self {
            Self::Direct => None,
            Self::Never { rule: _ } => Some(RuleClass::Never),
            Self::Upstream { class, rule: _ } => Some(*class),
        }
    }
}

} // verus!
