//! Which destinations the rules send where.
pub mod decision;
pub mod matcher;
pub mod ruleset;

pub use crate::ipc::{DecisionKind, Host, Port, RuleClass, RuleKind, RuleValue};
pub use decision::{Decision, RuleId};
pub use matcher::{InvalidRule, Keyword, Matcher, Network, NormalizedHost, Suffix};
pub use ruleset::{Rule, Ruleset};
