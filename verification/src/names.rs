//! The words that classes, decisions and verdicts are shown and logged as.
use vstd::prelude::*;

use crate::ipc::{DecisionKind, EffectiveHop, HealthState, LoadOutcome, RuleClass};
use crate::upstream::VerdictCause;

verus! {

/// The word for a decision.
pub open spec fn decision_text(decision: DecisionKind) -> Seq<char> {
    match decision {
        DecisionKind::Direct => "direct"@,
        DecisionKind::Never => "never"@,
        DecisionKind::Upstream => "upstream"@,
    }
}

/// Returns the word for a decision.
pub fn decision_name(decision: DecisionKind) -> (r: &'static str)
    ensures
        r@ == decision_text(decision),
{
    match decision {
        DecisionKind::Direct => "direct",
        DecisionKind::Never => "never",
        DecisionKind::Upstream => "upstream",
    }
}

/// The word for a class.
pub open spec fn class_text(class: RuleClass) -> Seq<char> {
    match class {
        RuleClass::Require => "require"@,
        RuleClass::Prefer => "prefer"@,
        RuleClass::Never => "never"@,
    }
}

/// Returns the word for a class.
pub fn class_name(class: RuleClass) -> (r: &'static str)
    ensures
        r@ == class_text(class),
{
    match class {
        RuleClass::Require => "require",
        RuleClass::Prefer => "prefer",
        RuleClass::Never => "never",
    }
}

/// The word for a verdict.
pub open spec fn health_text(health: HealthState) -> Seq<char> {
    match health {
        HealthState::Up => "up"@,
        HealthState::Down => "down"@,
    }
}

/// Returns the word for a verdict.
pub fn health_name(health: HealthState) -> (r: &'static str)
    ensures
        r@ == health_text(health),
{
    match health {
        HealthState::Up => "up",
        HealthState::Down => "down",
    }
}

/// The word for what moved a verdict.
pub open spec fn cause_text(cause: VerdictCause) -> Seq<char> {
    match cause {
        VerdictCause::Probe => "probe"@,
        VerdictCause::Dial => "dial"@,
    }
}

/// Returns the word for what moved a verdict.
pub fn cause_name(cause: VerdictCause) -> (r: &'static str)
    ensures
        r@ == cause_text(cause),
{
    match cause {
        VerdictCause::Probe => "probe",
        VerdictCause::Dial => "dial",
    }
}

/// The word for the hop a connection really took.
pub open spec fn hop_text(hop: EffectiveHop) -> Seq<char> {
    match hop {
        EffectiveHop::Direct => "direct"@,
        EffectiveHop::Upstream => "upstream"@,
        EffectiveHop::FallbackDirect => "fallback_direct"@,
    }
}

/// Returns the word for the hop a connection really took.
pub fn hop_name(hop: EffectiveHop) -> (r: &'static str)
    ensures
        r@ == hop_text(hop),
{
    match hop {
        EffectiveHop::Direct => "direct",
        EffectiveHop::Upstream => "upstream",
        EffectiveHop::FallbackDirect => "fallback_direct",
    }
}

/// The words for how a run ended.
pub open spec fn outcome_text(outcome: LoadOutcome) -> Seq<char> {
    match outcome {
        LoadOutcome::Succeeded => "ok"@,
        LoadOutcome::Failed => "failed"@,
        LoadOutcome::TimedOut => "timed out"@,
    }
}

/// Returns the words for how a run ended.
pub fn outcome_name(outcome: LoadOutcome) -> (r: &'static str)
    ensures
        r@ == outcome_text(outcome),
{
    match outcome {
        LoadOutcome::Succeeded => "ok",
        LoadOutcome::Failed => "failed",
        LoadOutcome::TimedOut => "timed out",
    }
}

/// The words decisions, classes, verdicts, causes, hops and outcomes are told with.
pub proof fn law_the_words_that_are_told()
    ensures
        decision_text(DecisionKind::Direct) == "direct"@,
        decision_text(DecisionKind::Never) == "never"@,
        decision_text(DecisionKind::Upstream) == "upstream"@,
        class_text(RuleClass::Require) == "require"@,
        class_text(RuleClass::Prefer) == "prefer"@,
        class_text(RuleClass::Never) == "never"@,
        health_text(HealthState::Up) == "up"@,
        health_text(HealthState::Down) == "down"@,
        cause_text(VerdictCause::Probe) == "probe"@,
        cause_text(VerdictCause::Dial) == "dial"@,
        hop_text(EffectiveHop::Direct) == "direct"@,
        hop_text(EffectiveHop::Upstream) == "upstream"@,
        hop_text(EffectiveHop::FallbackDirect) == "fallback_direct"@,
        outcome_text(LoadOutcome::Succeeded) == "ok"@,
        outcome_text(LoadOutcome::Failed) == "failed"@,
        outcome_text(LoadOutcome::TimedOut) == "timed out"@,
{
}

} // verus!
