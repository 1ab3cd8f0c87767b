//! The verdict on the upstream and when it turned over.
use vstd::prelude::*;

use crate::ipc::HealthState;
use crate::time::SystemTime;

verus! {

/// What produced a verdict turnover.
///
/// The log carries it so a reader can tell an upstream a user's own connection found unusable from
/// one the daemon's patrol judged on its own.
#[derive(Debug, Clone, Copy, PartialEq, Eq, Structural)]
pub enum VerdictCause {
    /// A patrol probe the daemon made for itself.
    Probe,
    /// A real dial a connection paid for.
    Dial,
}

/// Verdict on the upstream and the instant it settled.
#[derive(Debug, Clone, Copy, PartialEq, Eq, Structural)]
pub struct Health {
    /// Whether the upstream is usable.
    pub state: HealthState,
    /// When the verdict last turned over.
    pub changed_at: SystemTime,
}

/// A verdict that moved, as it is logged.
#[derive(Debug, Clone, Copy, PartialEq, Eq, Structural)]
pub struct Turnover {
    /// Verdict it moved from.
    pub from: HealthState,
    /// Verdict it moved to.
    pub to: HealthState,
    /// What moved it.
    pub cause: VerdictCause,
}

impl Health {
    /// The verdict after an observation: the instant moves only where the verdict does.
    pub open spec fn after(self, seen: HealthState, now: SystemTime) -> Health {
        if self.state == seen {
            self
        } else {
            Health { state: seen, changed_at: now }
        }
    }

    /// What an observation leaves in the log: nothing where it confirms the verdict.
    pub open spec fn turned(self, seen: HealthState, cause: VerdictCause) -> Option<Turnover> {
        if self.state == seen {
            None
        } else {
            Some(Turnover { from: self.state, to: seen, cause })
        }
    }

    /// Returns the verdict a daemon starts from.
    ///
    /// It is [`HealthState::Down`], so no `prefer` destination is sent through an upstream that has
    /// not answered anything yet.
    pub fn starting(now: SystemTime) -> (r: Health)
        ensures
            r.state == HealthState::Down,
            r.changed_at == now,
    {
        Health { state: HealthState::Down, changed_at: now }
    }

    /// Folds one observation in, moving `changed_at` only on a turnover.
    pub fn settle(self, seen: HealthState, now: SystemTime) -> (r: Health)
        ensures
            r == self.after(seen, now),
    {
        let changed_at = match (self.state, seen) {
            (HealthState::Up, HealthState::Up) | (HealthState::Down, HealthState::Down) => {
                self.changed_at
            },
            (HealthState::Up, HealthState::Down) | (HealthState::Down, HealthState::Up) => now,
        };
        Health { state: seen, changed_at }
    }

    /// Returns the turnover an observation makes of the verdict it replaces, absent where it
    /// confirms it.
    pub fn turnover(self, seen: HealthState, cause: VerdictCause) -> (r: Option<Turnover>)
        ensures
            r == self.turned(seen, cause),
    {
        match (self.state, seen) {
            (HealthState::Up, HealthState::Up) | (HealthState::Down, HealthState::Down) => None,
            (HealthState::Up, HealthState::Down) | (HealthState::Down, HealthState::Up) => Some(
                Turnover { from: self.state, to: seen, cause },
            ),
        }
    }
}

/// Confirming a verdict again and again keeps the instant it settled and logs nothing.
pub proof fn law_confirming_keeps_the_instant(
    health: Health,
    seen: HealthState,
    cause: VerdictCause,
    now: SystemTime,
    later: SystemTime,
)
    ensures
        health.after(seen, now).after(seen, later) == health.after(seen, now),
        health.after(seen, now).turned(seen, cause) is None,
{
}

/// An observation that contradicts the verdict replaces it at that instant and is logged with both
/// verdicts and what moved it; one that confirms it changes nothing.
pub proof fn law_a_contradiction_moves_the_verdict(
    health: Health,
    seen: HealthState,
    cause: VerdictCause,
    now: SystemTime,
)
    ensures
        health.after(seen, now).state == seen,
        health.state != seen ==> health.after(seen, now).changed_at == now && health.turned(seen, cause)
            == Some(Turnover { from: health.state, to: seen, cause }),
        health.state == seen ==> health.after(seen, now) == health && health.turned(seen, cause) is None,
{
}

} // verus!
