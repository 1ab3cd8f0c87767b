//! The patrol that probes the upstream in both verdict states.
use vstd::prelude::*;

use crate::daemon::staging::LOAD_TIMEOUT;
use crate::ipc::HealthState;
use crate::net::SocketAddr;
use crate::proxy::events::{no_upstream, no_upstream_addr};
use crate::upstream::hop::{failed_dial, is_reply, Carried, SocksFailure};

verus! {

/// Milliseconds the patrol waits between probes, in either verdict state.
pub const PROBE_INTERVAL: u64 = 5_000;

/// Milliseconds one probe may take before it counts as a failure.
pub const PROBE_TIMEOUT: u64 = 2_000;

/// Milliseconds the patrol waits before the probe that has to confirm a contradicting one.
pub const PROBE_CONFIRM_DELAY: u64 = 1_000;

/// Milliseconds the patrol waits before looking again for an address worth probing.
///
/// The front ends are bound before any init script runs, so there is no upstream until the first
/// load publishes one. A short tick means the published address is probed as soon as it appears.
pub const NO_UPSTREAM_TICK: u64 = 250;

/// Milliseconds the patrol looks at [`NO_UPSTREAM_TICK`] before falling back to the interval.
///
/// Only cold start is worth the fast tick, and cold start lasts as long as the first load may. The
/// two clocks do not start together, so an interval of slack covers the startup order. It is still
/// a window, because a daemon configured with no upstream at all must not wake four times a second
/// for the rest of its life.
pub const NO_UPSTREAM_EAGER: u64 = LOAD_TIMEOUT + PROBE_INTERVAL;

/// One contradicting observation waiting for a second one to agree with it.
///
/// The `target` is what the sequence is trying to reach; anchoring on it rather than on whatever
/// the verdict is right now retires a sequence whose verdict moved by any other path. The `addr` is
/// the upstream the observation was made against, so a contradiction of the old upstream is not
/// closed by the first probe of the one a reload put in its place.
#[derive(Debug, Clone, Copy, PartialEq, Eq, Structural)]
pub struct Pending {
    /// Verdict the sequence is aiming at.
    pub target: HealthState,
    /// Upstream that was probed.
    pub addr: SocketAddr,
}

/// What a patrol remembers between two looks.
#[derive(Debug, Clone, Copy, PartialEq, Eq, Structural)]
pub struct Patrol {
    /// Observation waiting to be confirmed.
    pub pending: Option<Pending>,
    /// Milliseconds it has been looking for an upstream in vain.
    pub looking: u64,
}

/// What the patrol does once it has looked at the published upstream.
#[derive(Debug, Clone, Copy, PartialEq, Eq, Structural)]
pub enum Look {
    /// Waits so many milliseconds and looks again.
    Wait(u64),
    /// Probes the upstream.
    Probe(SocketAddr),
}

/// What an observation does to the verdict and to the sequence.
#[derive(Debug, Clone, Copy, PartialEq, Eq, Structural)]
pub struct Advanced {
    /// Sequence still open.
    pub pending: Option<Pending>,
    /// Verdict the sequence closed with.
    pub moved: Option<HealthState>,
}

/// Folds one observation into a sequence: it closes only where the observation contradicts the
/// verdict and agrees with the pending one about both target and address.
pub open spec fn advanced(
    pending: Option<Pending>,
    seen: HealthState,
    addr: SocketAddr,
    settled: HealthState,
) -> Advanced {
    if settled == seen {
        Advanced { pending: None, moved: None }
    } else if pending == Some(Pending { target: seen, addr }) {
        Advanced { pending: None, moved: Some(seen) }
    } else {
        Advanced { pending: Some(Pending { target: seen, addr }), moved: None }
    }
}

/// Folds one observation into the pending sequence, moving the verdict when the sequence closes.
///
/// An observation agreeing with the live verdict discards whatever was pending, since the verdict
/// it contradicted is the one in force again.
pub fn advance(
    pending: Option<Pending>,
    seen: HealthState,
    addr: SocketAddr,
    settled: HealthState,
) -> (r: Advanced)
    ensures
        r == advanced(pending, seen, addr, settled),
{
    match (settled, seen) {
        (HealthState::Up, HealthState::Up) | (HealthState::Down, HealthState::Down) => {
            return Advanced { pending: None, moved: None };
        },
        (HealthState::Up, HealthState::Down) | (HealthState::Down, HealthState::Up) => {},
    }
    let confirms = match pending {
        None => false,
        Some(Pending { target, addr: probed }) => target == seen && probed == addr,
    };
    if confirms {
        return Advanced { pending: None, moved: Some(seen) };
    }
    Advanced { pending: Some(Pending { target: seen, addr }), moved: None }
}

/// How a probe's handshake ended.
#[derive(Debug, Clone, Copy, PartialEq, Eq, Structural)]
pub enum Probed {
    /// It did not end within [`PROBE_TIMEOUT`].
    TimedOut,
    /// It produced a connection.
    Reached,
    /// It failed.
    Failed(SocksFailure),
}

/// Reads the answer to a probe as a verdict.
///
/// The upstream is asked to carry a connection to its own address. A reply about that destination
/// counts as serving: an upstream that refuses its own address would otherwise never come up.
pub fn probe(probed: Probed) -> (r: HealthState)
    ensures
        r == HealthState::Up <==> match probed {
            Probed::TimedOut => false,
            Probed::Reached => true,
            Probed::Failed(failure) => is_reply(failure),
        },
{
    match probed {
        Probed::TimedOut => HealthState::Down,
        Probed::Reached => HealthState::Up,
        Probed::Failed(failure) => match failed_dial(failure) {
            Carried::Upstream => HealthState::Down,
            Carried::Connected => HealthState::Up,
            Carried::Destination => HealthState::Up,
        },
    }
}

impl Patrol {
    /// Returns a patrol that has seen nothing yet.
    pub fn new() -> (r: Patrol)
        ensures
            r == (Patrol { pending: None, looking: 0 }),
    {
        Patrol { pending: None, looking: 0 }
    }

    /// The wait for an upstream: short while a first load may still publish one.
    pub open spec fn tick(self, interval: u64) -> u64 {
        if self.looking < NO_UPSTREAM_EAGER && NO_UPSTREAM_TICK < interval {
            NO_UPSTREAM_TICK
        } else {
            interval
        }
    }

    /// Decides what to do about the published upstream, probing it at once where there is one.
    pub fn look(&mut self, addr: SocketAddr, interval: u64) -> (r: Look)
        ensures
            final(self).pending == old(self).pending,
            addr == no_upstream_addr() ==> {
                &&& r == Look::Wait(old(self).tick(interval))
                &&& final(self).looking == if old(self).looking + old(self).tick(interval)
                    > u64::MAX {
                    u64::MAX as int
                } else {
                    old(self).looking + old(self).tick(interval)
                }
            },
            addr != no_upstream_addr() ==> r == Look::Probe(addr) && final(self).looking == 0,
    {
        if addr == no_upstream() {
            let tick: u64 = if self.looking < NO_UPSTREAM_EAGER && NO_UPSTREAM_TICK < interval {
                NO_UPSTREAM_TICK
            } else {
                interval
            };
            self.looking = self.looking.saturating_add(tick);
            return Look::Wait(tick);
        }
        self.looking = 0;
        Look::Probe(addr)
    }

    /// Folds a probe's verdict in and returns the verdict to record, if any, and how long to wait:
    /// the confirm delay while a sequence is open, the interval otherwise.
    pub fn probed(
        &mut self,
        seen: HealthState,
        addr: SocketAddr,
        settled: HealthState,
        interval: u64,
        confirm_delay: u64,
    ) -> (r: (Option<HealthState>, u64))
        ensures
            final(self).looking == old(self).looking,
            final(self).pending == advanced(old(self).pending, seen, addr, settled).pending,
            r.0 == advanced(old(self).pending, seen, addr, settled).moved,
            r.1 == if final(self).pending is Some {
                confirm_delay
            } else {
                interval
            },
    {
        let Advanced { pending, moved } = advance(self.pending, seen, addr, settled);
        self.pending = pending;
        let waited: u64 = match pending {
            Some(_) => confirm_delay,
            None => interval,
        };
        (moved, waited)
    }
}

/// A single observation never moves the verdict, whether it opens a sequence, concerns another
/// upstream than the pending one, or aims elsewhere.
pub proof fn law_one_probe_never_moves_the_verdict(
    pending: Option<Pending>,
    seen: HealthState,
    addr: SocketAddr,
    settled: HealthState,
)
    requires
        pending matches Some(p) ==> p.target != seen || p.addr != addr,
    ensures
        advanced(pending, seen, addr, settled).moved is None,
{
}

/// Two contradicting probes of one upstream in a row move the verdict, once, and leave nothing
/// pending.
pub proof fn law_two_agreeing_probes_move_the_verdict(
    pending: Option<Pending>,
    seen: HealthState,
    addr: SocketAddr,
    settled: HealthState,
)
    requires
        settled != seen,
        advanced(pending, seen, addr, settled).moved is None,
    ensures
        advanced(advanced(pending, seen, addr, settled).pending, seen, addr, settled) == (Advanced {
            pending: None,
            moved: Some(seen),
        }),
{
}

/// A verdict that moved by another path while a sequence was open is not moved back by the probe
/// that was to confirm it.
pub proof fn law_a_stale_sequence_does_not_close(
    opened: HealthState,
    seen: HealthState,
    addr: SocketAddr,
)
    requires
        opened != seen,
    ensures
        ({
            let pending = advanced(None, opened, addr, seen).pending;
            advanced(pending, seen, addr, opened).moved is None
        }),
{
}

/// The fast tick outlasts the whole of a first load.
pub proof fn law_the_eager_window_outlasts_a_load()
    ensures
        NO_UPSTREAM_EAGER > LOAD_TIMEOUT,
{
}

/// A probe that confirms the verdict ends whatever sequence was open; one that contradicts it opens a
/// sequence for its verdict and address, or closes the one it agrees with.
pub proof fn law_what_a_probe_does(
    pending: Option<Pending>,
    seen: HealthState,
    addr: SocketAddr,
    settled: HealthState,
)
    ensures
        settled == seen ==> advanced(pending, seen, addr, settled).pending is None && advanced(
            pending,
            seen,
            addr,
            settled,
        ).moved is None,
        settled != seen && pending is None ==> advanced(pending, seen, addr, settled) == (Advanced {
            pending: Some(Pending { target: seen, addr }),
            moved: None,
        }),
        settled != seen ==> (pending matches Some(p) ==> if p.target == seen && p.addr == addr {
            advanced(pending, seen, addr, settled) == (Advanced { pending: None, moved: Some(seen) })
        } else {
            advanced(pending, seen, addr, settled) == (Advanced {
                pending: Some(Pending { target: seen, addr }),
                moved: None,
            })
        }),
{
}

/// The upstream is probed every five seconds, a probe may take two, and one that contradicts the
/// verdict is confirmed after one. Without an upstream the patrol looks four times a second until a
/// load could have named one, and as seldom as it probes from then on.
pub proof fn law_how_often_the_patrol_looks(patrol: Patrol)
    ensures
        PROBE_INTERVAL == 5 * 1000,
        PROBE_TIMEOUT == 2 * 1000,
        PROBE_CONFIRM_DELAY == 1000,
        patrol.looking < 35 * 1000 ==> patrol.tick(PROBE_INTERVAL) == 250,
        patrol.looking >= 35 * 1000 ==> patrol.tick(PROBE_INTERVAL) == 5 * 1000,
{
}

} // verus!
