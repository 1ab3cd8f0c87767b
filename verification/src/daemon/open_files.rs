//! The open-file limit the daemon process runs under.
//!
//! launchd hands a job 256 descriptors. A router spends two of them per connection - one to the
//! client, one to the next hop - so an ordinary browsing session exhausts the table, and the
//! exhaustion reads as an unresolvable host.
use vstd::prelude::*;

verus! {

/// Descriptors the daemon asks for at startup.
pub const TARGET: u64 = 16_384;

/// The open-file limits of the current process.
#[derive(Debug, Clone, Copy, PartialEq, Eq, Structural)]
pub struct Limits {
    /// Descriptors the process may hold.
    pub soft: u64,
    /// Ceiling the soft limit may be raised to without privilege.
    pub hard: u64,
}

/// The most descriptors worth asking for under a ceiling.
pub open spec fn reachable(hard: u64) -> u64 {
    if TARGET <= hard {
        TARGET
    } else {
        hard
    }
}

/// Returns the soft limit to ask for, or `None` when the current one already covers [`TARGET`].
pub fn wanted(current: Limits) -> (r: Option<u64>)
    ensures
        r == if current.soft >= reachable(current.hard) {
            None
        } else {
            Some(reachable(current.hard))
        },
{
    let target: u64 = if TARGET <= current.hard {
        TARGET
    } else {
        current.hard
    };
    if current.soft >= target {
        return None;
    }
    Some(target)
}

/// Returns the limits a process asks for: the soft one raised towards [`TARGET`], the hard one as it
/// is. Those it ends up under are for the system to say.
///
/// A hard limit below the target caps the result, and a soft limit already covering it is left
/// alone, so asking again for what was granted asks for nothing more.
pub fn raise(current: Limits) -> (r: Limits)
    ensures
        r.hard == current.hard,
        r.soft == if current.soft >= reachable(current.hard) {
            current.soft
        } else {
            reachable(current.hard)
        },
        r.soft >= reachable(r.hard),
{
    match wanted(current) {
        None => current,
        Some(soft) => Limits { soft, hard: current.hard },
    }
}

/// A process asks for 16384 descriptors, or for as many as it may have where that is fewer.
pub proof fn law_how_many_descriptors_are_worth_asking_for(hard: u64)
    ensures
        reachable(hard) <= hard,
        reachable(hard) <= 16_384,
        reachable(hard) == hard || reachable(hard) == 16_384,
{
}

} // verus!
