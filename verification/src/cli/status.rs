//! The status document.
use vstd::prelude::*;

use crate::daemon::listen::BindState;
use crate::ipc::view::copied;
use crate::ipc::{
    ForwardView, LastLoadView, RuleCountsView, StatusView, SystemProxyView, Timestamp, UpstreamAddr,
};
use crate::proxy::Listen;
use crate::upstream::Health;

verus! {

/// Everything `status` reports that the daemon knows without asking macOS.
#[derive(Debug, Clone, PartialEq, Eq)]
pub struct DaemonStatus {
    /// Seconds since the daemon started.
    pub uptime_secs: u64,
    /// Addresses the front ends are configured to bind.
    pub listen: Listen,
    /// Whether the front ends hold those addresses.
    pub bound: BindState,
    /// Forward front ends, in the order they were opened.
    pub forwards: Vec<ForwardView>,
    /// Upstream as the init script wrote it, empty until one names it.
    pub upstream: UpstreamAddr,
    /// Verdict on the upstream and the instant it settled.
    pub health: Health,
    /// Init script the daemon remembers, absent until one is run.
    pub init_path: Option<String>,
    /// Result of the most recent run, absent until one finishes.
    pub last_load: Option<LastLoadView>,
    /// Number of live rules per class.
    pub rules: RuleCountsView,
}

/// Whether a document reports a daemon's state.
pub open spec fn reports_status(
    r: StatusView,
    state: DaemonStatus,
    proxy: SystemProxyView,
) -> bool {
    &&& r.uptime_secs == state.uptime_secs
    &&& r.http_listen == state.listen.http
    &&& r.http_bound == (state.bound == BindState::Bound)
    &&& r.socks_listen == state.listen.socks
    &&& r.socks_bound == (state.bound == BindState::Bound)
    &&& r.forwards@ == state.forwards@
    &&& r.upstream == state.upstream
    &&& r.health == state.health.state
    &&& r.health_changed_at == Timestamp(state.health.changed_at)
    &&& r.init_path == state.init_path
    &&& r.last_load == state.last_load
    &&& r.rules == state.rules
    &&& r.system_proxy == proxy
}

/// Copies a list of forward front ends.
pub(crate) fn copied_forwards(forwards: &Vec<ForwardView>) -> (r: Vec<ForwardView>)
    ensures
        r@ == forwards@,
{
    let mut r: Vec<ForwardView> = Vec::new();
    let mut i: usize = 0;
    while i < forwards.len()
        invariant
            i <= forwards.len(),
            r@ == forwards@.take(i as int),
        decreases forwards.len() - i,
    {
        r.push(forwards[i].clone());
        assert(r@ =~= forwards@.take(i + 1));
        i += 1;
    }
    assert(forwards@.take(i as int) =~= forwards@);
    r
}

/// Renders the status the IPC contract defines.
pub fn status_view(state: &DaemonStatus, proxy: SystemProxyView) -> (r: StatusView)
    ensures
        reports_status(r, *state, proxy),
{
    let last_load = match &state.last_load {
        Some(load) => Some(load.clone()),
        None => None,
    };
    StatusView {
        uptime_secs: state.uptime_secs,
        http_listen: state.listen.http,
        http_bound: state.bound.is_bound(),
        socks_listen: state.listen.socks,
        socks_bound: state.bound.is_bound(),
        forwards: copied_forwards(&state.forwards),
        upstream: state.upstream.clone(),
        health: state.health.state,
        health_changed_at: Timestamp(state.health.changed_at),
        init_path: copied(&state.init_path),
        last_load,
        rules: state.rules,
        system_proxy: proxy,
    }
}

} // verus!
