//! What the daemon reports of itself and of the connections it routes.
use vstd::prelude::*;

use crate::ipc::command::{Host, Port, RuleClass, RuleKind, RuleValue, UpstreamAddr};
use crate::net::SocketAddr;
use crate::time;
use crate::time::{rfc3339, rfc3339_read, SystemTime};

verus! {

/// Instant rendered on the wire as an RFC3339 UTC string with second precision.
#[derive(Debug, Clone, Copy, PartialEq, Eq, Structural)]
pub struct Timestamp(pub SystemTime);

impl Timestamp {
    /// What a text reads as.
    pub open spec fn read(s: Seq<char>) -> Option<Timestamp> {
        match rfc3339_read(s) {
            Some((secs, nanos)) => Some(Timestamp(SystemTime { secs: secs as i64, nanos })),
            None => None,
        }
    }

    /// Returns the instant as text, to the second. What is written reads back as the same second.
    pub fn text(&self) -> (r: String)
        requires
            self.0.written(),
        ensures
            r@ == rfc3339(self.0.secs as u64),
            Timestamp::read(r@) == Some(Timestamp(SystemTime { secs: self.0.secs, nanos: 0 })),
    {
        time::write_rfc3339(self.0.secs as u64)
    }

    /// Reads an instant from its text, absent where the text is none.
    pub fn parse(s: &str) -> (r: Option<Timestamp>)
        ensures
            r == Timestamp::read(s@),
            r matches Some(at) ==> at.0.valid() && at.0.written(),
    {
        match time::read_rfc3339(s) {
            Some((secs, nanos)) => Some(Timestamp(SystemTime { secs: secs as i64, nanos })),
            None => None,
        }
    }
}

/// Which side of the router serves a destination.
#[derive(Debug, Clone, Copy, PartialEq, Eq, Structural)]
pub enum DecisionKind {
    /// Dialled directly because no rule matched.
    Direct,
    /// Dialled directly because a `never` rule matched.
    Never,
    /// Sent through the upstream proxy.
    Upstream,
}

/// Where a connection was really handed to.
#[derive(Debug, Clone, Copy, PartialEq, Eq, Structural)]
pub enum EffectiveHop {
    /// To the destination, as decided.
    Direct,
    /// To the upstream proxy, as decided.
    Upstream,
    /// To the destination, because the upstream it was meant for is down.
    FallbackDirect,
}

/// Verdict on whether the upstream is usable.
#[derive(Debug, Clone, Copy, PartialEq, Eq, Structural)]
pub enum HealthState {
    /// The upstream answered the most recent dial or probe.
    Up,
    /// The upstream failed the most recent dial or probe.
    Down,
}

/// How the most recent init-script run ended.
#[derive(Debug, Clone, Copy, PartialEq, Eq, Structural)]
pub enum LoadOutcome {
    /// The script exited zero and its ruleset was swapped in.
    Succeeded,
    /// The script exited non-zero or one of its commands failed.
    Failed,
    /// The script outlived the load timeout and was killed.
    TimedOut,
}

/// One rule of the live ruleset.
#[derive(Debug, Clone, PartialEq, Eq)]
pub struct RuleView {
    /// Position in declaration order.
    pub index: u32,
    /// Routing class of the rule.
    pub class: RuleClass,
    /// What the rule matches on.
    pub kind: RuleKind,
    /// Value the kind is matched against.
    pub value: RuleValue,
}

/// Where a destination would be routed.
#[derive(Debug, Clone, PartialEq, Eq)]
pub struct DecisionView {
    /// Side of the router that would serve the destination.
    pub decision: DecisionKind,
    /// Index of the matching rule, absent when no rule matched.
    pub rule_index: Option<u32>,
    /// Class of the matching rule, absent when no rule matched.
    pub class: Option<RuleClass>,
    /// Address the connection would be handed to.
    pub next_hop: String,
}

/// Result of the most recent init-script run.
#[derive(Debug, PartialEq, Eq)]
pub struct LastLoadView {
    /// When the run finished.
    pub at: Timestamp,
    /// How the run ended.
    pub outcome: LoadOutcome,
    /// Command that failed, absent when the run succeeded or timed out.
    pub command: Option<String>,
}

/// Number of live rules per class.
#[derive(Debug, Clone, Copy, PartialEq, Eq, Structural)]
pub struct RuleCountsView {
    /// Rules that must traverse the upstream.
    pub require: u32,
    /// Rules that try the upstream and fall back to direct.
    pub prefer: u32,
    /// Rules that always dial directly.
    pub never: u32,
}

/// Proxy settings macOS reports for the configured network service.
#[derive(Debug, PartialEq, Eq)]
pub struct SystemProxyView {
    /// Configured HTTP proxy, absent when disabled.
    pub http: Option<String>,
    /// Configured HTTPS proxy, absent when disabled.
    pub https: Option<String>,
    /// Configured SOCKS proxy, absent when disabled.
    pub socks: Option<String>,
}

/// One forward front end and the destination behind it.
#[derive(Debug, PartialEq, Eq)]
pub struct ForwardView {
    /// Address the front end holds.
    pub listen: SocketAddr,
    /// Destination host.
    pub host: Host,
    /// Destination port.
    pub port: Port,
}

/// Snapshot of everything the daemon knows about itself.
#[derive(Debug, Clone, PartialEq, Eq)]
pub struct StatusView {
    /// Seconds since the daemon started.
    pub uptime_secs: u64,
    /// Address the HTTP front end is configured to bind.
    pub http_listen: SocketAddr,
    /// Whether the HTTP front end holds that address.
    pub http_bound: bool,
    /// Address the SOCKS5 front end is configured to bind.
    pub socks_listen: SocketAddr,
    /// Whether the SOCKS5 front end holds that address.
    pub socks_bound: bool,
    /// Forward front ends, in the order they were opened.
    pub forwards: Vec<ForwardView>,
    /// Address of the upstream proxy.
    pub upstream: UpstreamAddr,
    /// Current upstream verdict.
    pub health: HealthState,
    /// When the verdict last changed.
    pub health_changed_at: Timestamp,
    /// Init script the daemon remembers, absent until one is run.
    pub init_path: Option<String>,
    /// Result of the most recent run, absent until one finishes.
    pub last_load: Option<LastLoadView>,
    /// Number of live rules per class.
    pub rules: RuleCountsView,
    /// Proxy settings macOS reports for the configured network service.
    pub system_proxy: SystemProxyView,
}

/// One diagnostic check.
#[derive(Debug, Clone, PartialEq, Eq)]
pub struct CheckView {
    /// Stable identifier of the check.
    pub name: String,
    /// Whether the check passed.
    pub ok: bool,
    /// What the check observed, and the remedy when it failed.
    pub detail: String,
}

/// One routing decision, as published to subscribers and to the log.
#[derive(Debug, PartialEq, Eq)]
pub struct EventView {
    /// Destination host.
    pub host: Host,
    /// Destination port.
    pub port: Port,
    /// Side of the router that served the connection.
    pub decision: DecisionKind,
    /// Index of the matching rule, absent when no rule matched.
    pub rule_index: Option<u32>,
    /// Class of the matching rule, absent when no rule matched.
    pub class: Option<RuleClass>,
    /// Upstream verdict at the time of the decision.
    pub upstream: HealthState,
    /// How long the dial took, absent when nothing was dialled.
    pub connect_ms: Option<u64>,
    /// Where the connection was really handed to, absent when nothing was dialled.
    pub hop: Option<EffectiveHop>,
    /// How long the connection lasted.
    pub duration_ms: u64,
    /// Why the connection ended badly, absent when it did not.
    pub error: Option<String>,
}

/// Copies an optional text.
pub(crate) fn copied(s: &Option<String>) -> (r: Option<String>)
    ensures
        r == *s,
{
    match s {
        Some(s) => Some(s.clone()),
        None => None,
    }
}

impl Clone for LastLoadView {
    fn clone(&self) -> (r: Self)
        ensures
            r == *self,
    {
        LastLoadView { at: self.at, outcome: self.outcome, command: copied(&self.command) }
    }
}

impl Clone for SystemProxyView {
    fn clone(&self) -> (r: Self)
        ensures
            r == *self,
    {
        SystemProxyView {
            http: copied(&self.http),
            https: copied(&self.https),
            socks: copied(&self.socks),
        }
    }
}

impl Clone for ForwardView {
    fn clone(&self) -> (r: Self)
        ensures
            r == *self,
    {
        ForwardView { listen: self.listen, host: self.host.clone(), port: self.port }
    }
}

impl Clone for EventView {
    fn clone(&self) -> (r: Self)
        ensures
            r == *self,
    {
        EventView {
            host: self.host.clone(),
            port: self.port,
            decision: self.decision,
            rule_index: self.rule_index,
            class: self.class,
            upstream: self.upstream,
            connect_ms: self.connect_ms,
            hop: self.hop,
            duration_ms: self.duration_ms,
            error: copied(&self.error),
        }
    }
}

/// A timestamp is the instant its text was read as, to the nanosecond.
pub proof fn law_a_timestamp_is_what_was_read(s: Seq<char>)
    ensures
        rfc3339_read(s) is None ==> Timestamp::read(s) is None,
        rfc3339_read(s) matches Some((secs, nanos)) ==> (Timestamp::read(s) matches Some(at)
            && at.0.nanos == nanos && (secs <= i64::MAX ==> at.0.secs == secs)),
{
}

} // verus!
