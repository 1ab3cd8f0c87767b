//! Requests to the daemon and its replies.
use vstd::prelude::*;

use crate::ipc::view::{CheckView, DecisionView, EventView, RuleView, StatusView};
use crate::net::SocketAddr;
use crate::text;
use crate::text::{decimal, in_quotes, number, trimmed};

verus! {

/// Environment variable the daemon tags an init-script run with.
///
/// The script inherits it; the client sends it back as each command's `load`, making a run atomic.
pub const LOAD_ID_ENV: &'static str = "NHOP_LOAD_ID";

/// Identifier of a single init-script run, grouping the commands it stages.
#[derive(Debug, Clone, Copy, PartialEq, Eq, Structural)]
pub struct LoadId(pub u64);

/// Rejection of a load identifier that is not a number.
#[derive(Debug, Clone, PartialEq, Eq)]
pub struct InvalidLoadId(pub String);

impl LoadId {
    /// What a text reads as: a number with white space around it.
    pub open spec fn read(id: Seq<char>) -> Option<LoadId> {
        match number(trimmed(id), u64::MAX as nat) {
            Some(n) => Some(LoadId(n as u64)),
            None => None,
        }
    }

    /// Reads an identifier.
    ///
    /// # Errors
    ///
    /// Returns [`InvalidLoadId`] with the text as it was given where it is not a number.
    pub fn parse(id: &str) -> (r: Result<LoadId, InvalidLoadId>)
        ensures
            match LoadId::read(id@) {
                Some(load) => r == Ok::<LoadId, InvalidLoadId>(load),
                None => r matches Err(InvalidLoadId(given)) && given@ == id@,
            },
    {
        match text::read_number(text::trim(id), u64::MAX) {
            Some(n) => Ok(LoadId(n)),
            None => Err(InvalidLoadId(id.to_owned())),
        }
    }

    /// Returns the identifier as a bare number.
    pub fn text(&self) -> (r: String)
        ensures
            r@ == decimal(self.0 as nat),
            LoadId::read(r@) == Some(*self),
    {
        proof {
            law_load_id_reads_back(*self);
        }
        text::decimal_text(self.0)
    }
}

/// A load identifier reads back from the text it renders as.
pub proof fn law_load_id_reads_back(id: LoadId)
    ensures
        LoadId::read(decimal(id.0 as nat)) == Some(id),
{
    let s = decimal(id.0 as nat);
    text::law_decimal_reads_back(id.0 as nat);
    assert(text::is_digit(s[0]) && text::is_digit(s[s.len() - 1]));
    text::lemma_trim_end(s, s.len() as int);
    assert(s.take(s.len() as int) =~= s);
}

impl InvalidLoadId {
    /// Returns the explanation shown to the operator.
    pub fn message(&self) -> (r: String)
        ensures
            r@ == "invalid load id "@ + in_quotes(self.0@),
    {
        let mut r = "invalid load id ".to_owned();
        r.append(text::debug(self.0.as_str()).as_str());
        r
    }
}

/// Hostname or IP literal a connection is destined for.
#[derive(Debug, PartialEq, Eq)]
pub struct Host(pub String);

/// TCP port a connection is destined for.
#[derive(Debug, Clone, Copy, PartialEq, Eq, Structural)]
pub struct Port(pub u16);

/// Right-hand side of a rule, interpreted according to its [`RuleKind`].
#[derive(Debug, PartialEq, Eq)]
pub struct RuleValue(pub String);

/// Address of the SOCKS5 upstream, in `socks5://host:port` form.
#[derive(Debug, PartialEq, Eq)]
pub struct UpstreamAddr(pub String);

impl Clone for Host {
    fn clone(&self) -> (r: Self)
        ensures
            r == *self,
    {
        Host(self.0.clone())
    }
}

impl Clone for RuleValue {
    fn clone(&self) -> (r: Self)
        ensures
            r == *self,
    {
        RuleValue(self.0.clone())
    }
}

impl Clone for UpstreamAddr {
    fn clone(&self) -> (r: Self)
        ensures
            r == *self,
    {
        UpstreamAddr(self.0.clone())
    }
}

/// How a connection matching a rule is routed.
#[derive(Debug, Clone, Copy, PartialEq, Eq, Structural)]
pub enum RuleClass {
    /// Must traverse the upstream and fails fast when the upstream is down.
    Require,
    /// Tries the upstream and falls back to a direct connection when it is down.
    Prefer,
    /// Always dials the destination directly.
    Never,
}

/// What part of a destination a rule matches on.
#[derive(Debug, Clone, Copy, PartialEq, Eq, Structural)]
pub enum RuleKind {
    /// Exact-or-dot-boundary hostname suffix, case-insensitive.
    Suffix,
    /// Network range matching hosts that parse as an IP literal.
    Cidr,
    /// Exact port equality.
    Port,
    /// Case-insensitive substring of the host.
    Keyword,
}

/// One request sent to the daemon.
#[derive(Debug, Clone, PartialEq, Eq)]
pub enum Command {
    /// Appends a rule to the ruleset being built.
    AddRule {
        /// Routing class of the rule.
        class: RuleClass,
        /// What the rule matches on.
        kind: RuleKind,
        /// Value the kind is matched against.
        value: RuleValue,
        /// Init run this command belongs to, absent outside a load.
        load: Option<LoadId>,
    },
    /// Empties the ruleset being built.
    ClearRules {
        /// Init run this command belongs to, absent outside a load.
        load: Option<LoadId>,
    },
    /// Points the router at a SOCKS5 upstream.
    SetUpstream {
        /// Address of the upstream proxy.
        addr: UpstreamAddr,
        /// Init run this command belongs to, absent outside a load.
        load: Option<LoadId>,
    },
    /// Moves the HTTP and SOCKS5 front ends.
    SetListen {
        /// Address the HTTP front end binds to.
        http: SocketAddr,
        /// Address the SOCKS5 front end binds to.
        socks: SocketAddr,
        /// Init run this command belongs to, absent outside a load.
        load: Option<LoadId>,
    },
    /// Opens a local port whose every connection goes to one destination.
    AddForward {
        /// Address the forward front end binds to.
        listen: SocketAddr,
        /// Destination host.
        host: Host,
        /// Destination port.
        port: Port,
        /// Init run this command belongs to, absent outside a load.
        load: Option<LoadId>,
    },
    /// Re-runs the init script, optionally from a different path.
    Reload {
        /// Script to run instead of the remembered one.
        path: Option<String>,
    },
    /// Re-runs the remembered init script.
    On,
    /// Clears the live ruleset while both front ends keep listening.
    Off,
    /// Reports daemon state as a [`StatusView`].
    Status,
    /// Lists the live ruleset as [`RuleView`] values.
    Rules,
    /// Reports the routing decision for a destination without dialling it.
    Test {
        /// Destination host.
        host: Host,
        /// Destination port.
        port: Port,
    },
    /// Runs the diagnostic checks.
    Doctor,
    /// Switches the connection to a stream of decision events.
    Subscribe,
}

/// One reply written by the daemon.
#[derive(Debug, Clone, PartialEq, Eq)]
pub enum Response {
    /// The command succeeded and carries no payload.
    Done,
    /// The live ruleset in declaration order.
    Rules(Vec<RuleView>),
    /// The daemon state snapshot.
    Status(StatusView),
    /// Where a destination would be routed.
    Decision(DecisionView),
    /// The diagnostic check results in a fixed order.
    Doctor(Vec<CheckView>),
    /// One connection decision, emitted only on a subscribed connection.
    Event(EventView),
    /// The command failed.
    Failed {
        /// Category the client maps onto an exit code.
        kind: ErrKind,
        /// Human-readable explanation.
        message: String,
    },
}

/// Category of a failed command.
#[derive(Debug, Clone, Copy, PartialEq, Eq, Structural)]
pub enum ErrKind {
    /// The addressed thing does not exist.
    NotFound,
    /// The upstream is down and a `require` rule demands it.
    UpstreamDown,
    /// The command arguments are malformed.
    InvalidArgs,
    /// An init run is in progress and this command does not belong to it.
    LoadInProgress,
    /// The daemon failed for a reason the client cannot act on.
    Internal,
}

/// A load identifier is read from a number whatever white space stands round it.
pub proof fn law_a_load_id_is_read_amid_white_space(
    before: Seq<char>,
    id: LoadId,
    after: Seq<char>,
)
    requires
        forall|i: int| 0 <= i < before.len() ==> text::is_white(#[trigger] before[i]),
        forall|i: int| 0 <= i < after.len() ==> text::is_white(#[trigger] after[i]),
    ensures
        LoadId::read(before + decimal(id.0 as nat) + after) == Some(id),
{
    let d = decimal(id.0 as nat);
    text::law_decimal_reads_back(id.0 as nat);
    assert(text::is_digit(d[0]));
    assert(text::is_digit(d[d.len() - 1]));
    text::law_trimming_keeps_the_text(before, d, after);
}

} // verus!
