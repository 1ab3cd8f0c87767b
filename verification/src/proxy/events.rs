//! One connection from the decision that routed it to the event it leaves, and the refusals on the
//! way.
use vstd::prelude::*;

use crate::ipc::{DecisionKind, EffectiveHop, EventView, HealthState, Host, Port, UpstreamAddr};
use crate::net::{
    canonical_ip, ip_read, ip_text, loopback_ip, socket_read, socket_text, unspecified_ip, IpAddr,
    SocketAddr,
};
use crate::readback;
use crate::rules::matcher::normalized;
use crate::rules::ruleset::decision;
use crate::rules::{Decision, NormalizedHost, RuleId, Ruleset};
use crate::text;
use crate::text::{begins, decimal, in_quotes, trimmed};
use crate::time::Duration;

verus! {

/// Addresses the two front ends listen on.
#[derive(Debug, Clone, Copy, PartialEq, Eq, Structural)]
pub struct Listen {
    /// Where the HTTP front end listens.
    pub http: SocketAddr,
    /// Where the SOCKS5 front end listens.
    pub socks: SocketAddr,
}

/// Destination of every connection a forward front end accepts.
#[derive(Debug, Clone, PartialEq, Eq)]
pub struct Target {
    /// Destination host.
    pub host: Host,
    /// Destination port.
    pub port: Port,
}

/// Address published while no init script has named an upstream.
///
/// Port zero cannot be dialled, so `require` traffic is refused at once instead of waiting out a
/// connect timeout.
pub open spec fn no_upstream_addr() -> SocketAddr {
    SocketAddr { ip: IpAddr::V4(0x7f00_0001), port: 0, scope: 0 }
}

/// Returns the address published while no init script has named an upstream.
pub fn no_upstream() -> (r: SocketAddr)
    ensures
        r == no_upstream_addr(),
{
    SocketAddr { ip: IpAddr::V4(0x7f00_0001), port: 0, scope: 0 }
}

const SOCKS5_SCHEME: &'static str = "socks5://";

/// Rejection of an upstream address that cannot be dialled.
#[derive(Debug, Clone, PartialEq, Eq)]
pub struct InvalidUpstream(pub String);

impl InvalidUpstream {
    /// Returns the explanation shown to the operator.
    pub fn message(&self) -> (r: String)
        ensures
            r@ == "upstream must be socks5://<ip>:<port>, got "@ + in_quotes(self.0@),
    {
        let mut r = "upstream must be socks5://<ip>:<port>, got ".to_owned();
        r.append(text::debug(self.0.as_str()).as_str());
        r
    }
}

/// Upstream proxy, as the operator wrote it and as it is dialled.
#[derive(Debug, PartialEq, Eq)]
pub struct Upstream {
    written: UpstreamAddr,
    socket: SocketAddr,
}

/// What is left of an upstream's text once white space and the scheme are gone.
pub open spec fn bare(written: Seq<char>) -> Seq<char> {
    if begins(trimmed(written), "socks5://"@) {
        trimmed(written).skip("socks5://"@.len() as int)
    } else {
        trimmed(written)
    }
}

impl Upstream {
    /// The address as the operator wrote it.
    pub closed spec fn text(&self) -> UpstreamAddr {
        self.written
    }

    /// The address that is dialled.
    pub closed spec fn addr(&self) -> SocketAddr {
        self.socket
    }

    /// Reads the `socks5://<ip>:<port>` form an init script writes, scheme optional.
    ///
    /// The host must be an IP literal: the upstream is dialled without a resolver.
    ///
    /// # Errors
    ///
    /// Returns [`InvalidUpstream`] when the address is not an IP literal followed by a port.
    pub fn parse(written: UpstreamAddr) -> (r: Result<Upstream, InvalidUpstream>)
        ensures
            match socket_read(bare(written.0@)) {
                Some(addr) => r matches Ok(upstream) && upstream.text() == written
                    && upstream.addr() == addr,
                None => r matches Err(InvalidUpstream(given)) && given@ == bare(written.0@),
            },
    {
        let trimmed = text::trim(written.0.as_str());
        let rest = match text::strip_prefix(trimmed, SOCKS5_SCHEME) {
            Some(rest) => rest,
            None => trimmed,
        };
        match SocketAddr::parse(rest) {
            None => Err(InvalidUpstream(rest.to_owned())),
            Some(socket) => Ok(Upstream { written, socket }),
        }
    }

    /// Returns the address as the operator wrote it.
    pub fn written(&self) -> (r: &UpstreamAddr)
        ensures
            *r == self.text(),
    {
        &self.written
    }

    /// Returns the address that is dialled.
    pub fn socket(&self) -> (r: SocketAddr)
        ensures
            r == self.addr(),
    {
        self.socket
    }
}

impl Clone for Upstream {
    fn clone(&self) -> (r: Self)
        ensures
            r == *self,
    {
        Upstream { written: self.written.clone(), socket: self.socket }
    }
}

/// Number of events one subscriber may fall behind by before its events are dropped.
pub const SUBSCRIBER_CAPACITY: usize = 256;

/// How many events one reader of the decision stream has missed since the last that reached it.
#[derive(Debug, Clone, Copy, PartialEq, Eq, Structural)]
pub struct Subscriber {
    /// Events dropped and not yet told.
    pub dropped: u64,
}

/// What became of an event that was put on a subscriber's queue.
#[derive(Debug, Clone, Copy, PartialEq, Eq, Structural)]
pub enum Offered {
    /// The queue took it.
    Taken,
    /// The queue was full.
    Full,
    /// The reader is gone.
    Closed,
}

/// Whether a subscriber is still listening once an event has been offered to it.
#[derive(Debug, Clone, Copy, PartialEq, Eq, Structural)]
pub enum Delivery {
    /// It is.
    Kept,
    /// It is not.
    Gone,
}

/// How many events have been missed once one more has been offered.
pub open spec fn missed(dropped: u64, offered: Offered) -> u64 {
    match offered {
        Offered::Taken => 0,
        Offered::Full => if dropped == u64::MAX {
            u64::MAX
        } else {
            (dropped + 1) as u64
        },
        Offered::Closed => dropped,
    }
}

/// How many events have been missed once a series has been offered.
pub open spec fn missed_over(dropped: u64, offered: Seq<Offered>) -> u64
    decreases offered.len(),
{
    if offered.len() == 0 {
        dropped
    } else {
        missed(missed_over(dropped, offered.drop_last()), offered.last())
    }
}

/// The error text of an event that tells how many were dropped before it.
pub open spec fn dropped_text(dropped: u64, error: Option<String>) -> Seq<char> {
    match error {
        Some(error) => "dropped "@ + decimal(dropped as nat) + ": "@ + error@,
        None => "dropped "@ + decimal(dropped as nat),
    }
}

/// Whether two events tell the same but for the error.
pub open spec fn same_but_error(a: EventView, b: EventView) -> bool {
    &&& a.host == b.host
    &&& a.port == b.port
    &&& a.decision == b.decision
    &&& a.rule_index == b.rule_index
    &&& a.class == b.class
    &&& a.upstream == b.upstream
    &&& a.connect_ms == b.connect_ms
    &&& a.hop == b.hop
    &&& a.duration_ms == b.duration_ms
}

impl Subscriber {
    /// Returns the event as it is put on this subscriber's queue: with how many were dropped before
    /// it, where any were.
    pub fn offering(&self, event: &EventView) -> (r: EventView)
        ensures
            self.dropped == 0 ==> r == *event,
            self.dropped > 0 ==> same_but_error(r, *event) && (r.error matches Some(error)
                && error@ == dropped_text(self.dropped, event.error)),
    {
        match self.dropped {
            0 => event.clone(),
            dropped => reporting(event.clone(), dropped),
        }
    }

    /// Counts an event the queue had no room for and forgets the count once one got through.
    pub fn offered(&mut self, offered: Offered) -> (r: Delivery)
        ensures
            r == if offered == Offered::Closed {
                Delivery::Gone
            } else {
                Delivery::Kept
            },
            final(self).dropped == missed(old(self).dropped, offered),
    {
        match offered {
            Offered::Taken => {
                self.dropped = 0;
                Delivery::Kept
            },
            Offered::Full => {
                self.dropped = self.dropped.saturating_add(1);
                Delivery::Kept
            },
            Offered::Closed => Delivery::Gone,
        }
    }
}

/// Tells in an event's error how many were dropped before it.
pub fn reporting(event: EventView, dropped: u64) -> (r: EventView)
    ensures
        same_but_error(r, event),
        r.error matches Some(error) && error@ == dropped_text(dropped, event.error),
{
    let mut error = "dropped ".to_owned();
    error.append(text::decimal_text(dropped).as_str());
    match &event.error {
        Some(cause) => {
            error.append(": ");
            error.append(cause.as_str());
        },
        None => {},
    }
    EventView {
        host: event.host,
        port: event.port,
        decision: event.decision,
        rule_index: event.rule_index,
        class: event.class,
        upstream: event.upstream,
        connect_ms: event.connect_ms,
        hop: event.hop,
        duration_ms: event.duration_ms,
        error: Some(error),
    }
}

/// Whether a destination is the address a connection was accepted on: the same port, and the same
/// or the unspecified address, or `localhost` on a loopback address. Mapped addresses count as the
/// version 4 address they stand for.
pub open spec fn loops(host: Seq<char>, port: u16, listening: SocketAddr) -> bool {
    let name = normalized(host);
    let own = canonical_ip(listening.ip);
    &&& port == listening.port
    &&& match ip_read(name) {
        None => name == "localhost"@ && loopback_ip(own),
        Some(ip) => unspecified_ip(canonical_ip(ip)) || canonical_ip(ip) == own,
    }
}

/// Answers whether a destination is the address the connection was accepted on.
///
/// `listening` is the accepted socket's local address, which under a wildcard bind is the concrete
/// interface the client reached. Names are not resolved: a lookup per connection costs more than
/// the case is worth, so short forms such as `127.1` are not caught.
pub fn dials_itself(destination: &Host, port: Port, listening: SocketAddr) -> (r: bool)
    ensures
        r == loops(destination.0@, port.0, listening),
{
    if port.0 != listening.port {
        return false;
    }
    let own = canonical(listening.ip);
    let destination = NormalizedHost::new(destination);
    match destination.address() {
        None => text::same(destination.as_str(), "localhost") && own.is_loopback(),
        Some(address) => {
            let address = canonical(address);
            address.is_unspecified() || address == own
        },
    }
}

/// Folds an IPv4-mapped IPv6 address back to v4, so that both forms compare equal.
pub fn canonical(address: IpAddr) -> (r: IpAddr)
    ensures
        r == canonical_ip(address),
{
    address.to_canonical()
}

/// Whether the destination is the address this connection was accepted on.
#[derive(Debug, Clone, Copy, PartialEq, Eq, Structural)]
pub enum Loop {
    /// The destination is this front end itself, reached on that address.
    Own(SocketAddr),
    /// The destination is somewhere else, or the accepted socket could not name itself.
    Elsewhere,
}

/// Whether the destination of a connection accepted on an address, where that is known, is the
/// address itself.
pub open spec fn looped_at(listening: Option<SocketAddr>, host: Seq<char>, port: u16) -> Loop {
    match listening {
        Some(addr) if loops(host, port, addr) => Loop::Own(addr),
        _ => Loop::Elsewhere,
    }
}

/// Answers whether the destination is the address the client reached.
///
/// A socket that cannot name itself is treated as no loop: refusing traffic because a socket call
/// failed would be worse than the loop the check guards against.
pub fn own_address(listening: Option<SocketAddr>, host: &Host, port: Port) -> (r: Loop)
    ensures
        r == looped_at(listening, host.0@, port.0),
{
    match listening {
        None => Loop::Elsewhere,
        Some(listening) => {
            if dials_itself(host, port, listening) {
                return Loop::Own(listening);
            }
            Loop::Elsewhere
        },
    }
}

/// Refusal a front end produces when it is asked to dial the address it accepted the connection on.
#[derive(Debug, Clone, Copy, PartialEq, Eq, Structural)]
pub struct DialsItself {
    listening: SocketAddr,
}

impl DialsItself {
    /// The address the client reached.
    pub closed spec fn addr(&self) -> SocketAddr {
        self.listening
    }

    /// Names the address the client reached.
    pub fn new(listening: SocketAddr) -> (r: DialsItself)
        ensures
            r.addr() == listening,
    {
        DialsItself { listening }
    }

    /// Returns the explanation shown to the client.
    pub fn message(&self) -> (r: String)
        ensures
            r@ == "nhop: refusing to dial my own listening address "@ + socket_text(self.addr()),
    {
        let mut r = "nhop: refusing to dial my own listening address ".to_owned();
        r.append(self.listening.text().as_str());
        r
    }
}

/// Refusal a `require` rule produces when the upstream it needs is down.
#[derive(Debug, Clone, Copy, PartialEq, Eq, Structural)]
pub struct UpstreamDown {
    addr: SocketAddr,
    rule: RuleId,
}

impl UpstreamDown {
    /// The upstream that is down.
    pub closed spec fn upstream(&self) -> SocketAddr {
        self.addr
    }

    /// The rule that needs it.
    pub closed spec fn required_by(&self) -> RuleId {
        self.rule
    }

    /// Names the upstream and the rule.
    pub fn new(addr: SocketAddr, rule: RuleId) -> (r: UpstreamDown)
        ensures
            r.upstream() == addr,
            r.required_by() == rule,
    {
        UpstreamDown { addr, rule }
    }

    /// Returns the explanation shown to the client.
    pub fn message(&self) -> (r: String)
        ensures
            r@ == "nhop: upstream "@ + socket_text(self.upstream()) + " is down (require rule "@
                + decimal(self.required_by().0 as nat) + ")"@,
    {
        let mut r = "nhop: upstream ".to_owned();
        r.append(self.addr.text().as_str());
        r.append(" is down (require rule ");
        r.append(text::decimal_text(self.rule.0 as u64).as_str());
        r.append(")");
        r
    }
}

/// What the dial phase of one connection cost.
///
/// The two variants are what separates a slow dial from a long-lived connection in the log.
#[derive(Debug, Clone, Copy, PartialEq, Eq, Structural)]
pub enum Connect {
    /// No dial was made, so there is no dial time: the decision refused before the network.
    Refused,
    /// A dial was made, whether or not it produced a connection.
    Attempted {
        /// Where the connection was handed to.
        hop: EffectiveHop,
        /// How long it took.
        took: Duration,
    },
}

/// One connection, from the decision that routed it to the event it leaves.
///
/// The verdict is taken at the decision and the duration at the end, so the event reports what
/// the routing saw.
#[derive(Debug, Clone, PartialEq, Eq)]
pub struct Routed {
    /// Destination host.
    pub host: Host,
    /// Destination port.
    pub port: Port,
    /// Decision the connection was routed by.
    pub decision: Decision,
    /// Verdict at the decision.
    pub upstream: HealthState,
    /// What the dial phase cost.
    pub connect: Connect,
}

/// A connection whose destination is known and which has not been dialled yet.
#[derive(Debug, Clone, PartialEq, Eq)]
pub struct Begun {
    /// The connection with the decision it is routed by.
    pub routed: Routed,
    /// Whether the destination is the front end itself, which is refused without a dial.
    pub looped: Loop,
}

/// Routes one connection of a front end by the rules in force when it was accepted.
pub fn begin(
    rules: &Ruleset,
    health: HealthState,
    listening: Option<SocketAddr>,
    host: &Host,
    port: Port,
) -> (r: Begun)
    ensures
        r.routed == (Routed {
            host: *host,
            port,
            decision: decision(rules@, host.0@, port.0),
            upstream: health,
            connect: Connect::Refused,
        }),
        r.looped == looped_at(listening, host.0@, port.0),
{
    let decision = rules.decide(host, port);
    let routed = Routed::begun(host, port, decision, health);
    let looped = own_address(listening, host, port);
    Begun { routed, looped }
}

/// Whole milliseconds of a span, at most as many as fit.
pub open spec fn whole_millis(span: Duration) -> u64 {
    if span.total() / 1_000_000 > u64::MAX {
        u64::MAX
    } else {
        (span.total() / 1_000_000) as u64
    }
}

/// A rule's position as it is reported, at most as large as fits.
pub open spec fn reported_index(rule: RuleId) -> u32 {
    if rule.0 > u32::MAX {
        u32::MAX
    } else {
        rule.0 as u32
    }
}

impl Routed {
    /// Records the decision a connection was routed by.
    pub fn begun(host: &Host, port: Port, decision: Decision, upstream: HealthState) -> (r: Routed)
        ensures
            r == (Routed { host: *host, port, decision, upstream, connect: Connect::Refused }),
    {
        Routed { host: host.clone(), port, decision, upstream, connect: Connect::Refused }
    }

    /// Records what the dial phase cost, once the front end has been through it.
    pub fn dialled(&mut self, connect: Connect)
        ensures
            *final(self) == (Routed { connect, ..*old(self) }),
    {
        self.connect = connect;
    }

    /// Returns the single event this connection produces, once it has ended.
    pub fn ended(self, lasted: Duration, failure: Option<String>) -> (r: EventView)
        requires
            lasted.valid(),
            self.connect matches Connect::Attempted { took, .. } ==> took.valid(),
        ensures
            r == (EventView {
                host: self.host,
                port: self.port,
                decision: match self.decision {
                    Decision::Direct => DecisionKind::Direct,
                    Decision::Never { .. } => DecisionKind::Never,
                    Decision::Upstream { .. } => DecisionKind::Upstream,
                },
                rule_index: match self.decision {
                    Decision::Direct => None,
                    Decision::Never { rule } => Some(reported_index(rule)),
                    Decision::Upstream { rule, .. } => Some(reported_index(rule)),
                },
                class: match self.decision {
                    Decision::Direct => None,
                    Decision::Never { .. } => Some(crate::ipc::RuleClass::Never),
                    Decision::Upstream { class, .. } => Some(class),
                },
                upstream: self.upstream,
                connect_ms: match self.connect {
                    Connect::Refused => None,
                    Connect::Attempted { took, .. } => Some(whole_millis(took)),
                },
                hop: match self.connect {
                    Connect::Refused => None,
                    Connect::Attempted { hop, .. } => Some(hop),
                },
                duration_ms: whole_millis(lasted),
                error: failure,
            }),
    {
        let (connect_ms, hop) = match self.connect {
            Connect::Refused => (None, None),
            Connect::Attempted { hop, took } => (Some(took.millis()), Some(hop)),
        };
        EventView {
            decision: self.decision.kind(),
            rule_index: matched_index(self.decision),
            class: self.decision.class(),
            host: self.host,
            port: self.port,
            upstream: self.upstream,
            connect_ms,
            hop,
            duration_ms: lasted.millis(),
            error: failure,
        }
    }
}

/// Returns the reported position of the rule that decided, absent when none matched.
pub fn matched_index(decision: Decision) -> (r: Option<u32>)
    ensures
        r == match decision {
            Decision::Direct => None,
            Decision::Never { rule } => Some(reported_index(rule)),
            Decision::Upstream { rule, .. } => Some(reported_index(rule)),
        },
{
    match decision.rule() {
        None => None,
        Some(rule) => Some(indexed(rule)),
    }
}

/// Returns a rule's position as it is reported.
pub fn indexed(rule: RuleId) -> (r: u32)
    ensures
        r == reported_index(rule),
{
    if rule.0 > u32::MAX as usize {
        u32::MAX
    } else {
        rule.0 as u32
    }
}

/// What one dial did, and the connection it produced if it produced one.
///
/// A refusal before the network and an instant failure both take about no time, so the distinction
/// is carried out of the dial rather than inferred after it.
#[derive(Debug)]
pub enum Dialled<T, E> {
    /// Nothing was dialled.
    Refused(E),
    /// A dial was made over the network, whether or not it produced a connection.
    Attempted {
        /// Where the connection was handed to.
        hop: EffectiveHop,
        /// The connection, or why there is none.
        next: Result<T, E>,
    },
}

impl<T, E> Dialled<T, E> {
    /// Splits the outcome into what the dial phase cost and the connection it produced.
    ///
    /// The elapsed time is kept only when a dial was actually made.
    pub fn timed(self, took: Duration) -> (r: (Connect, Result<T, E>))
        ensures
            r == match self {
                Dialled::Refused(failure) => (Connect::Refused, Err::<T, E>(failure)),
                Dialled::Attempted { hop, next } => (Connect::Attempted { hop, took }, next),
            },
    {
        match self {
            Dialled::Refused(failure) => (Connect::Refused, Err(failure)),
            Dialled::Attempted { hop, next } => (Connect::Attempted { hop, took }, next),
        }
    }
}

/// A subscriber whose queue has been full for a number of events in a row since one got through has
/// missed exactly that number, which the next event it is offered tells it.
pub proof fn law_every_missed_event_is_counted(before: u64, offered: Seq<Offered>)
    requires
        offered.len() >= 1,
        offered[0] == Offered::Taken,
        forall|i: int| 1 <= i < offered.len() ==> offered[i] == Offered::Full,
        offered.len() - 1 <= u64::MAX,
    ensures
        missed_over(before, offered) == offered.len() - 1,
    decreases offered.len(),
{
    let shorter = offered.drop_last();
    if offered.len() == 1 {
        assert(shorter =~= Seq::<Offered>::empty());
    } else {
        law_every_missed_event_is_counted(before, shorter);
    }
}

/// The two forms of one address, plain and mapped, are the same destination to the loop guard,
/// whichever of them the socket listens on.
pub proof fn law_mapped_addresses_are_one(
    host: Seq<char>,
    port: u16,
    listening: SocketAddr,
    other: SocketAddr,
)
    requires
        canonical_ip(listening.ip) == canonical_ip(other.ip),
        listening.port == other.port,
    ensures
        loops(host, port, listening) == loops(host, port, other),
{
}

/// A destination on another port than the one listened on is never a loop.
pub proof fn law_another_port_is_no_loop(host: Seq<char>, port: u16, listening: SocketAddr)
    requires
        port != listening.port,
    ensures
        !loops(host, port, listening),
{
}

/// An upstream is read from its address with or without the scheme before it.
pub proof fn law_an_upstream_is_read_with_or_without_its_scheme(addr: SocketAddr)
    requires
        addr.ip is V4 ==> addr.scope == 0,
    ensures
        socket_read(bare("socks5://"@ + socket_text(addr))) == Some(addr),
        socket_read(bare(socket_text(addr))) == Some(addr),
{
    let none = Seq::<char>::empty();
    law_an_upstream_is_read_amid_white_space(none, addr, none);
    assert(none + ("socks5://"@ + socket_text(addr)) + none =~= "socks5://"@ + socket_text(addr));
    assert(none + socket_text(addr) + none =~= socket_text(addr));
}

/// White space round an upstream is passed over, with the scheme or without it.
pub proof fn law_an_upstream_is_read_amid_white_space(
    before: Seq<char>,
    addr: SocketAddr,
    after: Seq<char>,
)
    requires
        addr.ip is V4 ==> addr.scope == 0,
        forall|i: int| 0 <= i < before.len() ==> text::is_white(#[trigger] before[i]),
        forall|i: int| 0 <= i < after.len() ==> text::is_white(#[trigger] after[i]),
    ensures
        bare(before + ("socks5://"@ + socket_text(addr)) + after) == socket_text(addr),
        bare(before + socket_text(addr) + after) == socket_text(addr),
        socket_read(socket_text(addr)) == Some(addr),
{
    reveal_strlit("socks5://");
    let t = socket_text(addr);
    let scheme = "socks5://"@;
    readback::law_a_socket_address_reads_back(addr);
    readback::lemma_socket_text_ends(addr);
    text::law_trimming_keeps_the_text(before, t, after);
    let full = scheme + t;
    assert(full.last() == t.last());
    assert(full[0] == 's');
    text::law_trimming_keeps_the_text(before, full, after);
    text::law_beginnings_and_endings(scheme, t);
    assert(full.skip(9) =~= t);
    if begins(t, scheme) {
        text::law_beginnings_and_endings(t, scheme);
        assert(t[0] == scheme[0]);
    }
}

/// Events missed are told in front of the error of the next event that gets through.
pub proof fn law_how_missed_events_are_told(dropped: u64, error: String)
    ensures
        dropped_text(dropped, None) == "dropped "@ + decimal(dropped as nat),
        dropped_text(dropped, Some(error)) == "dropped "@ + decimal(dropped as nat) + ": "@ + error@,
        missed(dropped, Offered::Taken) == 0,
        missed(dropped, Offered::Closed) == dropped,
        dropped < u64::MAX ==> missed(dropped, Offered::Full) == dropped + 1,
{
}

/// What loops: an address written in any way is the front end's own where it is the address the
/// client reached or no address in particular; `localhost` is where that is a loopback address; no
/// other name is.
#[verifier::spinoff_prover]
pub proof fn law_what_a_loop_is(host: Seq<char>, listening: SocketAddr)
    ensures
        loops(ip_text(listening.ip), listening.port, listening),
        ip_read(normalized(host)) matches Some(ip) ==> (loops(host, listening.port, listening) <==> ip
            == IpAddr::V4(0) || ip == IpAddr::V6(0) || ip == IpAddr::V6(0xffff_0000_0000)
            || canonical_ip(ip) == canonical_ip(listening.ip)),
        ip_read(normalized(host)) is None ==> (loops(host, listening.port, listening) <==> normalized(
            host,
        ) == "localhost"@ && loopback_ip(canonical_ip(listening.ip))),
{
    readback::law_an_address_is_matched_as_itself(listening.ip);
    if let Some(ip) = ip_read(normalized(host)) {
        lemma_unspecified(ip);
    }
}

proof fn lemma_unspecified(ip: IpAddr)
    ensures
        unspecified_ip(canonical_ip(ip)) <==> ip == IpAddr::V4(0) || ip == IpAddr::V6(0) || ip
            == IpAddr::V6(0xffff_0000_0000),
{
    if let IpAddr::V6(v) = ip {
        let high = v / 0x1_0000_0000;
        let low = v % 0x1_0000_0000;
        assert(v == high * 0x1_0000_0000 + low);
    }
}

/// A duration is reported in whole milliseconds, what is left of one cut off.
pub proof fn law_a_duration_is_reported_in_whole_milliseconds(span: Duration)
    requires
        span.secs < 1_000_000_000_000,
        span.valid(),
    ensures
        whole_millis(span) * 1_000_000 <= span.secs * 1_000_000_000 + span.nanos < (whole_millis(span)
            + 1) * 1_000_000,
{
}

/// A rule is reported under its position.
pub proof fn law_a_rule_is_reported_under_its_position(rule: RuleId)
    ensures
        rule.0 <= u32::MAX ==> reported_index(rule) == rule.0,
{
}

/// A connection whose accepting socket is not known, or whose destination is not the address it was
/// accepted on, is no loop; every other one is, on that address.
pub proof fn law_when_a_connection_loops(listening: SocketAddr, host: Seq<char>, port: u16)
    ensures
        looped_at(None, host, port) == Loop::Elsewhere,
        loops(host, port, listening) ==> looped_at(Some(listening), host, port) == Loop::Own(listening),
        !loops(host, port, listening) ==> looped_at(Some(listening), host, port) == Loop::Elsewhere,
        port != listening.port ==> looped_at(Some(listening), host, port) == Loop::Elsewhere,
{
}

/// An event that tells of missed ones is the same event but for its error.
pub proof fn law_only_the_error_of_an_event_changes(a: EventView, b: EventView)
    requires
        same_but_error(a, b),
    ensures
        a == (EventView { error: a.error, ..b }),
{
}

/// Until an upstream is named an address is published that cannot be dialled, and a reader may fall
/// behind by 256 events.
pub proof fn law_what_stands_for_no_upstream()
    ensures
        no_upstream_addr().port == 0,
        loopback_ip(no_upstream_addr().ip),
        SUBSCRIBER_CAPACITY == 256,
{
}

/// An upstream has to be named by its address: a host name is none, nor is an address without a port
/// or with a number behind it that is no port.
pub proof fn law_an_upstream_is_named_by_its_address(host: Seq<char>, i: int, rest: Seq<char>, n: nat)
    requires
        !host.contains(':'),
        host.len() > 0,
        host[0] != '[',
    ensures
        socket_read(host) is None,
        0 <= i < host.len() && host[i] != '.' && !('0' <= host[i] && host[i] <= '9') ==> socket_read(
            host + ":"@ + rest,
        ) is None,
        n > 65535 ==> socket_read(host + ":"@ + decimal(n)) is None,
{
    reveal_strlit(":");
    let k = host.len() as int;
    assert forall|j: int| 0 <= j < k implies host[j] != ':' by {
        assert(host.contains(host[j]));
    }
    text::lemma_first_of_is(host, ':', k);
    let s = host + ":"@ + rest;
    assert(s[0] == host[0]);
    assert forall|j: int| 0 <= j < k implies s[j] != ':' by {
        assert(s[j] == host[j]);
    }
    assert(s[k] == ':');
    text::lemma_first_of_is(s, ':', k);
    assert(s.take(k) =~= host);
    if 0 <= i < k && host[i] != '.' && !('0' <= host[i] && host[i] <= '9') {
        if crate::net::v4_read(host) is Some {
            readback::lemma_v4_chars(host, i);
        }
    }
    let t = host + ":"@ + decimal(n);
    assert(t[0] == host[0]);
    assert forall|j: int| 0 <= j < k implies t[j] != ':' by {
        assert(t[j] == host[j]);
    }
    assert(t[k] == ':');
    text::lemma_first_of_is(t, ':', k);
    assert(t.skip(k + 1) =~= decimal(n));
    text::law_decimal_reads_back(n);
}

} // verus!
