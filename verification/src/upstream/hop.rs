//! The next hop of a routed connection: directly, or through the SOCKS5 upstream.
use vstd::prelude::*;

use crate::ipc::{EffectiveHop, HealthState, RuleClass};
use crate::net::{socket_text, SocketAddr};
use crate::proxy::events::{
    looped_at, loops, no_upstream, no_upstream_addr, Loop, UpstreamDown,
};
use crate::proxy::http;
use crate::proxy::socks5;
use crate::rules::Decision;
use crate::text;
use crate::text::decimal;
use crate::time::SystemTime;
use crate::upstream::health::{Health, Turnover, VerdictCause};

verus! {

/// Milliseconds a `prefer` dial through the upstream may take before it counts as a failure.
///
/// A `prefer` dial has a direct route waiting behind it, so the budget is how long it is worth
/// waiting before taking the route there already is.
pub const PREFER_CONNECT_TIMEOUT: u64 = 2_000;

/// Milliseconds a `require` dial through the upstream may take before it counts as a failure.
///
/// A `require` destination has no direct route behind it, so this budget is the whole connection's
/// patience: giving up early does not reach the destination faster, it only fails sooner.
pub const REQUIRE_CONNECT_TIMEOUT: u64 = 10_000;

/// Milliseconds a relay socket may sit idle before the first keepalive probe goes out.
pub const KEEPALIVE_IDLE: u64 = 15_000;

/// Milliseconds between keepalive probes once they have started.
pub const KEEPALIVE_INTERVAL: u64 = 15_000;

/// How many unanswered keepalive probes end a relay socket.
pub const KEEPALIVE_RETRIES: u32 = 4;

/// How long one dial through the upstream may take, chosen by the class of the rule that sent it.
#[derive(Debug, Clone, Copy, PartialEq, Eq, Structural)]
pub enum UpstreamBudget {
    /// The budget for a dial with a direct route waiting behind it, [`PREFER_CONNECT_TIMEOUT`].
    Prefer,
    /// The budget for a dial with no fallback, [`REQUIRE_CONNECT_TIMEOUT`].
    Require,
}

impl UpstreamBudget {
    /// The milliseconds it allows.
    pub open spec fn millis(self) -> u64 {
        match self {
            UpstreamBudget::Prefer => PREFER_CONNECT_TIMEOUT,
            UpstreamBudget::Require => REQUIRE_CONNECT_TIMEOUT,
        }
    }

    /// Returns the milliseconds it allows.
    pub fn allowance(self) -> (r: u64)
        ensures
            r == self.millis(),
    {
        match self {
            Self::Prefer => PREFER_CONNECT_TIMEOUT,
            Self::Require => REQUIRE_CONNECT_TIMEOUT,
        }
    }

    /// Returns why a dial that outlived its budget failed.
    pub fn unanswered(self, upstream: SocketAddr) -> (r: String)
        ensures
            r@ == "the upstream "@ + socket_text(upstream) + " did not answer within "@ + decimal(
                (self.millis() / 1000) as nat,
            ) + "s"@,
    {
        let mut r = "the upstream ".to_owned();
        r.append(upstream.text().as_str());
        r.append(" did not answer within ");
        r.append(text::decimal_text(self.allowance() / 1000).as_str());
        r.append("s");
        r
    }
}

/// What a connection does first.
#[derive(Debug, Clone, Copy, PartialEq, Eq, Structural)]
pub enum Attempt {
    /// Dials the destination; the hop is what the log says of it.
    Direct(EffectiveHop),
    /// Dials the destination through the upstream within a budget.
    Through(UpstreamBudget),
    /// Dials nothing: a `require` rule matched and no upstream is configured.
    Refused,
    /// Dials nothing: the destination is the front end itself, reached on that address.
    Own(SocketAddr),
}

/// How a dial through the upstream ended.
#[derive(Debug, Clone, Copy, PartialEq, Eq, Structural)]
pub enum Carried {
    /// It carries the connection.
    Connected,
    /// The upstream answered about the destination, which says nothing against its own health.
    Destination,
    /// The upstream itself could not carry the connection.
    Upstream,
}

/// What a connection does once the upstream has been dialled.
#[derive(Debug, Clone, Copy, PartialEq, Eq, Structural)]
pub enum Next {
    /// Relays through the upstream.
    Relay,
    /// Fails with what the upstream said of the destination.
    Fail,
    /// Fails because the upstream is down.
    UpstreamDown,
    /// Dials the destination after all.
    FallBack,
}

/// What a connection does first, by its decision, the published upstream and the verdict on it.
pub open spec fn attempt(decision: Decision, upstream: SocketAddr, health: HealthState) -> Attempt {
    match decision {
        Decision::Direct => Attempt::Direct(EffectiveHop::Direct),
        Decision::Never { .. } => Attempt::Direct(EffectiveHop::Direct),
        Decision::Upstream { class, rule: _ } => match class {
            RuleClass::Never => Attempt::Direct(EffectiveHop::Direct),
            RuleClass::Require => if upstream == no_upstream_addr() {
                Attempt::Refused
            } else {
                Attempt::Through(UpstreamBudget::Require)
            },
            RuleClass::Prefer => match health {
                HealthState::Down => Attempt::Direct(EffectiveHop::FallbackDirect),
                HealthState::Up => Attempt::Through(UpstreamBudget::Prefer),
            },
        },
    }
}

/// What a connection does first, by whether its destination is the front end itself and otherwise
/// by its decision.
pub open spec fn opened(
    looped: Loop,
    decision: Decision,
    upstream: SocketAddr,
    health: HealthState,
) -> Attempt {
    match looped {
        Loop::Own(listening) => Attempt::Own(listening),
        Loop::Elsewhere => attempt(decision, upstream, health),
    }
}

/// Whether this is the refusal a decision ends in where the upstream cannot carry it: one that names
/// the upstream and the rule for a `require` decision, none for any other.
pub open spec fn is_refusal(
    decision: Decision,
    upstream: SocketAddr,
    refusal: Option<UpstreamDown>,
) -> bool {
    match decision {
        Decision::Upstream { class: RuleClass::Require, rule } => refusal matches Some(down)
            && down.upstream() == upstream && down.required_by() == rule,
        _ => refusal is None,
    }
}

/// Where a connection was handed to once the upstream has been dialled.
pub open spec fn handed_to(next: Next) -> EffectiveHop {
    match next {
        Next::Relay | Next::Fail | Next::UpstreamDown => EffectiveHop::Upstream,
        Next::FallBack => EffectiveHop::FallbackDirect,
    }
}

/// The hop a connection is reported with, by what it did first and how the upstream, where it was
/// dialled, carried it; none where nothing was dialled.
pub open spec fn reported(first: Attempt, carried: Carried) -> Option<EffectiveHop> {
    match first {
        Attempt::Direct(hop) => Some(hop),
        Attempt::Through(budget) => Some(handed_to(following(budget, carried))),
        Attempt::Refused | Attempt::Own(_) => None,
    }
}

/// What a connection does next.
pub open spec fn following(budget: UpstreamBudget, carried: Carried) -> Next {
    match (budget, carried) {
        (_, Carried::Connected) => Next::Relay,
        (UpstreamBudget::Require, Carried::Destination) => Next::Fail,
        (UpstreamBudget::Require, Carried::Upstream) => Next::UpstreamDown,
        (UpstreamBudget::Prefer, _) => Next::FallBack,
    }
}

/// What a dial says of the upstream: only one it could not carry speaks against it.
pub open spec fn verdict(carried: Carried) -> HealthState {
    match carried {
        Carried::Connected | Carried::Destination => HealthState::Up,
        Carried::Upstream => HealthState::Down,
    }
}

/// Decides what a connection does first.
///
/// The verdict routes `prefer` only: while it is down such a destination goes direct at once rather
/// than paying a connect timeout for a route it does not need. `require` has no direct route, so it
/// dials every configured address whatever the verdict says.
pub fn routed(decision: Decision, upstream: SocketAddr, health: HealthState) -> (r: Attempt)
    ensures
        r == attempt(decision, upstream, health),
{
    match decision {
        Decision::Direct => Attempt::Direct(EffectiveHop::Direct),
        Decision::Never { rule: _ } => Attempt::Direct(EffectiveHop::Direct),
        Decision::Upstream { class, rule: _ } => match class {
            RuleClass::Never => Attempt::Direct(EffectiveHop::Direct),
            RuleClass::Require => required(upstream),
            RuleClass::Prefer => preferred(health),
        },
    }
}

/// Decides what a connection does first: one whose destination is the front end itself dials
/// nothing, whatever the rules say of it.
pub fn opening(
    looped: Loop,
    decision: Decision,
    upstream: SocketAddr,
    health: HealthState,
) -> (r: Attempt)
    ensures
        r == opened(looped, decision, upstream, health),
{
    match looped {
        Loop::Own(listening) => Attempt::Own(listening),
        Loop::Elsewhere => routed(decision, upstream, health),
    }
}

/// Returns the refusal a decision ends in where the upstream cannot carry it, absent for a decision
/// that does not need it.
///
/// Turning a `require` destination away for want of an upstream and failing to dial it through one
/// carry the same refusal: to the client such a rule has one meaning either way.
pub fn refused(decision: Decision, upstream: SocketAddr) -> (r: Option<UpstreamDown>)
    ensures
        is_refusal(decision, upstream, r),
{
    match decision {
        Decision::Upstream { class: RuleClass::Require, rule } => Some(
            UpstreamDown::new(upstream, rule),
        ),
        _ => None,
    }
}

fn required(upstream: SocketAddr) -> (r: Attempt)
    ensures
        r == if upstream == no_upstream_addr() {
            Attempt::Refused
        } else {
            Attempt::Through(UpstreamBudget::Require)
        },
{
    if upstream == no_upstream() {
        return Attempt::Refused;
    }
    Attempt::Through(UpstreamBudget::Require)
}

fn preferred(health: HealthState) -> (r: Attempt)
    ensures
        r == match health {
            HealthState::Down => Attempt::Direct(EffectiveHop::FallbackDirect),
            HealthState::Up => Attempt::Through(UpstreamBudget::Prefer),
        },
{
    match health {
        HealthState::Down => Attempt::Direct(EffectiveHop::FallbackDirect),
        HealthState::Up => Attempt::Through(UpstreamBudget::Prefer),
    }
}

/// Decides what a connection does once the upstream has been dialled.
pub fn answered(budget: UpstreamBudget, carried: Carried) -> (r: Next)
    ensures
        r == following(budget, carried),
{
    match (budget, carried) {
        (UpstreamBudget::Require, Carried::Connected) => Next::Relay,
        (UpstreamBudget::Require, Carried::Destination) => Next::Fail,
        (UpstreamBudget::Require, Carried::Upstream) => Next::UpstreamDown,
        (UpstreamBudget::Prefer, Carried::Connected) => Next::Relay,
        (UpstreamBudget::Prefer, Carried::Destination) => Next::FallBack,
        (UpstreamBudget::Prefer, Carried::Upstream) => Next::FallBack,
    }
}

/// Returns where a connection was handed to once the upstream has been dialled.
///
/// From the client's side a fallback cannot be told from an upstream connection, so the log is the
/// only place the difference can be seen.
pub fn taken(next: Next) -> (r: EffectiveHop)
    ensures
        r == handed_to(next),
{
    match next {
        Next::Relay => EffectiveHop::Upstream,
        Next::Fail => EffectiveHop::Upstream,
        Next::UpstreamDown => EffectiveHop::Upstream,
        Next::FallBack => EffectiveHop::FallbackDirect,
    }
}

/// Records what one real dial saw about the upstream it was made against, and what the log says of
/// it.
///
/// The write is guarded by the address the dial went to: a dial that started before a reload and
/// lands after it has observed an upstream nobody routes to any more, and must not judge the one
/// that replaced it.
pub fn observed(
    published: SocketAddr,
    dialled: SocketAddr,
    health: Health,
    carried: Carried,
    now: SystemTime,
) -> (r: (Health, Option<Turnover>))
    ensures
        published != dialled ==> r == (health, None::<Turnover>),
        published == dialled ==> r == (
            health.after(verdict(carried), now),
            health.turned(verdict(carried), VerdictCause::Dial),
        ),
{
    if published != dialled {
        return (health, None);
    }
    let seen = match carried {
        Carried::Connected => HealthState::Up,
        Carried::Destination => HealthState::Up,
        Carried::Upstream => HealthState::Down,
    };
    (health.settle(seen, now), health.turnover(seen, VerdictCause::Dial))
}

/// Why a SOCKS5 handshake did not produce a connection, as the client of it tells it.
#[derive(Debug, Clone, Copy, PartialEq, Eq, Structural)]
pub enum SocksFailure {
    /// The connection to the proxy failed.
    Io,
    /// An address could not be read.
    ParseError,
    /// The destination cannot be named to the proxy.
    InvalidTargetAddress,
    /// The proxy cannot be reached.
    ProxyServerUnreachable,
    /// The reply is of another protocol version.
    InvalidResponseVersion,
    /// No authentication method suits both sides.
    NoAcceptableAuthMethods,
    /// An authentication method, or a reply's status byte, that is not known.
    UnknownAuthMethod,
    /// The proxy failed in general.
    GeneralSocksServerFailure,
    /// The proxy's rules forbid the connection.
    ConnectionNotAllowedByRuleset,
    /// The network cannot be reached.
    NetworkUnreachable,
    /// The host cannot be reached.
    HostUnreachable,
    /// The destination refused.
    ConnectionRefused,
    /// The packet's time ran out.
    TtlExpired,
    /// The proxy does not support the command.
    CommandNotSupported,
    /// The proxy does not support the type of address.
    AddressTypeNotSupported,
    /// Something else.
    UnknownError,
    /// The reserved byte is not zero.
    InvalidReservedByte,
    /// The reply's type of address is not known.
    UnknownAddressType,
    /// The credentials are malformed.
    InvalidAuthValues,
    /// The password was rejected.
    PasswordAuthFailure,
    /// The proxy wants authentication.
    AuthorizationRequired,
    /// The proxy could not confirm the user through identd.
    IdentdAuthFailure,
    /// The user reported by identd is another.
    InvalidUserIdAuthFailure,
}

/// Whether a failure is a reply the upstream sent, however it judged the destination.
pub open spec fn is_reply(failure: SocksFailure) -> bool {
    ||| failure == SocksFailure::GeneralSocksServerFailure
    ||| failure == SocksFailure::ConnectionNotAllowedByRuleset
    ||| failure == SocksFailure::NetworkUnreachable
    ||| failure == SocksFailure::HostUnreachable
    ||| failure == SocksFailure::ConnectionRefused
    ||| failure == SocksFailure::TtlExpired
    ||| failure == SocksFailure::AddressTypeNotSupported
    ||| failure == SocksFailure::CommandNotSupported
    ||| failure == SocksFailure::UnknownAuthMethod
    ||| failure == SocksFailure::InvalidTargetAddress
}

/// Splits a dial failure by whether the upstream answered at all.
///
/// Any SOCKS5 reply proves the upstream is alive, however it judged the destination, so a refusal
/// it sent belongs to the destination. Only a failure to obtain a well-formed reply means the
/// upstream itself is gone.
///
/// `UnknownAuthMethod` sits on the answered side despite its name: it is raised both for an auth
/// method that cannot be used and, on the reply path, for any status byte outside those the
/// protocol assigns, and real proxies do send those.
pub fn failed_dial(failure: SocksFailure) -> (r: Carried)
    ensures
        r == if is_reply(failure) {
            Carried::Destination
        } else {
            Carried::Upstream
        },
{
    match failure {
        SocksFailure::GeneralSocksServerFailure
        | SocksFailure::ConnectionNotAllowedByRuleset
        | SocksFailure::NetworkUnreachable
        | SocksFailure::HostUnreachable
        | SocksFailure::ConnectionRefused
        | SocksFailure::TtlExpired
        | SocksFailure::AddressTypeNotSupported
        | SocksFailure::CommandNotSupported
        | SocksFailure::UnknownAuthMethod
        | SocksFailure::InvalidTargetAddress => Carried::Destination,
        SocksFailure::Io
        | SocksFailure::ParseError
        | SocksFailure::ProxyServerUnreachable
        | SocksFailure::InvalidResponseVersion
        | SocksFailure::NoAcceptableAuthMethods
        | SocksFailure::UnknownError
        | SocksFailure::InvalidReservedByte
        | SocksFailure::UnknownAddressType
        | SocksFailure::InvalidAuthValues
        | SocksFailure::PasswordAuthFailure
        | SocksFailure::AuthorizationRequired
        | SocksFailure::IdentdAuthFailure
        | SocksFailure::InvalidUserIdAuthFailure => Carried::Upstream,
    }
}

/// A `require` destination is never dialled directly, and it is turned away without a dial exactly
/// where no upstream is configured, whatever the verdict says. Once dialled it is reported as handed
/// to the upstream, however that ended.
pub proof fn law_require_never_goes_direct(
    decision: Decision,
    upstream: SocketAddr,
    health: HealthState,
    carried: Carried,
)
    requires
        decision matches Decision::Upstream { class, .. } && class == RuleClass::Require,
    ensures
        attempt(decision, upstream, health) == if upstream == no_upstream_addr() {
            Attempt::Refused
        } else {
            Attempt::Through(UpstreamBudget::Require)
        },
        following(UpstreamBudget::Require, carried) != Next::FallBack,
        reported(attempt(decision, upstream, health), carried) == if upstream
            == no_upstream_addr() {
            None
        } else {
            Some(EffectiveHop::Upstream)
        },
{
}

/// A refusal belongs to `require` alone. Whether such a destination was turned away for want of an
/// upstream or the upstream failed to carry it, the refusal names this upstream and this rule: HTTP
/// is told so in a 502, SOCKS5 with the reply 0x04. It comes after a dial exactly where the upstream
/// itself could not carry the connection.
pub proof fn law_a_refusal_names_the_upstream_and_the_rule(
    decision: Decision,
    upstream: SocketAddr,
    health: HealthState,
    carried: Carried,
    refusal: Option<UpstreamDown>,
    host: Seq<char>,
    port: u16,
)
    requires
        is_refusal(decision, upstream, refusal),
    ensures
        match decision {
            Decision::Upstream { class: RuleClass::Require, rule } => {
                &&& attempt(decision, upstream, health) matches Attempt::Through(budget)
                    ==> (following(budget, carried) == Next::UpstreamDown <==> carried
                    == Carried::Upstream)
                &&& http::failure_answer(refusal, host, port) == http::answer(
                    "502 Bad Gateway"@,
                    "nhop: upstream "@ + socket_text(upstream) + " is down (require rule "@
                        + decimal(rule.0 as nat) + ")"@,
                )
                &&& socks5::replied(Loop::Elsewhere, Err(refusal)) == socks5::Reply::HostUnreachable
                &&& socks5::refused_with(refusal).byte() == 0x04
            },
            _ => {
                &&& refusal is None
                &&& attempt(decision, upstream, health) != Attempt::Refused
                &&& attempt(decision, upstream, health) matches Attempt::Through(budget)
                    ==> following(budget, carried) != Next::UpstreamDown
            },
        },
{
}

/// A `prefer` destination always has a route. While the verdict is down it is dialled directly
/// without asking the upstream; while it is up the upstream is dialled first, and whatever goes
/// wrong there it is dialled directly after all. Only a connection the upstream carries is reported
/// as handed to it; every direct dial is reported as a fallback.
pub proof fn law_prefer_always_has_a_route(
    decision: Decision,
    upstream: SocketAddr,
    health: HealthState,
    carried: Carried,
)
    requires
        decision matches Decision::Upstream { class, .. } && class == RuleClass::Prefer,
    ensures
        attempt(decision, upstream, health) == match health {
            HealthState::Down => Attempt::Direct(EffectiveHop::FallbackDirect),
            HealthState::Up => Attempt::Through(UpstreamBudget::Prefer),
        },
        following(UpstreamBudget::Prefer, carried) == if carried == Carried::Connected {
            Next::Relay
        } else {
            Next::FallBack
        },
        reported(attempt(decision, upstream, health), carried) == if health == HealthState::Up
            && carried == Carried::Connected {
            Some(EffectiveHop::Upstream)
        } else {
            Some(EffectiveHop::FallbackDirect)
        },
{
}

/// One real dial through the published upstream settles the verdict at once: down where the upstream
/// itself could not carry the connection, up where it did or where it answered about the
/// destination.
pub proof fn law_a_dial_settles_the_verdict(health: Health, carried: Carried, now: SystemTime)
    ensures
        health.after(verdict(carried), now).state == if carried == Carried::Upstream {
            HealthState::Down
        } else {
            HealthState::Up
        },
{
}

/// A connection to the address it was accepted on is turned away without a dial, whatever the rules
/// and the upstream are, and reported without a hop: HTTP is told so in a 502 that names the
/// address, SOCKS5 with the reply 0x02.
pub proof fn law_a_loop_is_refused_without_a_dial(
    listening: SocketAddr,
    host: Seq<char>,
    port: u16,
    decision: Decision,
    upstream: SocketAddr,
    health: HealthState,
    carried: Carried,
    method: http::Method,
    dialled: Result<(), Option<UpstreamDown>>,
)
    requires
        loops(host, port, listening),
    ensures
        ({
            let looped = looped_at(Some(listening), host, port);
            &&& opened(looped, decision, upstream, health) == Attempt::Own(listening)
            &&& reported(opened(looped, decision, upstream, health), carried) is None
            &&& http::replied(looped, dialled, method, host, port) == Some(
                http::loop_answer(listening),
            )
            &&& socks5::replied(looped, dialled) == socks5::Reply::NotAllowed
            &&& socks5::replied(looped, dialled).byte() == 0x02
        }),
{
}

/// A destination no rule or a `never` rule decided is dialled directly whatever the upstream is.
pub proof fn law_direct_ignores_the_upstream(
    decision: Decision,
    upstream: SocketAddr,
    health: HealthState,
)
    requires
        decision is Direct || decision is Never,
    ensures
        attempt(decision, upstream, health) == Attempt::Direct(EffectiveHop::Direct),
{
}

/// A failure speaks against the upstream only where it got no well-formed reply out of it; whatever
/// else it answered is about the destination.
pub proof fn law_only_silence_speaks_against_the_upstream(failure: SocksFailure)
    ensures
        !is_reply(failure) <==> failure == SocksFailure::Io || failure == SocksFailure::ParseError
            || failure == SocksFailure::ProxyServerUnreachable || failure
            == SocksFailure::InvalidResponseVersion || failure
            == SocksFailure::NoAcceptableAuthMethods || failure == SocksFailure::UnknownError
            || failure == SocksFailure::InvalidReservedByte || failure
            == SocksFailure::UnknownAddressType || failure == SocksFailure::InvalidAuthValues
            || failure == SocksFailure::PasswordAuthFailure || failure
            == SocksFailure::AuthorizationRequired || failure == SocksFailure::IdentdAuthFailure
            || failure == SocksFailure::InvalidUserIdAuthFailure,
{
}

/// A dial with a direct route behind it is given two seconds, one without ten, and an idle relay is
/// probed after fifteen seconds and given up after four probes fifteen seconds apart.
pub proof fn law_how_long_a_dial_may_take()
    ensures
        UpstreamBudget::Prefer.millis() == 2 * 1000,
        UpstreamBudget::Require.millis() == 10 * 1000,
        KEEPALIVE_IDLE == 15 * 1000,
        KEEPALIVE_INTERVAL == 15 * 1000,
        KEEPALIVE_RETRIES == 4,
{
}

/// A connection that is no loop does what its decision says, and is reported with the hop it took.
pub proof fn law_a_connection_elsewhere_goes_by_its_decision(
    decision: Decision,
    upstream: SocketAddr,
    health: HealthState,
    carried: Carried,
)
    ensures
        opened(Loop::Elsewhere, decision, upstream, health) == attempt(decision, upstream, health),
        decision is Direct || decision is Never ==> reported(
            opened(Loop::Elsewhere, decision, upstream, health),
            carried,
        ) == Some(EffectiveHop::Direct),
        handed_to(Next::FallBack) == EffectiveHop::FallbackDirect,
        handed_to(Next::Relay) == EffectiveHop::Upstream,
        handed_to(Next::Fail) == EffectiveHop::Upstream,
        handed_to(Next::UpstreamDown) == EffectiveHop::Upstream,
{
}

/// What follows a dial through the upstream, for either budget and every way it can end.
pub proof fn law_what_follows_a_dial()
    ensures
        following(UpstreamBudget::Require, Carried::Connected) == Next::Relay,
        following(UpstreamBudget::Require, Carried::Destination) == Next::Fail,
        following(UpstreamBudget::Require, Carried::Upstream) == Next::UpstreamDown,
        following(UpstreamBudget::Prefer, Carried::Connected) == Next::Relay,
        following(UpstreamBudget::Prefer, Carried::Destination) == Next::FallBack,
        following(UpstreamBudget::Prefer, Carried::Upstream) == Next::FallBack,
{
}

} // verus!
