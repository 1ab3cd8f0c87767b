use nhop::daemon::staging::LOAD_TIMEOUT;
use nhop::ipc::{EffectiveHop, HealthState, RuleClass};
use nhop::net::SocketAddr;
use nhop::proxy::events::no_upstream;
use nhop::proxy::{Loop, UpstreamDown};
use nhop::rules::{Decision, RuleId};
use nhop::time::SystemTime;
use nhop::upstream::hop::{answered, failed_dial, observed, opening, refused, routed, taken};
use nhop::upstream::patrol::{advance, probe, Advanced, Look, Probed};
use nhop::upstream::{
    Attempt, Carried, Health, Next, Patrol, Pending, SocksFailure, Turnover, UpstreamBudget,
    VerdictCause, KEEPALIVE_IDLE, KEEPALIVE_INTERVAL, KEEPALIVE_RETRIES, NO_UPSTREAM_EAGER,
    NO_UPSTREAM_TICK, PREFER_CONNECT_TIMEOUT, PROBE_CONFIRM_DELAY, PROBE_INTERVAL, PROBE_TIMEOUT,
    REQUIRE_CONNECT_TIMEOUT,
};

fn at(secs: i64) -> SystemTime {
    SystemTime { secs, nanos: 0 }
}

fn addr(text: &str) -> SocketAddr {
    SocketAddr::parse(text).unwrap()
}

fn upstream() -> SocketAddr {
    addr("192.0.2.10:1080")
}

fn decided(class: RuleClass) -> Decision {
    Decision::Upstream {
        class,
        rule: RuleId(4),
    }
}

#[test]
fn a_fresh_verdict_is_down() {
    let health = Health::starting(at(1));
    assert_eq!(health.state, HealthState::Down);
    assert_eq!(health.changed_at, at(1));
}

#[test]
fn one_success_flips_up_and_moves_the_instant() {
    let health = Health::starting(at(1)).settle(HealthState::Up, at(2));

    assert_eq!(health.state, HealthState::Up);
    assert_eq!(health.changed_at, at(2));
}

#[test]
fn one_failure_flips_down_and_moves_the_instant() {
    let health = Health::starting(at(1))
        .settle(HealthState::Up, at(2))
        .settle(HealthState::Down, at(3));

    assert_eq!(health.state, HealthState::Down);
    assert_eq!(health.changed_at, at(3));
}

#[test]
fn an_observation_that_confirms_the_verdict_leaves_the_instant_alone() {
    let settled = Health::starting(at(1)).settle(HealthState::Up, at(2));

    assert_eq!(settled.settle(HealthState::Up, at(3)), settled);
    assert_eq!(settled.settle(HealthState::Up, at(4)), settled);
}

#[test]
fn a_repeated_verdict_emits_no_line() {
    let health = Health::starting(at(1));
    assert_eq!(health.turnover(HealthState::Down, VerdictCause::Probe), None);
    assert_eq!(health.turnover(HealthState::Down, VerdictCause::Dial), None);
}

#[test]
fn a_turnover_emits_one_line_with_its_cause() {
    let health = Health::starting(at(1));
    assert_eq!(
        health.turnover(HealthState::Up, VerdictCause::Dial),
        Some(Turnover {
            from: HealthState::Down,
            to: HealthState::Up,
            cause: VerdictCause::Dial,
        })
    );
    let settled = health.settle(HealthState::Up, at(2));
    assert_eq!(settled.turnover(HealthState::Up, VerdictCause::Probe), None);
}

#[test]
fn a_direct_decision_reaches_the_destination_itself() {
    assert_eq!(
        routed(Decision::Direct, upstream(), HealthState::Down),
        Attempt::Direct(EffectiveHop::Direct)
    );
}

#[test]
fn a_never_decision_reaches_the_destination_itself() {
    assert_eq!(
        routed(
            Decision::Never { rule: RuleId(2) },
            upstream(),
            HealthState::Up
        ),
        Attempt::Direct(EffectiveHop::Direct)
    );
}

#[test]
fn a_never_class_reaching_the_upstream_arm_still_dials_directly() {
    assert_eq!(
        routed(decided(RuleClass::Never), upstream(), HealthState::Up),
        Attempt::Direct(EffectiveHop::Direct)
    );
}

#[test]
fn a_require_decision_dials_a_configured_upstream_while_the_verdict_is_down() {
    for state in [HealthState::Up, HealthState::Down] {
        assert_eq!(
            routed(decided(RuleClass::Require), upstream(), state),
            Attempt::Through(UpstreamBudget::Require)
        );
        assert_eq!(
            routed(decided(RuleClass::Require), no_upstream(), state),
            Attempt::Refused
        );
    }
}

#[test]
fn a_require_dial_never_falls_back() {
    let budget = UpstreamBudget::Require;
    assert_eq!(answered(budget, Carried::Connected), Next::Relay);
    assert_eq!(answered(budget, Carried::Destination), Next::Fail);
    assert_eq!(answered(budget, Carried::Upstream), Next::UpstreamDown);
}

#[test]
fn a_prefer_decision_always_has_a_route() {
    let prefer = decided(RuleClass::Prefer);
    assert_eq!(
        routed(prefer, upstream(), HealthState::Down),
        Attempt::Direct(EffectiveHop::FallbackDirect)
    );
    assert_eq!(
        routed(prefer, upstream(), HealthState::Up),
        Attempt::Through(UpstreamBudget::Prefer)
    );
    let budget = UpstreamBudget::Prefer;
    assert_eq!(answered(budget, Carried::Connected), Next::Relay);
    assert_eq!(answered(budget, Carried::Destination), Next::FallBack);
    assert_eq!(answered(budget, Carried::Upstream), Next::FallBack);
}

#[test]
fn a_dial_judges_the_upstream_it_went_to_and_no_other() {
    let up = Health::starting(at(1)).settle(HealthState::Up, at(2));
    assert_eq!(
        observed(upstream(), upstream(), up, Carried::Upstream, at(3)),
        (
            Health {
                state: HealthState::Down,
                changed_at: at(3),
            },
            Some(Turnover {
                from: HealthState::Up,
                to: HealthState::Down,
                cause: VerdictCause::Dial,
            })
        )
    );
    assert_eq!(
        observed(upstream(), upstream(), up, Carried::Destination, at(3)),
        (up, None)
    );
    let replaced = addr("192.0.2.11:1080");
    assert_eq!(
        observed(replaced, upstream(), up, Carried::Upstream, at(3)),
        (up, None)
    );
}

#[test]
fn a_reply_about_the_destination_is_told_from_a_dead_upstream() {
    for reply in [
        SocksFailure::GeneralSocksServerFailure,
        SocksFailure::ConnectionNotAllowedByRuleset,
        SocksFailure::NetworkUnreachable,
        SocksFailure::HostUnreachable,
        SocksFailure::ConnectionRefused,
        SocksFailure::TtlExpired,
        SocksFailure::AddressTypeNotSupported,
        SocksFailure::CommandNotSupported,
        SocksFailure::UnknownAuthMethod,
        SocksFailure::InvalidTargetAddress,
    ] {
        assert_eq!(failed_dial(reply), Carried::Destination, "{reply:?}");
        assert_eq!(probe(Probed::Failed(reply)), HealthState::Up, "{reply:?}");
    }
    for silence in [
        SocksFailure::Io,
        SocksFailure::ParseError,
        SocksFailure::ProxyServerUnreachable,
        SocksFailure::InvalidResponseVersion,
        SocksFailure::NoAcceptableAuthMethods,
        SocksFailure::UnknownError,
        SocksFailure::InvalidReservedByte,
        SocksFailure::UnknownAddressType,
        SocksFailure::InvalidAuthValues,
        SocksFailure::PasswordAuthFailure,
        SocksFailure::AuthorizationRequired,
        SocksFailure::IdentdAuthFailure,
        SocksFailure::InvalidUserIdAuthFailure,
    ] {
        assert_eq!(failed_dial(silence), Carried::Upstream, "{silence:?}");
        assert_eq!(probe(Probed::Failed(silence)), HealthState::Down, "{silence:?}");
    }
    assert_eq!(probe(Probed::TimedOut), HealthState::Down);
    assert_eq!(probe(Probed::Reached), HealthState::Up);
}

#[test]
fn two_probes_that_agree_move_the_verdict() {
    let opened = advance(None, HealthState::Up, upstream(), HealthState::Down);
    assert_eq!(
        opened,
        Advanced {
            pending: Some(Pending {
                target: HealthState::Up,
                addr: upstream(),
            }),
            moved: None,
        }
    );
    assert_eq!(
        advance(opened.pending, HealthState::Up, upstream(), HealthState::Down),
        Advanced {
            pending: None,
            moved: Some(HealthState::Up),
        }
    );
}

#[test]
fn a_sequence_does_not_close_on_another_upstream_or_another_verdict() {
    let opened = advance(None, HealthState::Down, upstream(), HealthState::Up).pending;
    let replaced = addr("192.0.2.11:1080");
    assert_eq!(
        advance(opened, HealthState::Down, replaced, HealthState::Up).moved,
        None
    );
    assert_eq!(
        advance(opened, HealthState::Up, upstream(), HealthState::Down).moved,
        None
    );
    assert_eq!(
        advance(opened, HealthState::Up, upstream(), HealthState::Up),
        Advanced {
            pending: None,
            moved: None,
        }
    );
}

#[test]
fn the_patrol_waits_for_an_upstream_and_then_probes_it_at_once() {
    let mut patrol = Patrol::new();
    assert_eq!(
        patrol.look(no_upstream(), PROBE_INTERVAL),
        Look::Wait(NO_UPSTREAM_TICK)
    );
    assert_eq!(patrol.looking, NO_UPSTREAM_TICK);
    patrol.looking = NO_UPSTREAM_EAGER;
    assert_eq!(
        patrol.look(no_upstream(), PROBE_INTERVAL),
        Look::Wait(PROBE_INTERVAL)
    );
    assert_eq!(patrol.look(upstream(), PROBE_INTERVAL), Look::Probe(upstream()));
    assert_eq!(patrol.looking, 0);
    assert_eq!(
        patrol.probed(
            HealthState::Up,
            upstream(),
            HealthState::Down,
            PROBE_INTERVAL,
            PROBE_CONFIRM_DELAY
        ),
        (None, PROBE_CONFIRM_DELAY)
    );
    assert_eq!(
        patrol.probed(
            HealthState::Up,
            upstream(),
            HealthState::Down,
            PROBE_INTERVAL,
            PROBE_CONFIRM_DELAY
        ),
        (Some(HealthState::Up), PROBE_INTERVAL)
    );
}

#[test]
fn the_eager_window_outlasts_a_load_that_publishes_late() {
    assert!(
        NO_UPSTREAM_EAGER > LOAD_TIMEOUT,
        "the first load publishes on commit and its timeout starts after this window does, so \
         the fast tick has to outlast the whole run: {NO_UPSTREAM_EAGER:?} against \
         {LOAD_TIMEOUT:?}"
    );
}

#[test]
fn the_budgets_differ_by_class() {
    assert_eq!(UpstreamBudget::Prefer.allowance(), PREFER_CONNECT_TIMEOUT);
    assert_eq!(UpstreamBudget::Require.allowance(), REQUIRE_CONNECT_TIMEOUT);
    assert_eq!(PREFER_CONNECT_TIMEOUT, 2_000);
    assert_eq!(REQUIRE_CONNECT_TIMEOUT, 10_000);
    assert_eq!(PROBE_TIMEOUT, 2_000);
    assert_eq!(KEEPALIVE_IDLE, 15_000);
    assert_eq!(KEEPALIVE_INTERVAL, 15_000);
    assert_eq!(KEEPALIVE_RETRIES, 4);
    assert_eq!(
        UpstreamBudget::Require.unanswered(upstream()),
        "the upstream 192.0.2.10:1080 did not answer within 10s"
    );
}

#[test]
fn a_refusal_names_the_upstream_and_the_rule_of_a_require_decision_alone() {
    assert_eq!(
        refused(decided(RuleClass::Require), upstream()),
        Some(UpstreamDown::new(upstream(), RuleId(4)))
    );
    assert_eq!(
        refused(decided(RuleClass::Require), no_upstream()),
        Some(UpstreamDown::new(no_upstream(), RuleId(4)))
    );
    assert_eq!(refused(decided(RuleClass::Prefer), upstream()), None);
    assert_eq!(refused(decided(RuleClass::Never), upstream()), None);
    assert_eq!(refused(Decision::Direct, upstream()), None);
    assert_eq!(refused(Decision::Never { rule: RuleId(4) }, upstream()), None);
}

#[test]
fn a_fallback_is_reported_as_one_and_everything_else_as_the_upstream() {
    for carried in [Carried::Connected, Carried::Destination, Carried::Upstream] {
        let required = answered(UpstreamBudget::Require, carried);
        assert_eq!(taken(required), EffectiveHop::Upstream);
    }
    let relayed = answered(UpstreamBudget::Prefer, Carried::Connected);
    assert_eq!(taken(relayed), EffectiveHop::Upstream);
    for carried in [Carried::Destination, Carried::Upstream] {
        let preferred = answered(UpstreamBudget::Prefer, carried);
        assert_eq!(taken(preferred), EffectiveHop::FallbackDirect);
    }
}

#[test]
fn a_destination_that_is_the_front_end_itself_is_not_dialled() {
    let own = addr("127.0.0.1:7890");
    for decision in [Decision::Direct, decided(RuleClass::Require), decided(RuleClass::Prefer)] {
        for state in [HealthState::Up, HealthState::Down] {
            assert_eq!(
                opening(Loop::Own(own), decision, upstream(), state),
                Attempt::Own(own)
            );
            assert_eq!(
                opening(Loop::Elsewhere, decision, upstream(), state),
                routed(decision, upstream(), state)
            );
        }
    }
}
