use nhop::ipc::{
    DecisionKind, EffectiveHop, EventView, HealthState, Host, Port, RuleClass, RuleKind, RuleValue,
    UpstreamAddr,
};
use nhop::net::SocketAddr;
use nhop::proxy::events::{begin, dials_itself, own_address};
use nhop::proxy::{
    Connect, Delivery, Dialled, DialsItself, InvalidUpstream, Loop, Offered, Routed, Subscriber,
    Upstream, UpstreamDown, SUBSCRIBER_CAPACITY,
};
use nhop::rules::{Decision, RuleId, Ruleset};
use nhop::time::Duration;

fn addr(text: &str) -> SocketAddr {
    SocketAddr::parse(text).unwrap()
}

fn upstream(written: &str) -> Result<Upstream, InvalidUpstream> {
    Upstream::parse(UpstreamAddr(written.to_owned()))
}

#[test]
fn an_upstream_keeps_the_written_form_and_the_dialable_one() {
    let parsed = upstream("socks5://192.0.2.10:1080").unwrap();
    assert_eq!(
        parsed.written(),
        &UpstreamAddr("socks5://192.0.2.10:1080".to_owned())
    );
    assert_eq!(parsed.socket(), addr("192.0.2.10:1080"));
}

#[test]
fn an_upstream_without_a_scheme_is_accepted() {
    let parsed = upstream("192.0.2.10:1080").unwrap();
    assert_eq!(parsed.socket(), addr("192.0.2.10:1080"));
}

#[test]
fn an_upstream_that_is_not_an_address_is_rejected() {
    let failure = upstream("socks5://vm.example.com:1080").unwrap_err();
    assert!(failure.message().contains("vm.example.com"), "{failure:?}");
    assert!(upstream("").is_err());
    assert!(upstream("socks5://192.0.2.10").is_err());
}

#[test]
fn an_upstream_is_read_past_the_space_around_it() {
    let parsed = upstream(" socks5://[2001:db8::1]:1080\n").unwrap();
    assert_eq!(parsed.socket(), addr("[2001:db8::1]:1080"));
    assert_eq!(
        upstream(" http://a ").unwrap_err().message(),
        "upstream must be socks5://<ip>:<port>, got \"http://a\""
    );
}

fn loops(destination: &str, port: u16, listening: &str) -> bool {
    dials_itself(&Host(destination.to_owned()), Port(port), addr(listening))
}

#[test]
fn a_front_end_asked_for_its_own_address_sees_a_loop() {
    assert!(loops("127.0.0.1", 7890, "127.0.0.1:7890"));
    assert!(loops("localhost", 7890, "127.0.0.1:7890"));
}

#[test]
fn an_ipv4_mapped_destination_is_the_address_it_maps_to() {
    assert!(loops("::ffff:127.0.0.1", 7890, "127.0.0.1:7890"));
    assert!(loops("::1", 7890, "[::1]:7890"));
    assert!(loops("127.0.0.1", 7890, "[::ffff:127.0.0.1]:7890"));
    assert!(loops("localhost", 7890, "[::ffff:127.0.0.1]:7890"));
    assert!(!loops("localhost", 7890, "[::ffff:192.168.1.5]:7890"));
}

#[test]
fn an_unspecified_destination_lands_on_a_local_address_so_it_is_a_loop() {
    assert!(loops("0.0.0.0", 7890, "127.0.0.1:7890"));
    assert!(loops("::", 7890, "127.0.0.1:7890"));
    assert!(loops("0.0.0.0", 7890, "192.168.1.5:7890"));
}

#[test]
fn a_name_written_as_the_host_would_write_it_still_matches() {
    assert!(loops("LocalHost", 7890, "127.0.0.1:7890"));
    assert!(loops("localhost.", 7890, "127.0.0.1:7890"));
    assert!(loops("LOCALHOST.", 7890, "127.0.0.1:7890"));
}

#[test]
fn another_address_on_the_same_port_is_not_a_loop() {
    assert!(!loops("127.0.0.2", 7890, "127.0.0.1:7890"));
    assert!(!loops("192.0.2.10", 7890, "127.0.0.1:7890"));
}

#[test]
fn a_front_end_off_the_loopback_refuses_its_own_address_and_not_the_name() {
    assert!(loops("192.168.1.5", 7890, "192.168.1.5:7890"));
    assert!(!loops("localhost", 7890, "192.168.1.5:7890"));
    assert!(!loops("127.0.0.1", 7890, "192.168.1.5:7890"));
}

#[test]
fn the_same_host_on_another_port_is_not_a_loop() {
    assert!(!loops("127.0.0.1", 19998, "127.0.0.1:7890"));
    assert!(!loops("localhost", 19998, "127.0.0.1:7890"));
    assert!(!loops("127.0.0.1", 7891, "127.0.0.1:7890"));
}

#[test]
fn a_short_form_is_not_caught_because_names_are_not_resolved() {
    assert!(!loops("127.1", 7890, "127.0.0.1:7890"));
    assert!(!loops("localhost.localdomain", 7890, "127.0.0.1:7890"));
}

#[test]
fn a_socket_that_cannot_name_itself_is_no_loop() {
    let host = Host("127.0.0.1".to_owned());
    assert_eq!(own_address(None, &host, Port(7890)), Loop::Elsewhere);
    assert_eq!(
        own_address(Some(addr("127.0.0.1:7890")), &host, Port(7890)),
        Loop::Own(addr("127.0.0.1:7890"))
    );
}

#[test]
fn the_loop_refusal_names_the_address_it_was_reached_on() {
    let refused = DialsItself::new(addr("127.0.0.1:7890"));
    assert_eq!(
        refused.message(),
        "nhop: refusing to dial my own listening address 127.0.0.1:7890"
    );
}

#[test]
fn the_refusal_names_the_upstream_and_the_rule() {
    let down = UpstreamDown::new(addr("192.0.2.10:1080"), RuleId(3));
    assert_eq!(
        down.message(),
        "nhop: upstream 192.0.2.10:1080 is down (require rule 3)"
    );
}

fn event() -> EventView {
    EventView {
        host: Host("example.com".to_owned()),
        port: Port(443),
        decision: DecisionKind::Direct,
        rule_index: None,
        class: None,
        upstream: HealthState::Down,
        connect_ms: Some(0),
        hop: Some(EffectiveHop::Direct),
        duration_ms: 1,
        error: None,
    }
}

#[test]
fn a_subscriber_that_missed_nothing_gets_the_event_as_it_is() {
    let subscriber = Subscriber { dropped: 0 };
    assert_eq!(subscriber.offering(&event()), event());
}

#[test]
fn a_subscriber_that_hung_up_is_removed_at_the_next_publish() {
    let mut subscriber = Subscriber { dropped: 0 };
    assert_eq!(subscriber.offered(Offered::Closed), Delivery::Gone);
}

#[test]
fn a_connection_never_waits_for_a_subscriber_that_stopped_reading() {
    let mut subscriber = Subscriber { dropped: 0 };
    for _filled in 0..SUBSCRIBER_CAPACITY {
        assert_eq!(subscriber.offered(Offered::Taken), Delivery::Kept);
    }
    assert_eq!(subscriber.offered(Offered::Full), Delivery::Kept);
    let reported = subscriber.offering(&event());
    assert_eq!(reported.error, Some("dropped 1".to_owned()));
    assert_eq!(subscriber.offered(Offered::Taken), Delivery::Kept);
    assert_eq!(subscriber.offering(&event()).error, None);
}

#[test]
fn a_drop_report_keeps_the_failure_the_event_it_rides_on_carried() {
    let mut subscriber = Subscriber { dropped: 0 };
    subscriber.offered(Offered::Full);
    subscriber.offered(Offered::Full);
    let mut failed = event();
    failed.error = Some("reset by peer".to_owned());
    let reported = subscriber.offering(&failed);
    assert_eq!(reported.error, Some("dropped 2: reset by peer".to_owned()));
    assert_eq!(reported.host, failed.host);
    let mut endless = Subscriber { dropped: u64::MAX };
    endless.offered(Offered::Full);
    assert_eq!(endless.dropped, u64::MAX);
}

fn span(millis: u32) -> Duration {
    Duration {
        secs: 0,
        nanos: millis * 1_000_000,
    }
}

#[test]
fn a_dial_that_was_made_reports_its_time_and_a_refusal_reports_none() {
    let host = Host("api.example.com".to_owned());

    let mut attempted = Routed::begun(&host, Port(443), Decision::Direct, HealthState::Down);
    attempted.dialled(Connect::Attempted {
        hop: EffectiveHop::Direct,
        took: span(41),
    });
    let attempted = attempted.ended(span(50), None);
    let mut refused = Routed::begun(&host, Port(443), Decision::Direct, HealthState::Down);
    refused.dialled(Connect::Refused);
    let refused = refused.ended(span(1), None);

    assert_eq!(attempted.connect_ms, Some(41));
    assert_eq!(attempted.hop, Some(EffectiveHop::Direct));
    assert_eq!(attempted.duration_ms, 50);
    assert_eq!(refused.connect_ms, None);
    assert_eq!(refused.hop, None);
}

#[test]
fn an_event_tells_the_decision_and_the_failure() {
    let routed = Routed::begun(
        &Host("a".to_owned()),
        Port(1),
        Decision::Upstream {
            class: RuleClass::Prefer,
            rule: RuleId(usize::MAX),
        },
        HealthState::Up,
    );
    let event = routed.ended(span(2), Some("refused".to_owned()));
    assert_eq!(event.decision, DecisionKind::Upstream);
    assert_eq!(event.rule_index, Some(u32::MAX));
    assert_eq!(event.class, Some(RuleClass::Prefer));
    assert_eq!(event.upstream, HealthState::Up);
    assert_eq!(event.error, Some("refused".to_owned()));
}

#[test]
fn a_refused_dial_has_no_time() {
    let refused: Dialled<u8, &str> = Dialled::Refused("down");
    assert_eq!(refused.timed(span(9)), (Connect::Refused, Err("down")));
    let attempted: Dialled<u8, &str> = Dialled::Attempted {
        hop: EffectiveHop::Upstream,
        next: Ok(7),
    };
    assert_eq!(
        attempted.timed(span(9)),
        (
            Connect::Attempted {
                hop: EffectiveHop::Upstream,
                took: span(9),
            },
            Ok(7)
        )
    );
}

#[test]
fn a_connection_is_routed_by_the_rules_and_checked_for_a_loop() {
    let mut rules = Ruleset::default();
    rules
        .push(
            RuleClass::Require,
            RuleKind::Port,
            RuleValue("7890".to_owned()),
        )
        .unwrap();
    let begun = begin(
        &rules,
        HealthState::Up,
        Some(addr("127.0.0.1:7890")),
        &Host("localhost".to_owned()),
        Port(7890),
    );
    assert_eq!(begun.looped, Loop::Own(addr("127.0.0.1:7890")));
    assert_eq!(
        begun.routed.decision,
        Decision::Upstream {
            class: RuleClass::Require,
            rule: RuleId(0),
        }
    );
    assert_eq!(begun.routed.connect, Connect::Refused);
}
