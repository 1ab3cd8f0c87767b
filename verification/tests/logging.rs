use nhop::ipc::{
    DecisionKind, EffectiveHop, EventView, HealthState, Host, Paths, Port, RuleClass, Timestamp,
};
use nhop::logging::{
    decision, files, read_from, resumed, stamped, DecisionLine, Window, KEPT_FILES,
};
use nhop::names::{
    cause_name, class_name, decision_name, health_name, hop_name, outcome_name,
};
use nhop::time::{Duration, SystemTime};
use nhop::upstream::VerdictCause;

fn stamp(at: &str, host: &str) -> String {
    format!(
        r#"{{"timestamp":"{at}","level":"INFO","fields":{{"host":"{host}","port":443,"decision":"direct","upstream":"down","duration_ms":1}},"target":"nhop::logging"}}"#
    )
}

fn now() -> SystemTime {
    SystemTime {
        secs: 1_790_000_000,
        nanos: 500,
    }
}

fn quarter() -> Duration {
    Duration {
        secs: 900,
        nanos: 0,
    }
}

#[test]
fn an_emitted_line_carries_the_event_fields_and_nothing_else() {
    let matched = EventView {
        host: Host("api.example.com".to_owned()),
        port: Port(443),
        decision: DecisionKind::Upstream,
        rule_index: Some(3),
        class: Some(RuleClass::Require),
        upstream: HealthState::Up,
        connect_ms: Some(2),
        hop: Some(EffectiveHop::Upstream),
        duration_ms: 17,
        error: Some("reset by peer".to_owned()),
    };
    assert_eq!(
        decision(&matched),
        DecisionLine {
            host: "api.example.com",
            port: 443,
            decision: "upstream",
            rule_index: Some(3),
            class: Some("require"),
            upstream: "up",
            connect_ms: Some(2),
            hop: Some("upstream"),
            duration_ms: 17,
            error: Some("reset by peer"),
        }
    );
    let unmatched = EventView {
        host: Host("example.net".to_owned()),
        port: Port(80),
        decision: DecisionKind::Direct,
        rule_index: None,
        class: None,
        upstream: HealthState::Down,
        connect_ms: None,
        hop: None,
        duration_ms: 4,
        error: None,
    };
    let absent = decision(&unmatched);
    assert_eq!(absent.rule_index, None);
    assert_eq!(absent.connect_ms, None);
    assert_eq!(absent.hop, None);
    assert_eq!(absent.class, None);
    assert_eq!(absent.error, None);
}

#[test]
fn the_kept_files_are_returned_in_chronological_order() {
    let paths = Paths::from_home("/home/operator");
    let mut names = Vec::new();
    for day in ["2026-08-03", "2026-08-01", "2026-08-02"] {
        names.push(format!("nhop.log.{day}"));
    }
    names.push("nhop.pid".to_owned());

    assert_eq!(
        files(&paths, &names),
        vec![
            "/home/operator/.local/state/nhop/nhop.log.2026-08-01".to_owned(),
            "/home/operator/.local/state/nhop/nhop.log.2026-08-02".to_owned(),
            "/home/operator/.local/state/nhop/nhop.log.2026-08-03".to_owned(),
        ]
    );
    assert!(files(&paths, &Vec::new()).is_empty());
    assert_eq!(KEPT_FILES, 7);
}

#[test]
fn a_shorter_name_comes_before_the_one_it_begins() {
    let paths = Paths::from_home("");
    let names = vec![
        "nhop.log.b".to_owned(),
        "nhop.log".to_owned(),
        "nhop.log.b".to_owned(),
        "nhop.logs".to_owned(),
    ];
    assert_eq!(
        files(&paths, &names),
        vec![
            ".local/state/nhop/nhop.log".to_owned(),
            ".local/state/nhop/nhop.log.b".to_owned(),
            ".local/state/nhop/nhop.log.b".to_owned(),
            ".local/state/nhop/nhop.logs".to_owned(),
        ]
    );
}

#[test]
fn a_window_holds_only_the_lines_stamped_inside_it() {
    let fresh = stamp(&Timestamp(now()).text(), "fresh.example.com");
    let old = stamp("2026-08-01T00:00:00Z", "old.example.com");
    let window = Window::reaching_back(now(), quarter());

    assert!(window.holds(&fresh));
    assert!(!window.holds(&old));
    assert!(Window::All.holds(&old));
}

#[test]
fn a_window_begins_exactly_where_it_says() {
    let window = Window::Since(SystemTime {
        secs: 1_770_000_000,
        nanos: 500_000_000,
    });
    assert!(window.holds(&stamp("2026-02-02T02:40:00.5Z", "a")));
    assert!(!window.holds(&stamp("2026-02-02T02:40:00.499999999Z", "a")));
    assert_eq!(
        stamped(&stamp("2026-02-02T02:40:00Z", "a")),
        Some(SystemTime {
            secs: 1_770_000_000,
            nanos: 0,
        })
    );
}

#[test]
fn a_line_that_cannot_be_placed_in_time_is_outside_every_window() {
    let window = Window::reaching_back(now(), quarter());

    assert!(!window.holds("not json"));
    assert!(!window.holds(r#"{"level":"INFO"}"#));
    assert!(!window.holds(r#"{"timestamp":"yesterday"}"#));
    assert!(Window::All.holds("not json"));
}

#[test]
fn a_window_that_reaches_back_further_than_time_holds_everything() {
    let endless = Duration {
        secs: u64::MAX,
        nanos: 0,
    };
    assert_eq!(Window::reaching_back(now(), endless), Window::All);
    let ages = Duration {
        secs: 4_000_000_000,
        nanos: 0,
    };
    let window = Window::reaching_back(now(), ages);
    let start = SystemTime { secs: 0, nanos: 0 };
    assert!(window.covers(Some(start)));
    assert!(!window.covers(None));
}

#[test]
fn a_file_is_read_from_the_offset_the_previous_read_ended_at() {
    let (lines, offset) = read_from("first\nsecond\npart", resumed(17, 0));
    assert_eq!(lines, vec!["first".to_owned(), "second".to_owned()]);
    assert_eq!(offset, "first\nsecond\n".len() as u64);

    let (lines, offset) = read_from("part of a line\n", resumed(28, offset));
    assert_eq!(lines, vec!["part of a line".to_owned()]);
    assert_eq!(offset, "first\nsecond\npart of a line\n".len() as u64);

    let (lines, _offset) = read_from("", offset);
    assert!(lines.is_empty(), "{lines:?}");
}

#[test]
fn a_file_shorter_than_the_offset_is_read_from_its_start() {
    let offset = resumed(5, 4096);
    assert_eq!(offset, 0);
    let (lines, offset) = read_from("only\n", offset);

    assert_eq!(lines, vec!["only".to_owned()]);
    assert_eq!(offset, "only\n".len() as u64);
}

#[test]
fn an_offset_counts_bytes_and_a_line_loses_its_trailing_space() {
    let (lines, offset) = read_from("zürich \r\n\n naïve\nü", 3);
    assert_eq!(
        lines,
        vec!["zürich".to_owned(), String::new(), " naïve".to_owned()]
    );
    assert_eq!(offset, 3 + "zürich \r\n\n naïve\n".len() as u64);
}

#[test]
fn the_logged_names_are_the_names_the_wire_uses() {
    assert_eq!(decision_name(DecisionKind::Direct), "direct");
    assert_eq!(decision_name(DecisionKind::Never), "never");
    assert_eq!(decision_name(DecisionKind::Upstream), "upstream");
    assert_eq!(class_name(RuleClass::Require), "require");
    assert_eq!(class_name(RuleClass::Prefer), "prefer");
    assert_eq!(class_name(RuleClass::Never), "never");
    assert_eq!(health_name(HealthState::Up), "up");
    assert_eq!(health_name(HealthState::Down), "down");
    assert_eq!(cause_name(VerdictCause::Probe), "probe");
    assert_eq!(cause_name(VerdictCause::Dial), "dial");
    assert_eq!(hop_name(EffectiveHop::Direct), "direct");
    assert_eq!(hop_name(EffectiveHop::Upstream), "upstream");
    assert_eq!(hop_name(EffectiveHop::FallbackDirect), "fallback_direct");
    assert_eq!(outcome_name(nhop::ipc::LoadOutcome::TimedOut), "timed out");
}
