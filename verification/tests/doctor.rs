use nhop::cli::doctor::{
    checks, configured, daemon_reachable, exit_of, init_file, last_load, log_writable, ports_bound,
    refusal, report, system_proxy, upstream_reachable, Check, DialOutcome, Finding,
    Found, Outcome, NOT_CHECKED,
};
use nhop::cli::system_proxy::{NetworkService, ProxyEndpoint, ProxyFailure, SystemProxy};
use nhop::cli::{Exit, IoFailure, IoKind};
use nhop::daemon::listen::BindState;
use nhop::ipc::{CheckView, HealthState, LastLoadView, LoadOutcome, Timestamp, UpstreamAddr};
use nhop::net::SocketAddr;
use nhop::proxy::events::no_upstream;
use nhop::proxy::Listen;
use nhop::time::SystemTime;

fn addr(text: &str) -> SocketAddr {
    SocketAddr::parse(text).unwrap()
}

fn now() -> Timestamp {
    Timestamp(SystemTime {
        secs: 1_770_000_000,
        nanos: 5,
    })
}

fn failure(kind: IoKind) -> IoFailure {
    IoFailure {
        kind,
        text: "the system said no".to_owned(),
    }
}

fn listen() -> Listen {
    Listen {
        http: addr("127.0.0.1:7890"),
        socks: addr("127.0.0.1:7891"),
    }
}

fn service() -> NetworkService {
    NetworkService::default()
}

fn passing() -> Vec<Finding> {
    let mut findings = Vec::new();
    for check in checks() {
        findings.push(Finding::passed(check, "all is well".to_owned()));
    }
    findings
}

fn names(views: &[CheckView]) -> Vec<String> {
    let mut names = Vec::new();
    for CheckView {
        name,
        ok: _,
        detail: _,
    } in views
    {
        names.push(name.clone());
    }
    names
}

fn found(views: &[CheckView], check: Check) -> &CheckView {
    for view in views {
        if view.name == check.name() {
            return view;
        }
    }
    panic!("the report must carry {}", check.name());
}

#[test]
fn the_report_names_the_seven_checks_in_their_fixed_order() {
    let views = report(&passing());

    assert_eq!(
        names(&views),
        vec![
            "daemon_reachable".to_owned(),
            "ports_bound".to_owned(),
            "system_proxy".to_owned(),
            "upstream_reachable".to_owned(),
            "init_file".to_owned(),
            "last_load".to_owned(),
            "log_writable".to_owned(),
        ]
    );
}

#[test]
fn a_report_whose_checks_all_pass_exits_zero() {
    let views = report(&passing());

    assert_eq!(exit_of(&views), Exit::Success);
    assert_eq!(exit_of(&views).code(), 0);
    for CheckView {
        name,
        ok,
        detail: _,
    } in &views
    {
        assert!(ok, "{name}");
    }
}

#[test]
fn a_report_whose_only_failure_is_the_upstream_exits_three() {
    let mut findings = passing();
    findings[3] = Finding::failed(Check::UpstreamReachable, "the vm is off".to_owned());

    let views = report(&findings);

    assert_eq!(exit_of(&views), Exit::UpstreamDown);
    assert_eq!(exit_of(&views).code(), 3);
    assert_eq!(names(&views).len(), checks().len());
    assert!(!found(&views, Check::UpstreamReachable).ok);
    assert!(found(&views, Check::PortsBound).ok);
}

#[test]
fn a_report_with_a_failure_beyond_the_upstream_exits_one() {
    let mut findings = passing();
    findings[3] = Finding::failed(Check::UpstreamReachable, "the vm is off".to_owned());
    findings[5] = Finding::failed(Check::LastLoad, "the run failed".to_owned());

    let views = report(&findings);

    assert_eq!(exit_of(&views), Exit::Failed);
    assert_eq!(exit_of(&views).code(), 1);
    assert!(!found(&views, Check::LastLoad).ok);
}

#[test]
fn a_check_nobody_made_is_reported_as_failed() {
    let views = report(&vec![nhop::cli::doctor::unreachable("no daemon is listening")]);

    assert_eq!(names(&views).len(), checks().len());
    assert!(!found(&views, Check::DaemonReachable).ok);
    assert!(
        found(&views, Check::DaemonReachable)
            .detail
            .contains("nhop start")
    );
    assert_eq!(found(&views, Check::PortsBound).detail, NOT_CHECKED);
    assert_eq!(exit_of(&views), Exit::Failed);
}

#[test]
fn a_reachable_daemon_names_the_socket_it_answered_on() {
    let finding = daemon_reachable("/home/operator/.local/state/nhop/nhop.sock");

    assert_eq!(finding.outcome, Outcome::Passed);
    assert!(finding.detail.contains("nhop.sock"), "{}", finding.detail);
}

#[test]
fn bound_front_ends_pass_and_unbound_ones_name_both_addresses() {
    let bound = ports_bound(listen(), BindState::Bound);
    assert_eq!(bound.outcome, Outcome::Passed);
    assert!(bound.detail.contains("127.0.0.1:7890"), "{}", bound.detail);

    let unbound = ports_bound(listen(), BindState::Unbound);
    assert_eq!(unbound.outcome, Outcome::Failed);
    assert!(
        unbound.detail.contains("127.0.0.1:7891"),
        "{}",
        unbound.detail
    );
}

#[test]
fn a_system_proxy_pointing_at_the_front_ends_passes() {
    let configured = SystemProxy {
        http: Some(ProxyEndpoint::new("127.0.0.1", 7890)),
        https: Some(ProxyEndpoint::new("127.0.0.1", 7890)),
        socks: Some(ProxyEndpoint::new("127.0.0.1", 7891)),
    };

    let finding = system_proxy(Ok(configured), listen(), &service());

    assert_eq!(finding.outcome, Outcome::Passed);
    assert!(finding.detail.contains("Wi-Fi"), "{}", finding.detail);
}

#[test]
fn a_system_proxy_that_is_off_or_points_elsewhere_names_the_remedy() {
    let off = system_proxy(Ok(SystemProxy::default()), listen(), &service());
    assert_eq!(off.outcome, Outcome::Failed);
    assert!(off.detail.contains("http is off"), "{}", off.detail);
    assert!(off.detail.contains("sudo nhop proxy on"), "{}", off.detail);

    let elsewhere = SystemProxy {
        http: Some(ProxyEndpoint::new("127.0.0.1", 7890)),
        https: Some(ProxyEndpoint::new("127.0.0.1", 7890)),
        socks: Some(ProxyEndpoint::new("127.0.0.1", 1080)),
    };
    let elsewhere = system_proxy(Ok(elsewhere), listen(), &service());
    assert_eq!(elsewhere.outcome, Outcome::Failed);
    assert!(
        elsewhere.detail.contains("socks points at 127.0.0.1:1080"),
        "{}",
        elsewhere.detail
    );
}

#[test]
fn settings_that_cannot_be_read_are_named_rather_than_reported_as_off() {
    let finding = system_proxy(
        Err(ProxyFailure::Unreadable("-getwebproxy")),
        listen(),
        &service(),
    );

    assert_eq!(finding.outcome, Outcome::Failed);
    assert!(
        finding.detail.contains("-getwebproxy"),
        "{}",
        finding.detail
    );
}

#[test]
fn a_routing_error_is_reported_as_a_probable_local_network_denial() {
    let upstream = addr("192.0.2.10:1080");
    let denied = refusal(
        "socks5://192.0.2.10:1080",
        upstream,
        &failure(IoKind::HostUnreachable),
    );
    assert!(denied.contains("Local Network"), "{denied}");
    assert!(denied.contains("signed"), "{denied}");

    let refused = refusal(
        "socks5://192.0.2.10:1080",
        upstream,
        &failure(IoKind::ConnectionRefused),
    );
    assert!(!refused.contains("Local Network"), "{refused}");
    assert!(refused.contains("192.0.2.10:1080"), "{refused}");
}

#[test]
fn every_outcome_of_a_run_reads_back_as_a_finding() {
    let never = last_load(None);
    assert_eq!(never.outcome, Outcome::Failed);
    assert!(never.detail.contains("direct"), "{}", never.detail);

    let committed = last_load(Some(&LastLoadView {
        at: now(),
        outcome: LoadOutcome::Succeeded,
        command: None,
    }));
    assert_eq!(committed.outcome, Outcome::Passed);

    let failed = last_load(Some(&LastLoadView {
        at: now(),
        outcome: LoadOutcome::Failed,
        command: Some("add_rule".to_owned()),
    }));
    assert_eq!(failed.outcome, Outcome::Failed);
    assert!(failed.detail.contains("add_rule"), "{}", failed.detail);

    let killed = last_load(Some(&LastLoadView {
        at: now(),
        outcome: LoadOutcome::TimedOut,
        command: None,
    }));
    assert_eq!(killed.outcome, Outcome::Failed);
    assert!(killed.detail.contains("timeout"), "{}", killed.detail);
}

fn upstream(outcome: DialOutcome) -> Finding {
    let written = UpstreamAddr("socks5://192.0.2.10:1080".to_owned());
    upstream_reachable(&written, addr("192.0.2.10:1080"), HealthState::Up, &outcome)
}

#[test]
fn an_upstream_that_answers_passes() {
    let finding = upstream(DialOutcome::Answered);

    assert_eq!(finding.outcome, Outcome::Passed);
    assert_eq!(
        finding.detail,
        "socks5://192.0.2.10:1080 answered on 192.0.2.10:1080, the verdict is up"
    );
}

#[test]
fn an_upstream_on_a_closed_port_fails_and_names_the_address() {
    let finding = upstream(DialOutcome::Failed(failure(IoKind::ConnectionRefused)));

    assert_eq!(finding.outcome, Outcome::Failed);
    assert_eq!(
        finding.detail,
        "cannot reach socks5://192.0.2.10:1080 on 192.0.2.10:1080: the system said no"
    );
}

#[test]
fn an_upstream_that_is_silent_fails_and_tells_for_how_long() {
    let finding = upstream(DialOutcome::TimedOut);

    assert_eq!(finding.outcome, Outcome::Failed);
    assert_eq!(
        finding.detail,
        "socks5://192.0.2.10:1080 did not answer within 2s, the verdict is up"
    );
}

#[test]
fn an_unnamed_upstream_fails_without_dialling_anything() {
    let unnamed = UpstreamAddr(String::new());
    assert!(!configured(&unnamed, no_upstream()));
    assert!(configured(&UpstreamAddr("x".to_owned()), addr("192.0.2.10:1080")));

    let finding = upstream_reachable(
        &unnamed,
        no_upstream(),
        HealthState::Down,
        &DialOutcome::Answered,
    );

    assert_eq!(finding.outcome, Outcome::Failed);
    assert!(
        finding.detail.contains("nhop upstream"),
        "{}",
        finding.detail
    );
}

fn file(mode: u32) -> Option<Found> {
    Some(Found {
        is_file: true,
        is_dir: false,
        mode,
    })
}

fn directory(mode: u32) -> Option<Found> {
    Some(Found {
        is_file: false,
        is_dir: true,
        mode,
    })
}

#[test]
fn an_executable_init_script_passes_and_the_other_shapes_name_the_remedy() {
    let missing = init_file("/tmp/init", None);
    assert_eq!(missing.outcome, Outcome::Failed);
    assert!(missing.detail.contains("direct"), "{}", missing.detail);

    let unexecutable = init_file("/tmp/init", file(0o100644));
    assert_eq!(unexecutable.outcome, Outcome::Failed);
    assert!(
        unexecutable.detail.contains("chmod +x"),
        "{}",
        unexecutable.detail
    );

    assert_eq!(
        init_file("/tmp/init", file(0o100755)).outcome,
        Outcome::Passed
    );

    assert_eq!(
        init_file("/tmp", directory(0o40755)).outcome,
        Outcome::Failed
    );
}

#[test]
fn a_writable_state_directory_passes_and_a_read_only_one_names_the_remedy() {
    let log = "/tmp/state/nhop.log";
    let dir = Some("/tmp/state");

    assert_eq!(
        log_writable(log, dir, directory(0o40700)).outcome,
        Outcome::Passed
    );

    let refused = log_writable(log, dir, directory(0o40500));
    assert_eq!(refused.outcome, Outcome::Failed);
    assert!(refused.detail.contains("chmod"), "{}", refused.detail);

    let absent = log_writable(log, dir, None);
    assert_eq!(absent.outcome, Outcome::Failed);
    assert!(
        absent.detail.contains("no state directory"),
        "{}",
        absent.detail
    );

    assert_eq!(
        log_writable(log, dir, file(0o100700)).detail,
        "/tmp/state is not a directory"
    );
    assert_eq!(
        log_writable("nhop.log", None, None).detail,
        "nhop.log names no directory to write into"
    );
}

#[test]
fn the_details_are_worded_exactly() {
    let failed = last_load(Some(&LastLoadView {
        at: now(),
        outcome: LoadOutcome::Failed,
        command: Some("add_rule".to_owned()),
    }));
    assert_eq!(
        failed.detail,
        "the run at 2026-02-02T02:40:00Z failed on add_rule, fix it and run `nhop reload`"
    );
    let elsewhere = SystemProxy {
        http: None,
        https: Some(ProxyEndpoint::new("127.0.0.1", 7890)),
        socks: Some(ProxyEndpoint::new("127.0.0.1", 1080)),
    };
    assert_eq!(
        system_proxy(Ok(elsewhere), listen(), &service()).detail,
        "Wi-Fi: http is off, socks points at 127.0.0.1:1080, not at 127.0.0.1:7891, run `sudo nhop proxy on`"
    );
}
