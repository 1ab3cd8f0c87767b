use nhop::daemon::init_script::{search_path, ScriptOutcome};
use nhop::daemon::ipc_server::{asked, said, Asked};
use nhop::daemon::listen::{default_listen, rebind, reopen, BindState, Rebind, Reopen};
use nhop::daemon::lock::{read_owner, LockOwner, Pid, StartFailure};
use nhop::daemon::open_files::{raise, wanted, Limits, TARGET};
use nhop::daemon::staging::{Committed, FailedCommand, LoadIds, Staging};
use nhop::daemon::state::{DaemonState, Facts, Finish, Step};
use nhop::ipc::{
    Command, DecisionKind, ErrKind, ForwardView, HealthState, Host, LastLoadView, LoadId,
    LoadOutcome, Port, Response, RuleClass, RuleCountsView, RuleKind, RuleValue, RuleView,
    StatusView, SystemProxyView, Timestamp, UpstreamAddr,
};
use nhop::net::SocketAddr;
use nhop::proxy::events::no_upstream;
use nhop::proxy::Listen;
use nhop::rules::{Decision, RuleId};
use nhop::time::SystemTime;
use nhop::upstream::Health;

const UNLIMITED: u64 = u64::MAX;

fn addr(text: &str) -> SocketAddr {
    SocketAddr::parse(text).unwrap()
}

fn value(value: &str) -> RuleValue {
    RuleValue(value.to_owned())
}

fn listen() -> Listen {
    Listen {
        http: addr("127.0.0.1:18080"),
        socks: addr("127.0.0.1:18081"),
    }
}

#[test]
fn a_fresh_run_stages_nothing() {
    let staging = Staging::default();
    assert_eq!(staging.failure(), None);
    assert_eq!(staging.commit(), Committed::default());
}

#[test]
fn staged_rules_keep_their_declaration_order() {
    let mut staging = Staging::default();
    staging
        .push_rule(RuleClass::Require, RuleKind::Suffix, value("example.com"))
        .unwrap();
    staging
        .push_rule(RuleClass::Never, RuleKind::Port, value("22"))
        .unwrap();

    let Committed {
        rules,
        upstream,
        listen,
        forwards,
    } = staging.commit();

    assert_eq!(rules.rules().len(), 2);
    assert_eq!(
        rules.decide(&Host("example.com".to_owned()), Port(443)),
        Decision::Upstream {
            class: RuleClass::Require,
            rule: RuleId(0),
        }
    );
    assert_eq!(upstream, None);
    assert_eq!(listen, None);
    assert!(forwards.is_empty());
}

#[test]
fn clearing_drops_the_rules_staged_so_far() {
    let mut staging = Staging::default();
    staging
        .push_rule(RuleClass::Require, RuleKind::Suffix, value("example.com"))
        .unwrap();

    staging.clear_rules();

    assert!(staging.commit().rules.rules().is_empty());
}

#[test]
fn a_rejected_rule_fails_the_run_and_the_first_rejection_is_the_one_reported() {
    let mut staging = Staging::default();
    let failure = staging
        .push_rule(RuleClass::Require, RuleKind::Port, value("80-90"))
        .unwrap_err();
    assert_eq!(failure.err_kind(), ErrKind::InvalidArgs);
    assert_eq!(staging.failure(), Some(FailedCommand::AddRule));

    staging
        .push_rule(RuleClass::Require, RuleKind::Cidr, value("nonsense"))
        .unwrap_err();

    assert_eq!(staging.failure(), Some(FailedCommand::AddRule));
    assert_eq!(FailedCommand::AddRule.name(), "add_rule");
}

#[test]
fn a_later_failure_of_another_command_does_not_replace_the_first() {
    let mut staging = Staging::default();
    staging.fail(FailedCommand::SetUpstream);
    staging.fail(FailedCommand::AddRule);
    assert_eq!(staging.failure(), Some(FailedCommand::SetUpstream));
    assert_eq!(FailedCommand::SetUpstream.name(), "set_upstream");
    assert_eq!(FailedCommand::SetListen.name(), "set_listen");
    assert_eq!(FailedCommand::AddForward.name(), "add_forward");
}

#[test]
fn the_upstream_and_the_listen_addresses_travel_with_the_run() {
    let mut staging = Staging::default();
    staging.set_upstream(UpstreamAddr("socks5://192.0.2.10:1080".to_owned()));
    staging.set_listen(listen());
    staging.set_upstream(UpstreamAddr("socks5://192.0.2.11:1080".to_owned()));

    let Committed {
        rules: _,
        upstream,
        listen: staged,
        forwards: _,
    } = staging.commit();

    assert_eq!(
        upstream,
        Some(UpstreamAddr("socks5://192.0.2.11:1080".to_owned()))
    );
    assert_eq!(staged, Some(listen()));
}

#[test]
fn every_run_carries_an_identifier_of_its_own() {
    let mut ids = LoadIds::default();
    assert_eq!(ids.issue(), LoadId(1));
    assert_eq!(ids.issue(), LoadId(2));
    assert_eq!(ids.issue(), LoadId(3));
    assert!(!ids.spent());
}

#[test]
fn the_limit_launchd_hands_a_job_is_raised_to_the_target() {
    let launchd = Limits {
        soft: 256,
        hard: UNLIMITED,
    };
    assert_eq!(wanted(launchd), Some(TARGET));
}

#[test]
fn a_soft_limit_that_already_covers_the_target_is_left_alone() {
    for soft in [TARGET, TARGET + 1, 1_048_576] {
        let ample = Limits {
            soft,
            hard: UNLIMITED,
        };
        assert_eq!(wanted(ample), None, "soft {soft}");
    }
}

#[test]
fn a_hard_limit_below_the_target_caps_the_request() {
    let capped = Limits {
        soft: 256,
        hard: 1024,
    };
    assert_eq!(wanted(capped), Some(1024));
}

#[test]
fn a_soft_limit_already_at_the_hard_one_is_left_alone() {
    let pinned = Limits {
        soft: 512,
        hard: 512,
    };
    assert_eq!(wanted(pinned), None);
}

#[test]
fn raising_reports_a_limit_that_covers_the_target_and_repeats_itself() {
    for inherited in [
        Limits {
            soft: 256,
            hard: UNLIMITED,
        },
        Limits {
            soft: 256,
            hard: 1024,
        },
        Limits {
            soft: 1_048_576,
            hard: UNLIMITED,
        },
    ] {
        let raised = raise(inherited);
        assert!(raised.soft >= TARGET.min(raised.hard), "{raised:?}");
        assert_eq!(raise(raised), raised);
    }
}

#[test]
fn bind_state_renders_as_the_wire_boolean() {
    assert!(BindState::Bound.is_bound());
    assert!(!BindState::Unbound.is_bound());
}

#[test]
fn only_the_front_end_that_moves_is_bound_anew() {
    let held = default_listen();
    assert_eq!(held.http, addr("127.0.0.1:7890"));
    assert_eq!(held.socks, addr("127.0.0.1:7891"));
    assert_eq!(
        rebind(held, held),
        Rebind {
            http: None,
            socks: None,
        }
    );
    let wanted = Listen {
        http: held.http,
        socks: addr("127.0.0.1:18081"),
    };
    assert_eq!(
        rebind(wanted, held),
        Rebind {
            http: None,
            socks: Some(addr("127.0.0.1:18081")),
        }
    );
}

fn forward(listen: &str, host: &str) -> ForwardView {
    ForwardView {
        listen: addr(listen),
        host: Host(host.to_owned()),
        port: Port(443),
    }
}

#[test]
fn a_forward_that_is_held_keeps_its_listener() {
    let held = vec![
        forward("127.0.0.1:9000", "a.example.com"),
        forward("127.0.0.1:9001", "b.example.com"),
    ];
    let wanted = vec![
        forward("127.0.0.1:9001", "b.example.com"),
        forward("127.0.0.1:9000", "c.example.com"),
        forward("127.0.0.1:9002", "d.example.com"),
    ];
    assert_eq!(
        reopen(&wanted, &held),
        Reopen {
            keep: vec![false, true],
            open: vec![
                forward("127.0.0.1:9000", "c.example.com"),
                forward("127.0.0.1:9002", "d.example.com"),
            ],
        }
    );
    assert_eq!(
        reopen(&Vec::new(), &held),
        Reopen {
            keep: vec![false, false],
            open: Vec::new(),
        }
    );
}

#[test]
fn a_diagnosis_looks_at_the_remembered_script() {
    let mut state = state();
    assert_eq!(state.init_file(), "/home/operator/.config/nhop/init");
    let path = Some("/tmp/other".to_owned());
    let Step::Run { script: _, load: _ } = state.handle(Command::Reload { path }, facts()) else {
        panic!("the script must be run");
    };
    assert_eq!(state.init_file(), "/tmp/other");
}

#[test]
fn a_network_becomes_a_rule_only_with_its_prefix() {
    let mut state = state();
    let rule = |text: &str| add(RuleClass::Require, RuleKind::Cidr, text, None);
    assert_eq!(answer(&mut state, rule("192.0.2.0/24")), Response::Done);
    let Response::Failed { kind, message } = answer(&mut state, rule("192.0.2.0")) else {
        panic!("a network without a prefix must be refused");
    };
    assert_eq!(kind, ErrKind::InvalidArgs);
    assert_eq!(
        message,
        "invalid cidr value \"192.0.2.0\": expected a network such as 192.0.2.0/24"
    );
    assert_eq!(state.rules.rules().len(), 1);
    let published = state.rules.clone();
    assert_eq!(published, state.rules);
}

#[test]
fn an_unreadable_pid_file_reports_an_unknown_owner() {
    assert_eq!(read_owner(Some("who knows")), LockOwner::Unknown);
    assert_eq!(read_owner(None), LockOwner::Unknown);
    assert_eq!(read_owner(Some("")), LockOwner::Unknown);
    assert_eq!(read_owner(Some("4294967296")), LockOwner::Unknown);
    assert_eq!(LockOwner::Unknown.text(), "pid unknown");
}

#[test]
fn a_pid_file_names_the_daemon_that_is_running() {
    let owner = read_owner(Some("4294967294\n"));
    assert_eq!(owner, LockOwner::Known(Pid(4_294_967_294)));
    assert_eq!(
        StartFailure::AlreadyRunning(owner).message(),
        "another nhop daemon is already running (pid 4294967294)"
    );
    assert_eq!(
        StartFailure::Io("denied".to_owned()).message(),
        "cannot start the daemon: denied"
    );
}

#[test]
fn the_executables_directory_leads_the_search_path() {
    assert_eq!(
        search_path(Some(b"/opt/nhop"), b"/usr/bin:/bin"),
        b"/opt/nhop:/usr/bin:/bin"
    );
    assert_eq!(search_path(Some(b"/opt/nhop"), b""), b"/opt/nhop");
    assert_eq!(search_path(None, b"/usr/bin"), b"/usr/bin");
    assert_eq!(search_path(Some(b"/\xff"), b"\xfe"), b"/\xff:\xfe");
}

#[test]
fn a_line_is_a_command_a_subscription_or_malformed() {
    assert_eq!(said("  \r\n"), None);
    assert_eq!(said(" {} \n"), Some("{}"));
    assert_eq!(asked(Ok(Command::Subscribe)), Asked::Stream);
    assert_eq!(asked(Ok(Command::Off)), Asked::Call(Command::Off));
    assert_eq!(
        asked(Err("expected value".to_owned())),
        Asked::Answer(Response::Failed {
            kind: ErrKind::InvalidArgs,
            message: "expected value".to_owned(),
        })
    );
}

fn at(secs: i64) -> SystemTime {
    SystemTime { secs, nanos: 0 }
}

fn facts() -> Facts {
    Facts {
        uptime_secs: 5,
        health: Health::starting(at(1_770_000_000)),
        system_proxy: SystemProxyView {
            http: None,
            https: None,
            socks: None,
        },
        init_exists: true,
    }
}

fn state() -> DaemonState {
    DaemonState::new(
        default_listen(),
        BindState::Unbound,
        "/home/operator/.config/nhop/init".to_owned(),
    )
}

fn add(class: RuleClass, kind: RuleKind, text: &str, load: Option<LoadId>) -> Command {
    Command::AddRule {
        class,
        kind,
        value: value(text),
        load,
    }
}

fn answer(state: &mut DaemonState, command: Command) -> Response {
    let step = state.handle(command, facts());
    let Step::Answer(response) = step else {
        panic!("the command must be answered at once: {step:?}");
    };
    response
}

fn refused(state: &mut DaemonState, command: Command) -> ErrKind {
    let response = answer(state, command);
    let Response::Failed { kind, message } = response else {
        panic!("the command must be refused: {response:?}");
    };
    assert!(!message.is_empty());
    kind
}

fn status(state: &mut DaemonState) -> StatusView {
    let Response::Status(status) = answer(state, Command::Status) else {
        panic!("status must answer with a status view");
    };
    status
}

fn rules(state: &mut DaemonState) -> Vec<RuleView> {
    let Response::Rules(rules) = answer(state, Command::Rules) else {
        panic!("rules must answer with rule views");
    };
    rules
}

fn run(state: &mut DaemonState, command: Command) -> (String, LoadId) {
    let step = state.handle(command, facts());
    let Step::Run { script, load } = step else {
        panic!("the command must run a script: {step:?}");
    };
    (script, load)
}

#[test]
fn status_describes_a_daemon_that_has_loaded_nothing() {
    let mut state = state();
    let StatusView {
        uptime_secs,
        http_listen,
        http_bound,
        socks_listen,
        socks_bound,
        forwards,
        upstream,
        health,
        health_changed_at,
        init_path,
        last_load,
        rules,
        system_proxy,
    } = status(&mut state);
    assert_eq!(uptime_secs, 5);
    assert_eq!(http_listen, default_listen().http);
    assert_eq!(socks_listen, default_listen().socks);
    assert!(!http_bound);
    assert!(!socks_bound);
    assert!(forwards.is_empty());
    assert_eq!(upstream, UpstreamAddr(String::new()));
    assert_eq!(health, HealthState::Down);
    assert_eq!(health_changed_at, Timestamp(at(1_770_000_000)));
    assert_eq!(init_path, None);
    assert_eq!(last_load, None);
    assert_eq!(
        rules,
        RuleCountsView {
            require: 0,
            prefer: 0,
            never: 0,
        }
    );
    assert_eq!(
        system_proxy,
        SystemProxyView {
            http: None,
            https: None,
            socks: None,
        }
    );
    assert_eq!(state.published(), no_upstream());
}

#[test]
fn status_counts_the_live_rules_per_class() {
    let mut state = state();
    for (class, kind, text) in [
        (RuleClass::Require, RuleKind::Suffix, "example.com"),
        (RuleClass::Prefer, RuleKind::Port, "443"),
        (RuleClass::Prefer, RuleKind::Keyword, "cdn"),
        (RuleClass::Never, RuleKind::Cidr, "192.0.2.0/24"),
    ] {
        assert_eq!(answer(&mut state, add(class, kind, text, None)), Response::Done);
    }
    assert_eq!(
        status(&mut state).rules,
        RuleCountsView {
            require: 1,
            prefer: 2,
            never: 1,
        }
    );
}

#[test]
fn rules_lists_the_live_ruleset_in_declaration_order() {
    let mut state = state();
    answer(
        &mut state,
        add(RuleClass::Require, RuleKind::Suffix, "example.com", None),
    );
    answer(&mut state, add(RuleClass::Never, RuleKind::Port, "22", None));
    assert_eq!(
        rules(&mut state),
        vec![
            RuleView {
                index: 0,
                class: RuleClass::Require,
                kind: RuleKind::Suffix,
                value: value("example.com"),
            },
            RuleView {
                index: 1,
                class: RuleClass::Never,
                kind: RuleKind::Port,
                value: value("22"),
            },
        ]
    );
}

#[test]
fn an_init_script_declares_the_ruleset_through_the_command_line_client() {
    let mut state = state();
    let (script, load) = run(&mut state, Command::Reload { path: None });
    assert_eq!(script, "/home/operator/.config/nhop/init");
    let upstream = UpstreamAddr("socks5://192.0.2.10:1080".to_owned());
    for command in [
        Command::SetUpstream {
            addr: upstream.clone(),
            load: Some(load),
        },
        add(
            RuleClass::Never,
            RuleKind::Suffix,
            "intranet.example.com",
            Some(load),
        ),
        add(
            RuleClass::Require,
            RuleKind::Suffix,
            "example.com",
            Some(load),
        ),
        add(RuleClass::Prefer, RuleKind::Port, "443", Some(load)),
    ] {
        assert_eq!(answer(&mut state, command), Response::Done);
    }
    assert!(rules(&mut state).is_empty(), "nothing is live before the run commits");
    assert_eq!(state.published(), no_upstream());

    let finish = state.finished(load, ScriptOutcome::Succeeded, at(1_770_000_001));
    assert_eq!(
        finish,
        Finish::Commit {
            listen: None,
            forwards: Vec::new(),
        }
    );
    state.committed(Ok((default_listen(), Vec::new())), at(1_770_000_001));

    assert_eq!(rules(&mut state).len(), 3);
    assert_eq!(state.published(), addr("192.0.2.10:1080"));
    let status = status(&mut state);
    assert_eq!(status.upstream, upstream);
    assert_eq!(
        status.last_load,
        Some(LastLoadView {
            at: Timestamp(at(1_770_000_001)),
            outcome: LoadOutcome::Succeeded,
            command: None,
        })
    );
    assert_eq!(
        status.init_path,
        Some("/home/operator/.config/nhop/init".to_owned())
    );
}

#[test]
fn an_init_script_that_fails_halfway_leaves_no_rule_behind() {
    let mut state = state();
    answer(&mut state, add(RuleClass::Never, RuleKind::Port, "22", None));
    let before = rules(&mut state);
    let (_, load) = run(&mut state, Command::Reload { path: None });
    answer(
        &mut state,
        add(
            RuleClass::Require,
            RuleKind::Suffix,
            "example.com",
            Some(load),
        ),
    );

    let finish = state.finished(load, ScriptOutcome::Exited, at(7));

    assert_eq!(finish, Finish::Discarded);
    assert_eq!(rules(&mut state), before);
    assert_eq!(
        status(&mut state).last_load,
        Some(LastLoadView {
            at: Timestamp(at(7)),
            outcome: LoadOutcome::Failed,
            command: None,
        })
    );
}

#[test]
fn a_failed_command_discards_the_run_and_is_recorded() {
    let mut state = state();
    let (_, load) = run(&mut state, Command::Reload { path: None });
    assert_eq!(
        refused(
            &mut state,
            add(RuleClass::Require, RuleKind::Port, "80-90", Some(load))
        ),
        ErrKind::InvalidArgs
    );
    assert_eq!(
        refused(
            &mut state,
            Command::SetUpstream {
                addr: UpstreamAddr("vm.example.com:1080".to_owned()),
                load: Some(load),
            }
        ),
        ErrKind::InvalidArgs
    );
    assert_eq!(
        state.finished(load, ScriptOutcome::Succeeded, at(9)),
        Finish::Discarded
    );
    assert_eq!(
        status(&mut state).last_load.unwrap().command,
        Some("add_rule".to_owned())
    );
}

#[test]
fn a_run_that_outlives_its_time_is_recorded_and_no_longer_heard() {
    let mut state = state();
    let (_, load) = run(&mut state, Command::Reload { path: None });
    let staged = add(
        RuleClass::Require,
        RuleKind::Suffix,
        "example.com",
        Some(load),
    );
    assert_eq!(answer(&mut state, staged.clone()), Response::Done);
    assert_eq!(
        state.finished(load, ScriptOutcome::TimedOut, at(30)),
        Finish::Discarded
    );
    assert_eq!(refused(&mut state, staged), ErrKind::NotFound);
    assert!(rules(&mut state).is_empty());
    let load_view = status(&mut state).last_load.unwrap();
    assert_eq!(load_view.outcome, LoadOutcome::TimedOut);
    assert_eq!(load_view.command, None);
    assert_eq!(
        state.finished(load, ScriptOutcome::Succeeded, at(31)),
        Finish::Ignored
    );
}

#[test]
fn a_command_without_the_runs_identifier_is_refused_while_it_is_in_flight() {
    let mut state = state();
    let (_, load) = run(&mut state, Command::Reload { path: None });
    let LoadId(id) = load;
    for command in [
        add(RuleClass::Never, RuleKind::Port, "22", None),
        add(RuleClass::Never, RuleKind::Port, "22", Some(LoadId(id + 1))),
        Command::ClearRules { load: None },
        Command::SetUpstream {
            addr: UpstreamAddr("192.0.2.10:1080".to_owned()),
            load: None,
        },
        Command::SetListen {
            http: addr("127.0.0.1:1"),
            socks: addr("127.0.0.1:2"),
            load: None,
        },
        Command::AddForward {
            listen: addr("127.0.0.1:1"),
            host: Host("a".to_owned()),
            port: Port(1),
            load: None,
        },
        Command::Reload { path: None },
        Command::On,
        Command::Off,
    ] {
        assert_eq!(
            refused(&mut state, command),
            ErrKind::LoadInProgress
        );
    }
    assert!(rules(&mut state).is_empty());
}

#[test]
fn a_run_moves_the_front_ends_only_when_it_commits() {
    let mut state = state();
    let (_, load) = run(&mut state, Command::Reload { path: None });
    let moving = Command::SetListen {
        http: listen().http,
        socks: listen().socks,
        load: Some(load),
    };
    assert_eq!(answer(&mut state, moving), Response::Done);
    assert_eq!(status(&mut state).http_listen, default_listen().http);
    assert_eq!(
        state.finished(load, ScriptOutcome::Succeeded, at(1)),
        Finish::Commit {
            listen: Some(listen()),
            forwards: Vec::new(),
        }
    );
    state.committed(Err(FailedCommand::SetListen), at(2));
    let after = status(&mut state);
    assert_eq!(after.http_listen, default_listen().http);
    assert_eq!(
        after.last_load.unwrap().command,
        Some("set_listen".to_owned())
    );
}

#[test]
fn an_address_that_cannot_be_bound_leaves_the_front_ends_where_they_are() {
    let mut state = state();
    let command = Command::SetListen {
        http: listen().http,
        socks: listen().socks,
        load: None,
    };
    assert_eq!(state.handle(command, facts()), Step::Move(listen()));
    let Response::Failed { kind, message } = state.moved(Err("address in use".to_owned())) else {
        panic!("a held address must be refused");
    };
    assert_eq!(kind, ErrKind::Internal);
    assert!(message.contains("front ends"), "{message}");
    assert_eq!(status(&mut state).http_listen, default_listen().http);
    assert_eq!(state.moved(Ok(listen())), Response::Done);
    assert_eq!(status(&mut state).http_listen, listen().http);
}

#[test]
fn a_forward_is_listed_once_it_is_open() {
    let mut state = state();
    let forward = ForwardView {
        listen: addr("127.0.0.1:0"),
        host: Host("db.example.com".to_owned()),
        port: Port(5432),
    };
    let command = Command::AddForward {
        listen: forward.listen,
        host: forward.host.clone(),
        port: forward.port,
        load: None,
    };
    assert_eq!(state.handle(command, facts()), Step::Open(forward.clone()));
    let Response::Failed { kind, message: _ } = state.opened(Err("in use".to_owned())) else {
        panic!("a forward that cannot be opened must be refused");
    };
    assert_eq!(kind, ErrKind::Internal);
    let mut held = forward;
    held.listen = addr("127.0.0.1:40000");
    assert_eq!(state.opened(Ok(held.clone())), Response::Done);
    assert_eq!(status(&mut state).forwards, vec![held]);
}

#[test]
fn turning_the_router_off_clears_the_rules_and_nothing_else() {
    let mut state = state();
    answer(
        &mut state,
        add(RuleClass::Require, RuleKind::Suffix, "example.com", None),
    );
    answer(
        &mut state,
        Command::SetUpstream {
            addr: UpstreamAddr("socks5://192.0.2.10:1080".to_owned()),
            load: None,
        },
    );
    let before = status(&mut state);
    assert_eq!(answer(&mut state, Command::Off), Response::Done);
    let after = status(&mut state);
    assert!(rules(&mut state).is_empty());
    assert_eq!(after.http_listen, before.http_listen);
    assert_eq!(after.upstream, before.upstream);
    let Response::Decision(decision) = answer(
        &mut state,
        Command::Test {
            host: Host("example.com".to_owned()),
            port: Port(443),
        },
    ) else {
        panic!("test must answer with a decision");
    };
    assert_eq!(decision.decision, DecisionKind::Direct);
}

#[test]
fn a_script_named_on_reload_is_remembered() {
    let mut state = state();
    assert_eq!(refused(&mut state, Command::On), ErrKind::NotFound);
    let (script, load) = run(
        &mut state,
        Command::Reload {
            path: Some("/tmp/other-init".to_owned()),
        },
    );
    assert_eq!(script, "/tmp/other-init");
    state.finished(load, ScriptOutcome::NotRun, at(1));
    let (script, next) = run(&mut state, Command::On);
    assert_eq!(script, "/tmp/other-init");
    assert!(next.0 > load.0);
}

#[test]
fn a_missing_init_file_is_not_an_error() {
    let mut state = state();
    let mut absent = facts();
    absent.init_exists = false;
    let step = state.handle(Command::Reload { path: None }, absent);
    assert_eq!(step, Step::Answer(Response::Done));
    assert_eq!(status(&mut state).init_path, None);
}

#[test]
fn a_subscription_is_not_the_states_to_serve() {
    let mut state = state();
    assert_eq!(refused(&mut state, Command::Subscribe), ErrKind::Internal);
    assert_eq!(state.handle(Command::Doctor, facts()), Step::Diagnose);
}
