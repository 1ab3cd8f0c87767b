use nhop::cli::args::{add_rule, dispatch, load_of, parse_action, parse_kind};
use nhop::cli::client::{read_or_hangup, unconnectable};
use nhop::cli::render::{
    follows, no_log, render, render_failure, render_log, render_logged, render_settings,
};
use nhop::cli::status::{status_view, DaemonStatus};
use nhop::cli::system_proxy::{parse, NetworkService, ProxyEndpoint, SystemProxy};
use nhop::cli::{
    Destination, Exit, InvalidDestination, IoFailure, IoKind, Output, Plan, Printed, ProxyAction,
    Rendering, Subcommand, Unreachable,
};
use nhop::daemon::listen::BindState;
use nhop::daemon::lock::{LockOwner, StartFailure};
use nhop::daemon::state::{DaemonState, Facts, Step};
use nhop::ipc::{
    CheckView, Command, DecisionKind, DecisionView, ErrKind, EventView, HealthState, Host,
    LastLoadView, LoadId, LoadOutcome, Port, Response, RuleClass, RuleCountsView, RuleKind,
    RuleValue, RuleView, StatusView, SystemProxyView, Timestamp, UpstreamAddr,
};
use nhop::logging::{LogLine, LoggedDecision, Window};
use nhop::net::SocketAddr;
use nhop::proxy::Listen;
use nhop::time::{Duration, SystemTime};
use nhop::upstream::Health;

fn addr(text: &str) -> SocketAddr {
    SocketAddr::parse(text).unwrap()
}

fn value(value: &str) -> RuleValue {
    RuleValue(value.to_owned())
}

fn destination(text: &str) -> Result<Destination, InvalidDestination> {
    Destination::parse(text)
}

#[test]
fn a_destination_reads_a_host_and_a_port() {
    assert_eq!(
        destination("example.com:443").unwrap(),
        Destination {
            host: Host("example.com".to_owned()),
            port: Port(443),
        }
    );
    assert_eq!(
        destination("[2001:db8::1]:8443").unwrap(),
        Destination {
            host: Host("2001:db8::1".to_owned()),
            port: Port(8443),
        }
    );
    assert!(destination("example.com").is_err());
    assert!(destination("example.com:https").is_err());
    assert!(destination("example.com:70000").is_err());
    assert!(destination(":443").is_err());
}

#[test]
fn a_rejected_destination_is_quoted() {
    assert_eq!(
        destination("[]:443").unwrap_err().message(),
        "expected host:port, got \"[]:443\""
    );
}

#[test]
fn an_unknown_rule_kind_is_named() {
    assert_eq!(parse_kind("suffix"), Ok(RuleKind::Suffix));
    assert_eq!(parse_kind("cidr"), Ok(RuleKind::Cidr));
    assert_eq!(parse_kind("port"), Ok(RuleKind::Port));
    assert_eq!(parse_kind("keyword"), Ok(RuleKind::Keyword));
    assert_eq!(
        parse_kind("regex"),
        Err("unknown rule kind \"regex\", expected suffix, cidr, port or keyword".to_owned())
    );
}

fn asked(command: Subcommand) -> (Command, Output) {
    let plan = dispatch(command, Some(LoadId(7)));
    let Plan::Ask { command, output } = plan else {
        panic!("the daemon must be asked: {plan:?}");
    };
    (command, output)
}

#[test]
fn every_mutating_verb_carries_the_run_it_belongs_to() {
    let load = Some(LoadId(7));
    for (verb, class) in [
        (
            Subcommand::Require {
                kind: RuleKind::Suffix,
                value: value("example.com"),
            },
            RuleClass::Require,
        ),
        (
            Subcommand::Prefer {
                kind: RuleKind::Suffix,
                value: value("example.com"),
            },
            RuleClass::Prefer,
        ),
        (
            Subcommand::Never {
                kind: RuleKind::Suffix,
                value: value("example.com"),
            },
            RuleClass::Never,
        ),
    ] {
        assert_eq!(
            asked(verb),
            (
                add_rule(class, RuleKind::Suffix, value("example.com"), load),
                Output::Human
            )
        );
    }
    let upstream = UpstreamAddr("socks5://192.0.2.10:1080".to_owned());
    assert_eq!(
        asked(Subcommand::Upstream {
            addr: upstream.clone()
        }),
        (
            Command::SetUpstream {
                addr: upstream,
                load
            },
            Output::Human
        )
    );
    assert_eq!(
        asked(Subcommand::Listen {
            http: addr("127.0.0.1:7890"),
            socks: addr("127.0.0.1:7891"),
        })
        .0,
        Command::SetListen {
            http: addr("127.0.0.1:7890"),
            socks: addr("127.0.0.1:7891"),
            load,
        }
    );
}

#[test]
fn every_other_verb_is_planned_as_it_reads() {
    assert_eq!(dispatch(Subcommand::Start, None), Plan::Start);
    assert_eq!(asked(Subcommand::On), (Command::On, Output::Human));
    assert_eq!(asked(Subcommand::Off), (Command::Off, Output::Human));
    assert_eq!(
        asked(Subcommand::Reload {
            path: Some("/tmp/other-init".to_owned())
        })
        .0,
        Command::Reload {
            path: Some("/tmp/other-init".to_owned())
        }
    );
    assert_eq!(
        asked(Subcommand::Status { json: true }),
        (Command::Status, Output::Json)
    );
    assert_eq!(
        asked(Subcommand::Rules { json: false }),
        (Command::Rules, Output::Human)
    );
    assert_eq!(
        asked(Subcommand::Test {
            target: destination("api.example.com:443").unwrap(),
            json: true,
        }),
        (
            Command::Test {
                host: Host("api.example.com".to_owned()),
                port: Port(443),
            },
            Output::Json
        )
    );
    let since = Some(Duration {
        secs: 900,
        nanos: 0,
    });
    assert_eq!(
        dispatch(
            Subcommand::Logs {
                json: false,
                follow: true,
                since,
            },
            None
        ),
        Plan::Logs {
            output: Output::Human,
            follow: true,
            since,
        }
    );
    assert_eq!(
        dispatch(Subcommand::Tail { json: true }, None),
        Plan::Tail {
            output: Output::Json
        }
    );
    assert_eq!(
        dispatch(Subcommand::Doctor { json: false }, None),
        Plan::Doctor {
            output: Output::Human
        }
    );
    assert_eq!(
        dispatch(
            Subcommand::Proxy {
                action: ProxyAction::Off,
                service: NetworkService::default(),
            },
            None
        ),
        Plan::Proxy {
            action: ProxyAction::Off,
            service: NetworkService("Wi-Fi".to_owned()),
        }
    );
}

#[test]
fn a_load_id_is_forwarded_only_when_it_reads_as_a_number() {
    assert_eq!(load_of("7"), Some(LoadId(7)));
    assert_eq!(load_of(" 7 "), Some(LoadId(7)));
    assert_eq!(load_of("seven"), None);
    assert_eq!(load_of(""), None);
    let Command::AddRule {
        class,
        kind,
        value,
        load,
    } = add_rule(
        RuleClass::Require,
        RuleKind::Suffix,
        value("example.com"),
        Some(LoadId(7)),
    )
    else {
        panic!("a rule verb must build an add_rule command");
    };
    assert_eq!(class, RuleClass::Require);
    assert_eq!(kind, RuleKind::Suffix);
    assert_eq!(value, RuleValue("example.com".to_owned()));
    assert_eq!(load, Some(LoadId(7)));
}

#[test]
fn every_error_kind_maps_onto_its_row_of_the_exit_table() {
    let rows = [
        (ErrKind::NotFound, 2u8),
        (ErrKind::UpstreamDown, 3),
        (ErrKind::InvalidArgs, 4),
        (ErrKind::LoadInProgress, 1),
        (ErrKind::Internal, 1),
    ];
    for (kind, code) in rows {
        let response = Response::Failed {
            kind,
            message: "the daemon said no".to_owned(),
        };

        let Rendering { out, err, exit } = render(&response, Output::Human);

        assert_eq!(exit.code(), code, "{kind:?}");
        assert_eq!(out, Printed::Nothing, "{kind:?}");
        assert_eq!(err, "nhop: the daemon said no\n", "{kind:?}");
    }
    assert_eq!(render(&Response::Done, Output::Human).exit, Exit::Success);
    assert_eq!(Exit::Success.code(), 0);
}

#[test]
fn a_daemon_that_cannot_be_reached_or_started_has_its_own_exit() {
    assert_eq!(
        Exit::of_unreachable(&Unreachable::NoDaemon("s".to_owned())),
        Exit::Missing
    );
    assert_eq!(Exit::of_unreachable(&Unreachable::Closed), Exit::Missing);
    assert_eq!(
        Exit::of_unreachable(&Unreachable::Io("e".to_owned())),
        Exit::Missing
    );
    assert_eq!(
        Exit::of_unreachable(&Unreachable::Malformed("e".to_owned())),
        Exit::Failed
    );
    assert_eq!(
        Exit::of_start(&StartFailure::AlreadyRunning(LockOwner::Unknown)),
        Exit::Failed
    );
}

fn failure(kind: IoKind) -> IoFailure {
    IoFailure {
        kind,
        text: "denied".to_owned(),
    }
}

#[test]
fn a_socket_nobody_listens_on_reports_that_no_daemon_is_listening() {
    let socket_file = "/nowhere/nhop.sock";

    let failure = unconnectable(socket_file, failure(IoKind::ConnectionRefused));

    let Unreachable::NoDaemon(named) = &failure else {
        panic!("a dead socket must report an absent daemon: {failure:?}");
    };
    assert_eq!(named, socket_file);
    assert_eq!(
        failure.message(),
        "no daemon is listening on /nowhere/nhop.sock, run `nhop start`"
    );
}

#[test]
fn a_socket_that_fails_otherwise_reports_the_failure() {
    let failure = unconnectable("/s", failure(IoKind::Other));
    assert_eq!(failure, Unreachable::Io("denied".to_owned()));
    assert_eq!(failure.message(), "cannot talk to the daemon: denied");
    assert_eq!(
        Unreachable::Closed.message(),
        "the daemon closed the connection without answering"
    );
    assert_eq!(
        Unreachable::Malformed("eof".to_owned()).message(),
        "the daemon answered with a line this client cannot read: eof"
    );
}

#[test]
fn a_reset_read_counts_as_the_hang_up_it_is() {
    let read = read_or_hangup(Err(failure(IoKind::ConnectionReset)));

    assert_eq!(read.unwrap(), 0);
    assert_eq!(read_or_hangup(Ok(9)), Ok(9));
}

#[test]
fn any_other_read_failure_is_still_reported_as_itself() {
    let read = read_or_hangup(Err(failure(IoKind::Other)));

    assert_eq!(read, Err(Unreachable::Io("denied".to_owned())));
}

fn settled() -> Timestamp {
    Timestamp(SystemTime {
        secs: 1_770_000_000,
        nanos: 0,
    })
}

fn loaded() -> DaemonStatus {
    let Timestamp(changed_at) = settled();
    DaemonStatus {
        uptime_secs: 3600,
        listen: Listen {
            http: addr("127.0.0.1:7890"),
            socks: addr("127.0.0.1:7891"),
        },
        bound: BindState::Bound,
        forwards: Vec::new(),
        upstream: UpstreamAddr("socks5://192.0.2.10:1080".to_owned()),
        health: Health {
            state: HealthState::Up,
            changed_at,
        },
        init_path: Some("/Users/operator/.config/nhop/init".to_owned()),
        last_load: Some(LastLoadView {
            at: settled(),
            outcome: LoadOutcome::Succeeded,
            command: None,
        }),
        rules: RuleCountsView {
            require: 2,
            prefer: 3,
            never: 1,
        },
    }
}

fn configured() -> SystemProxy {
    SystemProxy {
        http: parse("Enabled: Yes\nServer: 127.0.0.1\nPort: 7890\n"),
        https: parse("Enabled: Yes\nServer: 127.0.0.1\nPort: 7890\n"),
        socks: parse("Enabled: Yes\nServer: 127.0.0.1\nPort: 7891\n"),
    }
}

#[test]
fn the_view_carries_what_the_daemon_and_macos_each_know() {
    let view = status_view(&loaded(), configured().view());

    let StatusView {
        uptime_secs,
        http_listen,
        http_bound,
        socks_listen,
        socks_bound,
        forwards,
        upstream,
        health,
        health_changed_at,
        init_path,
        last_load,
        rules,
        system_proxy,
    } = view;
    assert_eq!(uptime_secs, 3600);
    assert_eq!(http_listen, addr("127.0.0.1:7890"));
    assert_eq!(socks_listen, addr("127.0.0.1:7891"));
    assert!(http_bound);
    assert!(socks_bound);
    assert!(forwards.is_empty());
    assert_eq!(
        upstream,
        UpstreamAddr("socks5://192.0.2.10:1080".to_owned())
    );
    assert_eq!(health, HealthState::Up);
    assert_eq!(health_changed_at, settled());
    assert_eq!(
        init_path,
        Some("/Users/operator/.config/nhop/init".to_owned())
    );
    assert_eq!(
        last_load,
        Some(LastLoadView {
            at: settled(),
            outcome: LoadOutcome::Succeeded,
            command: None,
        })
    );
    assert_eq!(
        rules,
        RuleCountsView {
            require: 2,
            prefer: 3,
            never: 1,
        }
    );
    assert_eq!(
        system_proxy,
        SystemProxyView {
            http: Some("127.0.0.1:7890".to_owned()),
            https: Some("127.0.0.1:7890".to_owned()),
            socks: Some("127.0.0.1:7891".to_owned()),
        }
    );
    assert_eq!(
        ProxyEndpoint::new("127.0.0.1", 7891).text(),
        "127.0.0.1:7891"
    );
}

#[test]
fn an_unbound_daemon_that_has_loaded_nothing_reports_it() {
    let mut state = loaded();
    state.bound = BindState::Unbound;
    state.init_path = None;
    state.last_load = None;
    state.upstream = UpstreamAddr(String::new());

    let view = status_view(&state, SystemProxy::default().view());

    assert!(!view.http_bound);
    assert!(!view.socks_bound);
    assert_eq!(view.init_path, None);
    assert_eq!(view.last_load, None);
    assert_eq!(view.upstream, UpstreamAddr(String::new()));
    assert_eq!(
        view.system_proxy,
        SystemProxyView {
            http: None,
            https: None,
            socks: None,
        }
    );
}

fn shown(response: &Response) -> String {
    let rendering = render(response, Output::Human);
    assert_eq!(rendering.err, "");
    assert_eq!(render(response, Output::Json).out, Printed::Document);
    let Printed::Text(text) = rendering.out else {
        panic!("the answer must be shown");
    };
    text
}

#[test]
fn the_human_status_is_text_and_never_json() {
    let listen = Listen {
        http: addr("127.0.0.1:0"),
        socks: addr("127.0.0.1:0"),
    };
    let mut daemon = DaemonState::new(listen, BindState::Bound, "init".to_owned());
    let facts = Facts {
        uptime_secs: 0,
        health: Health::starting(settled().0),
        system_proxy: SystemProxy::default().view(),
        init_exists: false,
    };
    let Step::Answer(answered) = daemon.handle(Command::Status, facts) else {
        panic!("a status must be answered at once");
    };

    let Rendering { out, err, exit } = render(&answered, Output::Human);

    assert_eq!(exit, Exit::Success);
    assert!(err.is_empty(), "{err}");
    let Printed::Text(out) = out else {
        panic!("the status must be shown");
    };
    assert!(out.contains("uptime"), "{out}");
    assert!(
        out.contains("rules         require 0, prefer 0, never 0"),
        "{out}"
    );
    assert!(
        out.contains("last load     never - the ruleset is empty and every connection is direct"),
        "{out}"
    );
    assert!(
        serde_json::from_str::<serde_json::Value>(&out).is_err(),
        "{out}"
    );
}

#[test]
fn a_loaded_status_is_shown_line_by_line() {
    let status = status_view(&loaded(), configured().view());
    assert_eq!(
        shown(&Response::Status(status)),
        "uptime        3600s\n\
         http          127.0.0.1:7890 bound\n\
         socks         127.0.0.1:7891 bound\n\
         upstream      socks5://192.0.2.10:1080 up since 2026-02-02T02:40:00Z\n\
         rules         require 2, prefer 3, never 1\n\
         init          /Users/operator/.config/nhop/init\n\
         last load     ok at 2026-02-02T02:40:00Z\n\
         system proxy  http 127.0.0.1:7890, https 127.0.0.1:7890, socks 127.0.0.1:7891\n"
    );
    let mut state = loaded();
    state.bound = BindState::Unbound;
    state.init_path = None;
    state.last_load = None;
    let status = status_view(&state, SystemProxy::default().view());
    let text = shown(&Response::Status(status));
    assert!(
        text.contains("last load     never - the ruleset is empty and every connection is direct"),
        "{text}"
    );
    assert!(text.contains("7891 unbound\n"), "{text}");
    assert!(text.contains("init          none\n"), "{text}");
    assert!(text.contains("http off, https off, socks off\n"), "{text}");
    state.last_load = Some(LastLoadView {
        at: settled(),
        outcome: LoadOutcome::Failed,
        command: Some("add_rule".to_owned()),
    });
    let status = status_view(&state, SystemProxy::default().view());
    let text = shown(&Response::Status(status));
    assert!(
        text.contains("last load     failed at 2026-02-02T02:40:00Z, on add_rule\n"),
        "{text}"
    );
}

#[test]
fn rules_and_decisions_are_shown_one_on_a_line() {
    let rule = |index: u32, class: RuleClass, text: &str| RuleView {
        index,
        class,
        kind: RuleKind::Suffix,
        value: value(text),
    };
    assert_eq!(
        shown(&Response::Rules(vec![
            rule(0, RuleClass::Require, "example.com"),
            rule(10, RuleClass::Never, "b"),
        ])),
        "0  require  suffix  example.com\n10  never  suffix  b\n"
    );
    assert_eq!(shown(&Response::Rules(Vec::new())), "");
    assert_eq!(
        shown(&Response::Decision(DecisionView {
            decision: DecisionKind::Upstream,
            rule_index: Some(2),
            class: Some(RuleClass::Require),
            next_hop: "socks5://192.168.7.20:1080".to_owned(),
        })),
        "upstream via rule 2 (require) to socks5://192.168.7.20:1080\n"
    );
    assert_eq!(
        shown(&Response::Decision(DecisionView {
            decision: DecisionKind::Direct,
            rule_index: None,
            class: None,
            next_hop: "example.net:443".to_owned(),
        })),
        "direct via no rule to example.net:443\n"
    );
}

fn event() -> EventView {
    EventView {
        host: Host("api.example.com".to_owned()),
        port: Port(443),
        decision: DecisionKind::Upstream,
        rule_index: Some(2),
        class: None,
        upstream: HealthState::Up,
        connect_ms: None,
        hop: None,
        duration_ms: 9,
        error: None,
    }
}

#[test]
fn the_human_form_prints_one_text_line_per_decision() {
    let response = Response::Event(event());
    assert_eq!(
        shown(&response),
        "api.example.com:443  upstream via no rule  upstream up  9ms  -\n"
    );
    assert!(follows(&response));
}

#[test]
fn a_daemon_error_ends_the_stream_with_its_own_exit_code() {
    let refused = Response::Failed {
        kind: ErrKind::Internal,
        message: "the daemon said no".to_owned(),
    };
    let rendering = render(&refused, Output::Json);
    assert_eq!(rendering.exit, Exit::Failed);
    assert_eq!(rendering.out, Printed::Nothing);
    assert!(rendering.err.contains("said no"), "{}", rendering.err);
    assert!(!follows(&refused));
}

#[test]
fn a_report_is_shown_with_its_own_exit() {
    let check = |name: &str, ok: bool| CheckView {
        name: name.to_owned(),
        ok,
        detail: "seen".to_owned(),
    };
    let report = Response::Doctor(vec![
        check("ports_bound", true),
        check("upstream_reachable", false),
    ]);
    assert_eq!(
        shown(&report),
        "ok    ports_bound  seen\nFAIL  upstream_reachable  seen\n"
    );
    assert_eq!(render(&report, Output::Human).exit, Exit::UpstreamDown);
    let worse = Response::Doctor(vec![check("ports_bound", false)]);
    assert_eq!(render(&worse, Output::Human).exit, Exit::Failed);
}

#[test]
fn a_logged_decision_is_shown_with_its_time_and_a_raw_line_as_it_stands() {
    let logged = LoggedDecision {
        at: settled(),
        event: event(),
    };
    assert_eq!(
        render_logged("{}", &Some(logged.clone()), Output::Human),
        "2026-02-02T02:40:00Z  api.example.com:443  upstream via no rule  upstream up  9ms  -\n"
    );
    assert_eq!(render_logged("{}", &Some(logged), Output::Json), "{}\n");
    assert_eq!(render_logged("boot", &None, Output::Human), "boot\n");
}

fn unread(line: &str) -> LogLine {
    LogLine {
        line: line.to_owned(),
        logged: None,
    }
}

#[test]
fn only_the_lines_inside_the_window_are_printed() {
    let fresh = r#"{"timestamp":"2026-02-02T02:40:00Z"}"#;
    let old = r#"{"timestamp":"2026-02-02T02:20:00Z"}"#;
    let lines = vec![
        unread(old),
        unread("not json"),
        LogLine {
            line: fresh.to_owned(),
            logged: Some(LoggedDecision {
                at: settled(),
                event: event(),
            }),
        },
    ];
    let quarter = Duration {
        secs: 900,
        nanos: 0,
    };
    let window = Window::asked(settled().0, Some(quarter));
    let shown =
        "2026-02-02T02:40:00Z  api.example.com:443  upstream via no rule  upstream up  9ms  -\n";
    assert_eq!(render_log(&window, &lines, Output::Human), shown);
    assert_eq!(
        render_log(&window, &lines, Output::Json),
        format!("{fresh}\n")
    );
    let everything = Window::asked(settled().0, None);
    assert_eq!(everything, Window::All);
    assert_eq!(
        render_log(&everything, &lines, Output::Json),
        format!("{old}\nnot json\n{fresh}\n")
    );
    assert_eq!(render_log(&everything, &Vec::new(), Output::Human), "");
}

#[test]
fn following_the_log_prints_what_one_look_would() {
    let first = render_log(&Window::All, &vec![unread("first"), unread("second")], Output::Json);
    let then = render_log(&Window::All, &vec![unread("third")], Output::Json);
    let lines = vec![unread("first"), unread("second"), unread("third")];
    assert_eq!(
        format!("{first}{then}"),
        render_log(&Window::All, &lines, Output::Json)
    );
    assert_eq!(format!("{first}{then}"), "first\nsecond\nthird\n");
}

#[test]
fn a_log_directory_holding_no_file_yet_is_reported_and_not_followed() {
    let Some(Rendering { out, err, exit }) = no_log(0, 0) else {
        panic!("a missing log must be reported");
    };
    assert_eq!(exit, Exit::Missing);
    assert_eq!(out, Printed::Nothing);
    assert_eq!(err, "nhop: no log file yet\n");
    assert_eq!(no_log(1, 0), None);
    assert_eq!(no_log(0, 1), None);
}

#[test]
fn a_failure_is_told_on_stderr() {
    assert_eq!(
        render_failure("denied", Exit::Failed),
        Rendering {
            out: Printed::Nothing,
            err: "nhop: denied\n".to_owned(),
            exit: Exit::Failed,
        }
    );
}

#[test]
fn the_proxy_settings_are_three_fixed_lines() {
    assert_eq!(
        render_settings(&configured().view()),
        "http  127.0.0.1:7890\nhttps  127.0.0.1:7890\nsocks  127.0.0.1:7891\n"
    );
    assert_eq!(
        render_settings(&SystemProxy::default().view()),
        "http  off\nhttps  off\nsocks  off\n"
    );
}

#[test]
fn a_proxy_action_is_read_by_its_name() {
    for action in [ProxyAction::On, ProxyAction::Off, ProxyAction::Status] {
        assert_eq!(parse_action(action.name()), Ok(action));
    }
    assert_eq!(parse_action("on"), Ok(ProxyAction::On));
    assert_eq!(parse_action("off"), Ok(ProxyAction::Off));
    assert_eq!(parse_action("status"), Ok(ProxyAction::Status));
    assert_eq!(
        parse_action("ON"),
        Err("unknown action \"ON\", expected on, off or status".to_owned())
    );
}

#[test]
fn text_is_quoted_with_its_quotes_and_backslashes_escaped() {
    assert_eq!(
        parse_action("a\"b\\c\n").unwrap_err(),
        "unknown action \"a\\\"b\\\\c\\n\", expected on, off or status"
    );
    assert_eq!(
        parse_action("on !#$%&()*+,-./09:;<=>?@AZ[]^_`az{|}~").unwrap_err(),
        "unknown action \"on !#$%&()*+,-./09:;<=>?@AZ[]^_`az{|}~\", expected on, off or status"
    );
}

#[test]
fn the_views_render_as_json_and_as_text() {
    let rules = vec![RuleView {
        index: 0,
        class: RuleClass::Require,
        kind: RuleKind::Suffix,
        value: value("example.com"),
    }];
    let Rendering { out, err, exit: _ } = render(&Response::Rules(rules.clone()), Output::Human);
    assert_eq!(
        out,
        Printed::Text("0  require  suffix  example.com\n".to_owned())
    );
    assert!(err.is_empty());

    let Rendering { out, err, exit: _ } = render(&Response::Rules(rules), Output::Json);
    assert_eq!(out, Printed::Document);
    assert!(err.is_empty());
}

#[test]
fn a_decision_renders_with_and_without_a_matching_rule() {
    let Rendering {
        out,
        err: _,
        exit: _,
    } = render(
        &Response::Decision(DecisionView {
            decision: DecisionKind::Upstream,
            rule_index: Some(3),
            class: Some(RuleClass::Prefer),
            next_hop: "socks5://192.0.2.10:1080".to_owned(),
        }),
        Output::Human,
    );
    assert_eq!(
        out,
        Printed::Text("upstream via rule 3 (prefer) to socks5://192.0.2.10:1080\n".to_owned())
    );

    let Rendering { out, err, exit: _ } = render(
        &Response::Decision(DecisionView {
            decision: DecisionKind::Direct,
            rule_index: None,
            class: None,
            next_hop: "example.net:443".to_owned(),
        }),
        Output::Human,
    );
    assert_eq!(
        out,
        Printed::Text("direct via no rule to example.net:443\n".to_owned())
    );
    assert!(err.is_empty());
}
