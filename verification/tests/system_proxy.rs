use nhop::cli::system_proxy::{
    accepted, bypass, disabling, enabling, parse, proxy_step, report, Answered, EmptyService,
    Invocation, NetworkService, NoSystemProxy, Privilege, ProxyEndpoint, ProxyFailure, ProxyKind,
    ProxyStep, SystemProxy, SystemProxyReader,
};
use nhop::cli::ProxyAction;
use nhop::ipc::SystemProxyView;
use nhop::net::SocketAddr;
use nhop::proxy::Listen;

fn addr(text: &str) -> SocketAddr {
    SocketAddr::parse(text).unwrap()
}

const ON: &str =
    "Enabled: Yes\nServer: 127.0.0.1\nPort: 7890\nAuthenticated Proxy Enabled: 0\n";
const OFF: &str = "Enabled: No\nServer: \nPort: 0\nAuthenticated Proxy Enabled: 0\n";

#[test]
fn an_enabled_setting_reads_as_its_endpoint() {
    assert_eq!(parse(ON), Some(ProxyEndpoint::new("127.0.0.1", 7890)));
    assert_eq!(
        parse("Enabled: Yes\nServer: proxy.example.com\nPort: 3128\n"),
        Some(ProxyEndpoint::new("proxy.example.com", 3128))
    );
}

#[test]
fn a_disabled_setting_reads_as_nothing() {
    assert_eq!(parse(OFF), None);
    assert_eq!(parse(""), None);
}

#[test]
fn an_enabled_setting_without_a_usable_address_reads_as_nothing() {
    assert_eq!(parse("Enabled: Yes\nServer: \nPort: 7890\n"), None);
    assert_eq!(parse("Enabled: Yes\nServer: 127.0.0.1\nPort: 0\n"), None);
    assert_eq!(
        parse("Enabled: Yes\nServer: 127.0.0.1\nPort: seventy\n"),
        None
    );
    assert_eq!(parse("Enabled: Yes\nServer: 127.0.0.1\n"), None);
}

#[test]
fn a_report_that_is_not_a_setting_reads_as_nothing() {
    assert_eq!(parse("** Error: The parameters were not valid. **\n"), None);
    assert_eq!(parse("Authenticated Proxy Enabled: 1\n"), None);
}

#[test]
fn every_setting_names_its_own_networksetup_flag() {
    assert_eq!(ProxyKind::Http.read_flag(), "-getwebproxy");
    assert_eq!(ProxyKind::Https.read_flag(), "-getsecurewebproxy");
    assert_eq!(ProxyKind::Socks.read_flag(), "-getsocksfirewallproxy");

    assert_eq!(ProxyKind::Http.write_flag(), "-setwebproxy");
    assert_eq!(ProxyKind::Https.write_flag(), "-setsecurewebproxy");
    assert_eq!(ProxyKind::Socks.write_flag(), "-setsocksfirewallproxy");

    assert_eq!(ProxyKind::Http.state_flag(), "-setwebproxystate");
    assert_eq!(ProxyKind::Https.state_flag(), "-setsecurewebproxystate");
    assert_eq!(ProxyKind::Socks.state_flag(), "-setsocksfirewallproxystate");
}

fn listen() -> Listen {
    Listen {
        http: addr("127.0.0.1:7890"),
        socks: addr("127.0.0.1:7891"),
    }
}

fn argv(invocations: &[Invocation]) -> Vec<Vec<String>> {
    let mut rendered = Vec::new();
    for invocation in invocations {
        rendered.push(invocation.argv());
    }
    rendered
}

#[test]
fn turning_the_proxy_on_points_all_three_settings_at_the_front_ends() {
    let argv = argv(&enabling(listen(), &NetworkService::default()));

    assert_eq!(argv.len(), 4, "{argv:?}");
    assert_eq!(argv[0], ["-setwebproxy", "Wi-Fi", "127.0.0.1", "7890"]);
    assert_eq!(
        argv[1],
        ["-setsecurewebproxy", "Wi-Fi", "127.0.0.1", "7890"]
    );
    assert_eq!(
        argv[2],
        ["-setsocksfirewallproxy", "Wi-Fi", "127.0.0.1", "7891"]
    );
}

#[test]
fn turning_the_proxy_on_sets_the_bypass_list_to_the_constant() {
    assert_eq!(bypass(), ["localhost", "127.0.0.1", "*.local", "169.254/16"]);

    let argv = argv(&enabling(listen(), &NetworkService::default()));

    assert_eq!(
        argv[3],
        [
            "-setproxybypassdomains",
            "Wi-Fi",
            "localhost",
            "127.0.0.1",
            "*.local",
            "169.254/16"
        ]
    );
}

#[test]
fn turning_the_proxy_off_disables_all_three_settings() {
    let argv = argv(&disabling(&NetworkService::default()));

    assert_eq!(argv.len(), 3, "{argv:?}");
    assert_eq!(argv[0], ["-setwebproxystate", "Wi-Fi", "off"]);
    assert_eq!(argv[1], ["-setsecurewebproxystate", "Wi-Fi", "off"]);
    assert_eq!(argv[2], ["-setsocksfirewallproxystate", "Wi-Fi", "off"]);
}

#[test]
fn a_service_whose_name_carries_a_space_stays_one_argument() {
    let service = NetworkService::parse("Thunderbolt Ethernet").unwrap();

    let on = argv(&enabling(listen(), &service));
    let off = argv(&disabling(&service));

    assert_eq!(
        on[0],
        ["-setwebproxy", "Thunderbolt Ethernet", "127.0.0.1", "7890"]
    );
    assert_eq!(
        off[2],
        ["-setsocksfirewallproxystate", "Thunderbolt Ethernet", "off"]
    );
}

#[test]
fn front_ends_on_other_addresses_are_written_as_a_host_and_a_port() {
    let listen = Listen {
        http: addr("192.168.1.5:18080"),
        socks: addr("192.168.1.5:18081"),
    };

    let argv = argv(&enabling(listen, &NetworkService::default()));

    assert_eq!(argv[0], ["-setwebproxy", "Wi-Fi", "192.168.1.5", "18080"]);
    assert_eq!(
        argv[2],
        ["-setsocksfirewallproxy", "Wi-Fi", "192.168.1.5", "18081"]
    );
}

#[test]
fn the_settings_render_as_the_wire_strings() {
    let proxy = SystemProxy {
        http: parse(ON),
        https: parse(ON),
        socks: parse(OFF),
    };
    assert_eq!(
        proxy.view(),
        SystemProxyView {
            http: Some("127.0.0.1:7890".to_owned()),
            https: Some("127.0.0.1:7890".to_owned()),
            socks: None,
        }
    );
    assert_eq!(
        SystemProxy::default().view(),
        SystemProxyView {
            http: None,
            https: None,
            socks: None,
        }
    );
}

#[test]
fn the_service_defaults_to_the_one_the_operator_configures() {
    assert_eq!(
        NetworkService::default(),
        NetworkService("Wi-Fi".to_owned())
    );
    assert_eq!(NetworkService::default().0, "Wi-Fi");
    assert_eq!(
        NetworkService::parse("Ethernet").unwrap(),
        NetworkService("Ethernet".to_owned())
    );
    assert_eq!(NetworkService::parse("").unwrap_err(), EmptyService);
}

#[test]
fn a_reader_that_asks_nobody_reports_every_setting_off() {
    let read = NoSystemProxy.read(&NetworkService::default()).unwrap();
    assert_eq!(read, SystemProxy::default());
}

fn answered(success: bool, stdout: &[u8]) -> Answered {
    Answered {
        success,
        status: "exit status: 4".to_owned(),
        stdout: stdout.to_vec(),
    }
}

#[test]
fn a_report_is_text_a_refusal_or_unreadable() {
    assert_eq!(report("-getwebproxy", answered(true, ON.as_bytes())), Ok(ON.to_owned()));
    let refused = report("-getwebproxy", answered(false, b"")).unwrap_err();
    assert_eq!(
        refused,
        ProxyFailure::Refused {
            flag: "-getwebproxy",
            status: "exit status: 4".to_owned(),
        }
    );
    assert_eq!(
        refused.message(),
        "networksetup -getwebproxy exited with exit status: 4"
    );
    let unreadable = report("-getwebproxy", answered(true, b"\xff")).unwrap_err();
    assert_eq!(
        unreadable.message(),
        "networksetup -getwebproxy answered with something that is not utf-8"
    );
    assert_eq!(
        ProxyFailure::NotRun("no such file".to_owned()).message(),
        "cannot run networksetup: no such file"
    );
}

#[test]
fn only_the_user_with_number_zero_is_root() {
    assert_eq!(Privilege::of(0), Privilege::Root);
    assert_eq!(Privilege::of(501), Privilege::Unprivileged);
    assert_eq!(EmptyService.message(), "network service must not be empty");
}

#[test]
fn the_last_line_that_names_a_field_counts() {
    assert_eq!(
        parse("Enabled: No\r\nEnabled: Yes\r\nServer: a\r\nServer: b\r\nPort: 1\r\nPort: 2\r\n"),
        Some(ProxyEndpoint::new("b", 2))
    );
}

#[test]
fn changing_the_settings_without_root_is_refused_with_the_invocation_that_has_it() {
    let wifi = NetworkService::default();
    assert_eq!(
        proxy_step(ProxyAction::On, Privilege::Unprivileged, &wifi),
        ProxyStep::Refuse("this needs root, run `sudo nhop proxy on --service 'Wi-Fi'`".to_owned())
    );
    let named = NetworkService("Ann's 'net'".to_owned());
    assert_eq!(
        proxy_step(ProxyAction::Off, Privilege::Unprivileged, &named),
        ProxyStep::Refuse(
            r"this needs root, run `sudo nhop proxy off --service 'Ann'\''s '\''net'\'''`".to_owned()
        )
    );
}

#[test]
fn reading_the_settings_needs_no_root_and_root_may_change_them() {
    let wifi = NetworkService::default();
    for privilege in [Privilege::Root, Privilege::Unprivileged] {
        assert_eq!(
            proxy_step(ProxyAction::Status, privilege, &wifi),
            ProxyStep::Show
        );
    }
    assert_eq!(
        proxy_step(ProxyAction::On, Privilege::Root, &wifi),
        ProxyStep::Point
    );
    assert_eq!(
        proxy_step(ProxyAction::Off, Privilege::Root, &wifi),
        ProxyStep::SwitchOff
    );
}

#[test]
fn a_write_is_accepted_or_refused_by_its_exit() {
    assert_eq!(accepted("-setwebproxy", &answered(true, b"\xff")), Ok(()));
    assert_eq!(
        accepted("-setwebproxy", &answered(false, b"")).unwrap_err().message(),
        "networksetup -setwebproxy exited with exit status: 4"
    );
}
