//! The proxy settings macOS keeps per network service.
use vstd::prelude::*;
use vstd::utf8::{decode_utf8, valid_utf8};

use crate::cli::args::ProxyAction;
use crate::ipc::SystemProxyView;
use crate::net::{ip_text, SocketAddr};
use crate::proxy::Listen;
use crate::readback;
use crate::text;
use crate::text::{contents, decimal, fields, first_of, joined, number, trimmed, views};

verus! {

/// Network service the system proxy is applied to on the target machine.
pub const DEFAULT_SERVICE: &'static str = "Wi-Fi";

/// Flag that sets the bypass list.
pub const BYPASS_FLAG: &'static str = "-setproxybypassdomains";

/// Program that reads and writes the settings.
///
/// It is named by its absolute path: the writes run under `sudo`, which keeps the invoking user's
/// search path on macOS, so a bare name would let any directory on it decide what runs as root.
pub const NETWORKSETUP: &'static str = "/usr/sbin/networksetup";

/// macOS network service the system proxy settings belong to.
#[derive(Debug, Clone, PartialEq, Eq)]
pub struct NetworkService(pub String);

/// Rejection of a service name macOS cannot be asked about.
#[derive(Debug, Clone, Copy, PartialEq, Eq, Structural)]
pub struct EmptyService;

impl EmptyService {
    /// Returns the explanation shown to the operator.
    pub fn message(&self) -> (r: &'static str)
        ensures
            r@ == "network service must not be empty"@,
    {
        "network service must not be empty"
    }
}

impl Default for NetworkService {
    fn default() -> (r: Self)
        ensures
            r.0@ == DEFAULT_SERVICE@,
    {
        NetworkService(DEFAULT_SERVICE.to_owned())
    }
}

impl NetworkService {
    /// Reads a service name.
    ///
    /// # Errors
    ///
    /// Returns [`EmptyService`] for an empty one.
    pub fn parse(service: &str) -> (r: Result<NetworkService, EmptyService>)
        ensures
            match r {
                Ok(named) => named.0@ == service@ && service@.len() > 0,
                Err(_) => service@.len() == 0,
            },
    {
        if service.is_empty() {
            return Err(EmptyService);
        }
        Ok(NetworkService(service.to_owned()))
    }
}

/// One of the three proxy settings macOS keeps per network service.
#[derive(Debug, Clone, Copy, PartialEq, Eq, Structural)]
pub enum ProxyKind {
    /// Proxy plain HTTP traffic is sent to.
    Http,
    /// Proxy HTTPS traffic is sent to.
    Https,
    /// Proxy SOCKS traffic is sent to.
    Socks,
}

impl ProxyKind {
    /// The flag that reports this setting.
    pub open spec fn reads(self) -> Seq<char> {
        match self {
            ProxyKind::Http => "-getwebproxy"@,
            ProxyKind::Https => "-getsecurewebproxy"@,
            ProxyKind::Socks => "-getsocksfirewallproxy"@,
        }
    }

    /// The flag that points this setting at an address and turns it on.
    pub open spec fn writes(self) -> Seq<char> {
        match self {
            ProxyKind::Http => "-setwebproxy"@,
            ProxyKind::Https => "-setsecurewebproxy"@,
            ProxyKind::Socks => "-setsocksfirewallproxy"@,
        }
    }

    /// The flag that turns this setting on or off without moving it.
    pub open spec fn switches(self) -> Seq<char> {
        match self {
            ProxyKind::Http => "-setwebproxystate"@,
            ProxyKind::Https => "-setsecurewebproxystate"@,
            ProxyKind::Socks => "-setsocksfirewallproxystate"@,
        }
    }

    /// Returns the `networksetup` flag that reports this setting.
    pub fn read_flag(self) -> (r: &'static str)
        ensures
            r@ == self.reads(),
    {
        match self {
            Self::Http => "-getwebproxy",
            Self::Https => "-getsecurewebproxy",
            Self::Socks => "-getsocksfirewallproxy",
        }
    }

    /// Returns the `networksetup` flag that points this setting at an address and turns it on.
    pub fn write_flag(self) -> (r: &'static str)
        ensures
            r@ == self.writes(),
    {
        match self {
            Self::Http => "-setwebproxy",
            Self::Https => "-setsecurewebproxy",
            Self::Socks => "-setsocksfirewallproxy",
        }
    }

    /// Returns the `networksetup` flag that turns this setting on or off without moving it.
    pub fn state_flag(self) -> (r: &'static str)
        ensures
            r@ == self.switches(),
    {
        match self {
            Self::Http => "-setwebproxystate",
            Self::Https => "-setsecurewebproxystate",
            Self::Socks => "-setsocksfirewallproxystate",
        }
    }
}

/// Whether this process may change settings macOS keeps for the whole machine.
#[derive(Debug, Clone, Copy, PartialEq, Eq, Structural)]
pub enum Privilege {
    /// Running as root, so `networksetup` accepts a write.
    Root,
    /// Running as somebody else, so a write would be refused.
    Unprivileged,
}

impl Privilege {
    /// Returns the privilege of a process running as this user.
    pub fn of(euid: u32) -> (r: Privilege)
        ensures
            r == if euid == 0 {
                Privilege::Root
            } else {
                Privilege::Unprivileged
            },
    {
        if euid == 0 {
            return Self::Root;
        }
        Self::Unprivileged
    }
}

/// One `networksetup` invocation.
#[derive(Debug, Clone, PartialEq, Eq)]
pub struct Invocation {
    /// Flag naming what `networksetup` is asked to change.
    pub flag: &'static str,
    /// Arguments following the flag, the network service first.
    pub arguments: Vec<String>,
}

impl Invocation {
    /// Whether the invocation is this flag with these arguments.
    pub open spec fn is(&self, flag: Seq<char>, arguments: Seq<Seq<char>>) -> bool {
        self.flag@ == flag && contents(self.arguments@) == arguments
    }

    /// Returns the whole command line, as `networksetup` is run with it.
    pub fn argv(&self) -> (r: Vec<String>)
        ensures
            contents(r@) == seq![self.flag@] + contents(self.arguments@),
    {
        let mut argv: Vec<String> = Vec::new();
        argv.push(self.flag.to_owned());
        let mut i: usize = 0;
        while i < self.arguments.len()
            invariant
                i <= self.arguments.len(),
                argv.len() == i + 1,
                argv@[0]@ == self.flag@,
                forall|j: int| 0 <= j < i ==> argv@[j + 1] == #[trigger] self.arguments@[j],
            decreases self.arguments.len() - i,
        {
            argv.push(self.arguments[i].clone());
            i += 1;
        }
        proof {
            let whole = seq![self.flag@] + contents(self.arguments@);
            assert forall|j: int| 0 <= j < whole.len() implies contents(argv@)[j] == whole[j] by {
                if j > 0 {
                    assert(argv@[j - 1 + 1] == self.arguments@[j - 1]);
                }
            }
            assert(contents(argv@) =~= whole);
        }
        argv
    }
}

fn invocation(flag: &'static str, service: &NetworkService, rest: Vec<String>) -> (r: Invocation)
    ensures
        r.is(flag@, seq![service.0@] + contents(rest@)),
{
    let mut arguments: Vec<String> = Vec::new();
    arguments.push(service.0.clone());
    let mut i: usize = 0;
    while i < rest.len()
        invariant
            i <= rest.len(),
            arguments.len() == i + 1,
            arguments@[0] == service.0,
            forall|j: int| 0 <= j < i ==> arguments@[j + 1] == #[trigger] rest@[j],
        decreases rest.len() - i,
    {
        arguments.push(rest[i].clone());
        i += 1;
    }
    proof {
        let whole = seq![service.0@] + contents(rest@);
        assert forall|j: int| 0 <= j < whole.len() implies contents(arguments@)[j] == whole[j] by {
            if j > 0 {
                assert(arguments@[j - 1 + 1] == rest@[j - 1]);
            }
        }
        assert(contents(arguments@) =~= whole);
    }
    Invocation { flag, arguments }
}

fn pointing(kind: ProxyKind, addr: SocketAddr, service: &NetworkService) -> (r: Invocation)
    ensures
        r.is(kind.writes(), seq![service.0@, ip_text(addr.ip), decimal(addr.port as nat)]),
{
    let mut rest: Vec<String> = Vec::new();
    rest.push(addr.ip.text());
    rest.push(text::decimal_text(addr.port as u64));
    assert(seq![service.0@] + contents(rest@) =~= seq![
        service.0@,
        ip_text(addr.ip),
        decimal(addr.port as nat),
    ]);
    invocation(kind.write_flag(), service, rest)
}

/// Hosts and networks macOS must reach without going through the router.
///
/// This is not the daemon's `never` class: those rules apply to traffic that already reached a
/// front end, while this list keeps traffic from being sent to one at all.
pub open spec fn bypassed() -> Seq<Seq<char>> {
    seq!["localhost"@, "127.0.0.1"@, "*.local"@, "169.254/16"@]
}

/// Returns the hosts and networks macOS must reach without going through the router.
pub fn bypass() -> (r: Vec<String>)
    ensures
        contents(r@) == bypassed(),
{
    let mut r: Vec<String> = Vec::new();
    r.push("localhost".to_owned());
    r.push("127.0.0.1".to_owned());
    r.push("*.local".to_owned());
    r.push("169.254/16".to_owned());
    assert(contents(r@) =~= bypassed());
    r
}

/// Returns the invocations that point a service at the front ends and set the bypass list.
pub fn enabling(listen: Listen, service: &NetworkService) -> (r: Vec<Invocation>)
    ensures
        r.len() == 4,
        r@[0].is(
            ProxyKind::Http.writes(),
            seq![service.0@, ip_text(listen.http.ip), decimal(listen.http.port as nat)],
        ),
        r@[1].is(
            ProxyKind::Https.writes(),
            seq![service.0@, ip_text(listen.http.ip), decimal(listen.http.port as nat)],
        ),
        r@[2].is(
            ProxyKind::Socks.writes(),
            seq![service.0@, ip_text(listen.socks.ip), decimal(listen.socks.port as nat)],
        ),
        r@[3].is(BYPASS_FLAG@, seq![service.0@] + bypassed()),
{
    let mut r: Vec<Invocation> = Vec::new();
    r.push(pointing(ProxyKind::Http, listen.http, service));
    r.push(pointing(ProxyKind::Https, listen.http, service));
    r.push(pointing(ProxyKind::Socks, listen.socks, service));
    r.push(invocation(BYPASS_FLAG, service, bypass()));
    r
}

fn switching_off(kind: ProxyKind, service: &NetworkService) -> (r: Invocation)
    ensures
        r.is(kind.switches(), seq![service.0@, "off"@]),
{
    let mut rest: Vec<String> = Vec::new();
    rest.push("off".to_owned());
    assert(seq![service.0@] + contents(rest@) =~= seq![service.0@, "off"@]);
    invocation(kind.state_flag(), service, rest)
}

/// Returns the invocations that turn all three settings of a service off.
pub fn disabling(service: &NetworkService) -> (r: Vec<Invocation>)
    ensures
        r.len() == 3,
        r@[0].is(ProxyKind::Http.switches(), seq![service.0@, "off"@]),
        r@[1].is(ProxyKind::Https.switches(), seq![service.0@, "off"@]),
        r@[2].is(ProxyKind::Socks.switches(), seq![service.0@, "off"@]),
{
    let mut r: Vec<Invocation> = Vec::new();
    r.push(switching_off(ProxyKind::Http, service));
    r.push(switching_off(ProxyKind::Https, service));
    r.push(switching_off(ProxyKind::Socks, service));
    r
}

/// Address of one configured proxy.
#[derive(Debug, Clone, PartialEq, Eq)]
pub struct ProxyEndpoint {
    host: String,
    port: u16,
}

impl ProxyEndpoint {
    /// The host macOS reports.
    pub closed spec fn server(&self) -> Seq<char> {
        self.host@
    }

    /// The port macOS reports.
    pub closed spec fn number(&self) -> u16 {
        self.port
    }

    /// The address as it is shown.
    pub open spec fn shown(&self) -> Seq<char> {
        self.server() + ":"@ + decimal(self.number() as nat)
    }

    /// Names the host and port macOS reports for a setting that is on.
    pub fn new(host: &str, port: u16) -> (r: ProxyEndpoint)
        ensures
            r.server() == host@,
            r.number() == port,
    {
        ProxyEndpoint { host: host.to_owned(), port }
    }

    /// Returns the address as it is shown.
    pub fn text(&self) -> (r: String)
        ensures
            r@ == self.shown(),
    {
        let mut r = self.host.clone();
        r.append(":");
        r.append(text::decimal_text(self.port as u64).as_str());
        r
    }
}

/// Proxy settings macOS reports for one network service.
#[derive(Debug, Clone, PartialEq, Eq)]
pub struct SystemProxy {
    /// Configured HTTP proxy, absent when the setting is off.
    pub http: Option<ProxyEndpoint>,
    /// Configured HTTPS proxy, absent when the setting is off.
    pub https: Option<ProxyEndpoint>,
    /// Configured SOCKS proxy, absent when the setting is off.
    pub socks: Option<ProxyEndpoint>,
}

impl Default for SystemProxy {
    fn default() -> (r: Self)
        ensures
            r == (SystemProxy { http: None, https: None, socks: None }),
    {
        SystemProxy { http: None, https: None, socks: None }
    }
}

/// Whether a setting is shown as this text.
pub open spec fn shows(text: Option<String>, endpoint: Option<ProxyEndpoint>) -> bool {
    match endpoint {
        Some(endpoint) => text matches Some(text) && text@ == endpoint.shown(),
        None => text is None,
    }
}

impl SystemProxy {
    /// Renders the settings as the IPC contract carries them.
    pub fn view(&self) -> (r: SystemProxyView)
        ensures
            shows(r.http, self.http),
            shows(r.https, self.https),
            shows(r.socks, self.socks),
    {
        SystemProxyView {
            http: named(&self.http),
            https: named(&self.https),
            socks: named(&self.socks),
        }
    }
}

fn named(endpoint: &Option<ProxyEndpoint>) -> (r: Option<String>)
    ensures
        shows(r, *endpoint),
{
    match endpoint {
        Some(endpoint) => Some(endpoint.text()),
        None => None,
    }
}

/// Reason the system proxy settings could not be read or written.
#[derive(Debug, Clone, PartialEq, Eq)]
pub enum ProxyFailure {
    /// `networksetup` could not be run at all.
    NotRun(String),
    /// `networksetup` ran and refused the question.
    Refused {
        /// Flag `networksetup` was asked with.
        flag: &'static str,
        /// Status it exited with.
        status: String,
    },
    /// `networksetup` answered with bytes that are not text.
    Unreadable(&'static str),
}

/// The explanation shown to the operator.
pub open spec fn failure_text(failure: ProxyFailure) -> Seq<char> {
    match failure {
        ProxyFailure::NotRun(failure) => "cannot run networksetup: "@ + failure@,
        ProxyFailure::Refused { flag, status } => "networksetup "@ + flag@ + " exited with "@
            + status@,
        ProxyFailure::Unreadable(flag) => "networksetup "@ + flag@
            + " answered with something that is not utf-8"@,
    }
}

impl ProxyFailure {
    /// Returns the explanation shown to the operator.
    pub fn message(&self) -> (r: String)
        ensures
            r@ == failure_text(*self),
    {
        match self {
            Self::NotRun(failure) => {
                let mut r = "cannot run networksetup: ".to_owned();
                r.append(failure.as_str());
                r
            },
            Self::Refused { flag, status } => {
                let mut r = "networksetup ".to_owned();
                r.append(flag);
                r.append(" exited with ");
                r.append(status.as_str());
                r
            },
            Self::Unreadable(flag) => {
                let mut r = "networksetup ".to_owned();
                r.append(flag);
                r.append(" answered with something that is not utf-8");
                r
            },
        }
    }
}

/// How one run of `networksetup` ended.
#[derive(Debug, Clone, PartialEq, Eq)]
pub struct Answered {
    /// Whether it exited with success.
    pub success: bool,
    /// Status it exited with.
    pub status: String,
    /// What it printed.
    pub stdout: Vec<u8>,
}

/// Reads whether a run of `networksetup` did what it was asked.
///
/// # Errors
///
/// Returns [`ProxyFailure`] where it refused.
pub fn accepted(flag: &'static str, answered: &Answered) -> (r: Result<(), ProxyFailure>)
    ensures
        r == if answered.success {
            Ok::<(), ProxyFailure>(())
        } else {
            Err(ProxyFailure::Refused { flag, status: answered.status })
        },
{
    if answered.success {
        Ok(())
    } else {
        Err(ProxyFailure::Refused { flag, status: answered.status.clone() })
    }
}

/// Reads what a run of `networksetup` reported.
///
/// # Errors
///
/// Returns [`ProxyFailure`] where it refused or answered with something that is not text.
pub fn report(flag: &'static str, answered: Answered) -> (r: Result<String, ProxyFailure>)
    ensures
        if !answered.success {
            r == Err::<String, ProxyFailure>(
                ProxyFailure::Refused { flag, status: answered.status },
            )
        } else if !valid_utf8(answered.stdout@) {
            r == Err::<String, ProxyFailure>(ProxyFailure::Unreadable(flag))
        } else {
            r matches Ok(s) && s@ == decode_utf8(answered.stdout@)
        },
{
    match accepted(flag, &answered) {
        Ok(_) => {},
        Err(failure) => {
            return Err(failure);
        },
    }
    match text::utf8(answered.stdout.as_slice()) {
        Some(reported) => Ok(reported.to_owned()),
        None => Err(ProxyFailure::Unreadable(flag)),
    }
}

/// What `nhop proxy` does.
#[derive(Debug, Clone, PartialEq, Eq)]
pub enum ProxyStep {
    /// Reads the settings and shows them.
    Show,
    /// Asks the daemon where it listens and points the settings there.
    Point,
    /// Turns the settings off.
    SwitchOff,
    /// Changes nothing and tells the operator this.
    Refuse(String),
}

/// A text with every single quote written so that a shell reads it back inside single quotes.
pub open spec fn shell_escaped(s: Seq<char>) -> Seq<char> {
    joined(fields(s, '\''), "'\\''"@)
}

fn shell_escape(s: &str) -> (r: String)
    ensures
        r@ == shell_escaped(s@),
{
    let split = text::split(s, '\'');
    let mut parts: Vec<String> = Vec::new();
    let mut i: usize = 0;
    while i < split.len()
        invariant
            i <= split.len(),
            parts.len() == i,
            forall|j: int| 0 <= j < i ==> (#[trigger] parts@[j])@ == split@[j]@,
        decreases split.len() - i,
    {
        parts.push(split[i].to_owned());
        i += 1;
    }
    assert(contents(parts@) =~= views(split@));
    text::join(&parts, "'\\''")
}

/// What an operator without root is told: the invocation that has it.
pub open spec fn root_text(action: ProxyAction, service: Seq<char>) -> Seq<char> {
    "this needs root, run `sudo nhop proxy "@ + action.text() + " --service '"@ + shell_escaped(
        service,
    ) + "'`"@
}

/// Decides what `nhop proxy` does: reading is for everyone, changing the settings for root alone,
/// and nobody is prompted.
pub fn proxy_step(action: ProxyAction, privilege: Privilege, service: &NetworkService) -> (r:
    ProxyStep)
    ensures
        match (action, privilege) {
            (ProxyAction::Status, _) => r == ProxyStep::Show,
            (ProxyAction::On, Privilege::Root) => r == ProxyStep::Point,
            (ProxyAction::Off, Privilege::Root) => r == ProxyStep::SwitchOff,
            (_, Privilege::Unprivileged) => r matches ProxyStep::Refuse(told) && told@ == root_text(
                action,
                service.0@,
            ),
        },
{
    match (action, privilege) {
        (ProxyAction::Status, _) => ProxyStep::Show,
        (ProxyAction::On, Privilege::Root) => ProxyStep::Point,
        (ProxyAction::Off, Privilege::Root) => ProxyStep::SwitchOff,
        (_, Privilege::Unprivileged) => {
            let mut told = "this needs root, run `sudo nhop proxy ".to_owned();
            told.append(action.name());
            told.append(" --service '");
            told.append(shell_escape(service.0.as_str()).as_str());
            told.append("'`");
            ProxyStep::Refuse(told)
        },
    }
}

/// Reads the proxy settings macOS holds for a network service.
pub trait SystemProxyReader {
    /// Returns the three proxy settings of `service`.
    ///
    /// # Errors
    ///
    /// Returns [`ProxyFailure`] when macOS cannot be asked or does not answer.
    fn read(&self, service: &NetworkService) -> Result<SystemProxy, ProxyFailure>;
}

/// Reader that reports every setting off without asking macOS.
///
/// This is what a daemon on a machine without `networksetup` reads, and what tests read so that a
/// status never depends on the proxy settings of the machine running them.
#[derive(Debug, Clone, Copy, Default, PartialEq, Eq, Structural)]
pub struct NoSystemProxy;

impl SystemProxyReader for NoSystemProxy {
    fn read(&self, service: &NetworkService) -> (r: Result<SystemProxy, ProxyFailure>)
        ensures
            r == Ok::<SystemProxy, ProxyFailure>(
                SystemProxy { http: None, https: None, socks: None },
            ),
    {
        Ok(SystemProxy { http: None, https: None, socks: None })
    }
}

/// The value of the last line that names this field.
pub open spec fn last_value(ls: Seq<Seq<char>>, name: Seq<char>) -> Option<Seq<char>>
    decreases ls.len(),
{
    if ls.len() == 0 {
        None
    } else {
        let line = ls.last();
        let k = first_of(line, ':') as int;
        if k < line.len() && trimmed(line.take(k)) == name {
            Some(trimmed(line.skip(k + 1)))
        } else {
            last_value(ls.drop_last(), name)
        }
    }
}

/// The port a report names, zero where it names none.
pub open spec fn reported_port(ls: Seq<Seq<char>>) -> u16 {
    match last_value(ls, "Port"@) {
        Some(value) => match number(value, 0xffff) {
            Some(port) => port as u16,
            None => 0,
        },
        None => 0,
    }
}

/// The address a report names: on, with a server and a port other than zero.
pub open spec fn endpoint_read(reported: Seq<char>) -> Option<(Seq<char>, u16)> {
    let ls = fields(reported, '\n');
    match last_value(ls, "Server"@) {
        Some(host) => if last_value(ls, "Enabled"@) == Some("Yes"@) && host.len() > 0
            && reported_port(ls) != 0 {
            Some((host, reported_port(ls)))
        } else {
            None
        },
        None => None,
    }
}

fn value_of<'a>(ls: &Vec<&'a str>, name: &str) -> (r: Option<&'a str>)
    ensures
        match r {
            Some(value) => last_value(views(ls@), name@) == Some(value@),
            None => last_value(views(ls@), name@) is None,
        },
{
    let ghost all = views(ls@);
    let mut i: usize = ls.len();
    assert(all.take(i as int) =~= all);
    while i > 0
        invariant
            all == views(ls@),
            i <= ls.len(),
            last_value(all, name@) == last_value(all.take(i as int), name@),
        decreases i,
    {
        let line: &'a str = ls[i - 1];
        let ghost longer = all.take(i as int);
        assert(longer.last() == line@);
        assert(longer.drop_last() =~= all.take(i - 1));
        match text::split_once(line, ':') {
            None => {},
            Some((field, value)) => {
                if text::same(text::trim(field), name) {
                    return Some(text::trim(value));
                }
            },
        }
        i -= 1;
    }
    None
}

/// Reads one `networksetup` proxy report.
///
/// Returns [`None`] when the setting is off or names no address that can be dialled.
pub fn parse(reported: &str) -> (r: Option<ProxyEndpoint>)
    ensures
        match endpoint_read(reported@) {
            Some((host, port)) => r matches Some(endpoint) && endpoint.server() == host
                && endpoint.number() == port,
            None => r is None,
        },
{
    let ls = text::split(reported, '\n');
    let enabled = match value_of(&ls, "Enabled") {
        Some(value) => text::same(value, "Yes"),
        None => false,
    };
    let port: u16 = match value_of(&ls, "Port") {
        Some(value) => match text::read_number(value, 0xffff) {
            Some(port) => port as u16,
            None => 0,
        },
        None => 0,
    };
    match value_of(&ls, "Server") {
        None => None,
        Some(host) => {
            if !enabled || host.is_empty() || port == 0 {
                return None;
            }
            Some(ProxyEndpoint::new(host, port))
        },
    }
}

/// The flags the settings are read, written and switched with.
pub proof fn law_the_flags_of_the_settings()
    ensures
        ProxyKind::Http.reads() == "-getwebproxy"@,
        ProxyKind::Https.reads() == "-getsecurewebproxy"@,
        ProxyKind::Socks.reads() == "-getsocksfirewallproxy"@,
        ProxyKind::Http.writes() == "-setwebproxy"@,
        ProxyKind::Https.writes() == "-setsecurewebproxy"@,
        ProxyKind::Socks.writes() == "-setsocksfirewallproxy"@,
        ProxyKind::Http.switches() == "-setwebproxystate"@,
        ProxyKind::Https.switches() == "-setsecurewebproxystate"@,
        ProxyKind::Socks.switches() == "-setsocksfirewallproxystate"@,
        BYPASS_FLAG@ == "-setproxybypassdomains"@,
        bypassed() == seq!["localhost"@, "127.0.0.1"@, "*.local"@, "169.254/16"@],
{
}

/// An invocation is a flag and its arguments.
pub proof fn law_what_an_invocation_is(
    invocation: Invocation,
    flag: Seq<char>,
    arguments: Seq<Seq<char>>,
)
    ensures
        invocation.is(flag, arguments) <==> invocation.flag@ == flag && contents(
            invocation.arguments@,
        ) == arguments,
{
}

/// A setting is shown as its host and its port, and not at all where it is off.
pub proof fn law_how_a_setting_is_shown(text: Option<String>, endpoint: ProxyEndpoint)
    ensures
        shows(text, None) <==> text is None,
        shows(text, Some(endpoint)) <==> (text matches Some(text) && text@ == endpoint.server() + ":"@
            + decimal(endpoint.number() as nat)),
{
}

/// Why the settings could not be read or written.
pub proof fn law_how_a_failure_is_told(flag: &'static str, text: String)
    ensures
        failure_text(ProxyFailure::NotRun(text)) == "cannot run networksetup: "@ + text@,
        failure_text(ProxyFailure::Refused { flag, status: text }) == "networksetup "@ + flag@
            + " exited with "@ + text@,
        failure_text(ProxyFailure::Unreadable(flag)) == "networksetup "@ + flag@
            + " answered with something that is not utf-8"@,
{
}

/// Of the lines that name a field the last one counts: its value is what stands behind the colon
/// without white space round it, and lines that name another field change nothing.
pub proof fn law_the_last_line_of_a_field_counts(
    ls: Seq<Seq<char>>,
    label: Seq<char>,
    value: Seq<char>,
    name: Seq<char>,
)
    requires
        !label.contains(':'),
    ensures
        trimmed(label) == name ==> last_value(ls.push(label.push(':') + value), name) == Some(
            trimmed(value),
        ),
        trimmed(label) != name ==> last_value(ls.push(label.push(':') + value), name) == last_value(
            ls,
            name,
        ),
        last_value(ls.push(label), name) == last_value(ls, name),
        last_value(Seq::empty(), name) is None,
{
    let line = label.push(':') + value;
    let k = label.len() as int;
    assert forall|j: int| 0 <= j < k implies label[j] != ':' by {
        assert(label.contains(label[j]));
    }
    assert forall|j: int| 0 <= j < k implies line[j] != ':' by {
        assert(line[j] == label[j]);
    }
    assert(line[k] == ':');
    text::lemma_first_of_is(line, ':', k);
    text::lemma_first_of_is(label, ':', k);
    assert(line.take(k) =~= label);
    assert(line.skip(k + 1) =~= value);
    assert(ls.push(line).drop_last() =~= ls);
    assert(ls.push(label).drop_last() =~= ls);
}

/// A report is of a proxy exactly where it says that the setting is on and names a server and a port
/// other than zero.
pub proof fn law_when_a_setting_is_on(reported: Seq<char>, host: Seq<char>, port: u16)
    ensures
        ({
            let ls = fields(reported, '\n');
            &&& endpoint_read(reported) is Some ==> last_value(ls, "Enabled"@) == Some("Yes"@)
            &&& last_value(ls, "Enabled"@) == Some("Yes"@) && last_value(ls, "Server"@) == Some(host)
                && last_value(ls, "Port"@) == Some(decimal(port as nat)) && host.len() > 0 && port != 0
                ==> endpoint_read(reported) == Some((host, port))
            &&& last_value(ls, "Server"@) is None ==> endpoint_read(reported) is None
            &&& last_value(ls, "Port"@) is None ==> endpoint_read(reported) is None
            &&& last_value(ls, "Server"@) matches Some(empty) ==> (empty.len() == 0 ==> endpoint_read(
                reported,
            ) is None)
            &&& last_value(ls, "Port"@) == Some("0"@) ==> endpoint_read(reported) is None
            &&& endpoint_read(reported) matches Some((h, p)) ==> last_value(ls, "Server"@) == Some(h)
                && p != 0
        }),
{
    text::law_decimal_reads_back(port as nat);
    text::law_decimal_reads_back(0);
    reveal_strlit("0");
    assert(decimal(0) =~= "0"@);
}

/// What an operator without root is told is the same invocation with `sudo` before it, the service in
/// single quotes and every single quote of its name written so that a shell reads it back.
pub proof fn law_the_refusal_names_the_invocation(
    action: ProxyAction,
    service: Seq<char>,
    rest: Seq<char>,
)
    requires
        !rest.contains('\''),
    ensures
        root_text(action, service) == "this needs root, run `sudo nhop proxy "@ + action.text()
            + " --service '"@ + shell_escaped(service) + "'`"@,
        shell_escaped(rest) == rest,
        shell_escaped(service + "'"@ + rest) == shell_escaped(service) + "'\\''"@ + rest,
{
    reveal_strlit("'");
    assert forall|i: int| 0 <= i < rest.len() implies #[trigger] rest[i] != '\'' by {
        assert(rest.contains(rest[i]));
    }
    assert(readback::lacks(rest, '\''));
    readback::lemma_no_field_ends(rest, '\'');
    readback::lemma_fields_append(service, rest, '\'');
    assert("'"@ =~= seq!['\'']);
    let f = fields(service, '\'');
    assert(f.push(rest).drop_last() =~= f);
    text::lemma_fields_are_some(service, '\'');
}

/// The service and the program the settings are asked of.
pub proof fn law_whose_settings_are_asked_for()
    ensures
        DEFAULT_SERVICE@ == "Wi-Fi"@,
        NETWORKSETUP@ == "/usr/sbin/networksetup"@,
{
}

} // verus!
