//! What an invocation asks for.
use vstd::prelude::*;

use crate::cli::render::Output;
use crate::cli::system_proxy::NetworkService;
use crate::ipc::{Command, Host, LoadId, Port, RuleClass, RuleKind, RuleValue, UpstreamAddr};
use crate::net::SocketAddr;
use crate::text;
use crate::text::{decimal, in_quotes, last_of, number, without_first, without_last};
use crate::time::Duration;

verus! {

/// Destination a routing question is asked about, written as `host:port`.
#[derive(Debug, Clone, PartialEq, Eq)]
pub struct Destination {
    /// Host.
    pub host: Host,
    /// Port.
    pub port: Port,
}

/// Rejection of a destination that is not a `host:port` pair.
#[derive(Debug, Clone, PartialEq, Eq)]
pub struct InvalidDestination(pub String);

impl InvalidDestination {
    /// Returns the explanation shown to the operator.
    pub fn message(&self) -> (r: String)
        ensures
            r@ == "expected host:port, got "@ + in_quotes(self.0@),
    {
        let mut r = "expected host:port, got ".to_owned();
        r.append(text::debug(self.0.as_str()).as_str());
        r
    }
}

/// Host and port on the two sides of the last colon, brackets round the host taken off.
pub open spec fn destination_read(target: Seq<char>) -> Option<(Seq<char>, u16)> {
    let k = last_of(target, ':');
    let host = without_last(without_first(target.take(k), '['), ']');
    if k < 0 || host.len() == 0 {
        None
    } else {
        match number(target.skip(k + 1), 0xffff) {
            Some(port) => Some((host, port as u16)),
            None => None,
        }
    }
}

impl Destination {
    /// Reads a destination.
    ///
    /// # Errors
    ///
    /// Returns [`InvalidDestination`] with the text as it was given where it is no `host:port` pair.
    pub fn parse(target: &str) -> (r: Result<Destination, InvalidDestination>)
        ensures
            match destination_read(target@) {
                Some((host, port)) => r matches Ok(destination) && destination.host.0@ == host
                    && destination.port.0 == port,
                None => r matches Err(InvalidDestination(given)) && given@ == target@,
            },
    {
        let (host, port) = match text::rsplit_once(target, ':') {
            Some(split) => split,
            None => {
                return Err(InvalidDestination(target.to_owned()));
            },
        };
        let host = text::strip_last(text::strip_first(host, '['), ']');
        let port: u16 = match text::read_number(port, 0xffff) {
            Some(port) => port as u16,
            None => {
                return Err(InvalidDestination(target.to_owned()));
            },
        };
        if host.is_empty() {
            return Err(InvalidDestination(target.to_owned()));
        }
        Ok(Destination { host: Host(host.to_owned()), port: Port(port) })
    }
}

/// What `nhop proxy` does to the system proxy settings.
#[derive(Debug, Clone, Copy, PartialEq, Eq, Structural)]
pub enum ProxyAction {
    /// Points the settings at the front ends.
    On,
    /// Turns them off.
    Off,
    /// Reads them.
    Status,
}

impl ProxyAction {
    /// The action as the operator writes it.
    pub open spec fn text(self) -> Seq<char> {
        match self {
            ProxyAction::On => "on"@,
            ProxyAction::Off => "off"@,
            ProxyAction::Status => "status"@,
        }
    }

    /// Returns the action as the operator writes it.
    pub fn name(self) -> (r: &'static str)
        ensures
            r@ == self.text(),
    {
        match self {
            Self::On => "on",
            Self::Off => "off",
            Self::Status => "status",
        }
    }
}

/// Reads what `nhop proxy` is to do.
///
/// # Errors
///
/// Returns what is wrong where it is none of the three.
pub fn parse_action(action: &str) -> (r: Result<ProxyAction, String>)
    ensures
        match r {
            Ok(read) => action@ == read.text(),
            Err(message) => {
                &&& forall|a: ProxyAction| action@ != #[trigger] a.text()
                &&& message@ == "unknown action "@ + in_quotes(action@)
                    + ", expected on, off or status"@
            },
        },
{
    if text::same(action, "on") {
        return Ok(ProxyAction::On);
    }
    if text::same(action, "off") {
        return Ok(ProxyAction::Off);
    }
    if text::same(action, "status") {
        return Ok(ProxyAction::Status);
    }
    let mut message = "unknown action ".to_owned();
    message.append(text::debug(action).as_str());
    message.append(", expected on, off or status");
    Err(message)
}

/// Reads a rule kind.
///
/// # Errors
///
/// Returns what is wrong where it is none of the four.
pub fn parse_kind(kind: &str) -> (r: Result<RuleKind, String>)
    ensures
        match r {
            Ok(read) => kind@ == crate::rules::matcher::kind_text(read),
            Err(message) => {
                &&& forall|k: RuleKind| kind@ != #[trigger] crate::rules::matcher::kind_text(k)
                &&& message@ == "unknown rule kind "@ + in_quotes(kind@)
                    + ", expected suffix, cidr, port or keyword"@
            },
        },
{
    if text::same(kind, "suffix") {
        return Ok(RuleKind::Suffix);
    }
    if text::same(kind, "cidr") {
        return Ok(RuleKind::Cidr);
    }
    if text::same(kind, "port") {
        return Ok(RuleKind::Port);
    }
    if text::same(kind, "keyword") {
        return Ok(RuleKind::Keyword);
    }
    let mut message = "unknown rule kind ".to_owned();
    message.append(text::debug(kind).as_str());
    message.append(", expected suffix, cidr, port or keyword");
    Err(message)
}

/// One invocation of the command line.
#[derive(Debug, Clone, PartialEq, Eq)]
pub enum Subcommand {
    /// Runs the daemon.
    Start,
    /// Adds a rule.
    Require {
        /// What the rule matches on.
        kind: RuleKind,
        /// Value the kind is matched against.
        value: RuleValue,
    },
    /// Adds a rule.
    Prefer {
        /// What the rule matches on.
        kind: RuleKind,
        /// Value the kind is matched against.
        value: RuleValue,
    },
    /// Adds a rule.
    Never {
        /// What the rule matches on.
        kind: RuleKind,
        /// Value the kind is matched against.
        value: RuleValue,
    },
    /// Points the router at an upstream.
    Upstream {
        /// Address of the upstream.
        addr: UpstreamAddr,
    },
    /// Moves the front ends.
    Listen {
        /// Address the HTTP front end binds.
        http: SocketAddr,
        /// Address the SOCKS5 front end binds.
        socks: SocketAddr,
    },
    /// Re-runs the init script.
    Reload {
        /// Script to run instead of the remembered one.
        path: Option<String>,
    },
    /// Re-runs the remembered init script.
    On,
    /// Clears the live ruleset.
    Off,
    /// Reports the daemon's state.
    Status {
        /// Whether JSON is printed.
        json: bool,
    },
    /// Lists the live ruleset.
    Rules {
        /// Whether JSON is printed.
        json: bool,
    },
    /// Reports where a destination would be routed.
    Test {
        /// Destination.
        target: Destination,
        /// Whether JSON is printed.
        json: bool,
    },
    /// Prints the log.
    Logs {
        /// Whether the raw lines are printed.
        json: bool,
        /// Whether the log is followed.
        follow: bool,
        /// How far back it is printed.
        since: Option<Duration>,
    },
    /// Follows routing decisions.
    Tail {
        /// Whether JSON is printed.
        json: bool,
    },
    /// Runs the diagnostic checks.
    Doctor {
        /// Whether JSON is printed.
        json: bool,
    },
    /// Reads or sets the system proxy settings.
    Proxy {
        /// What to do.
        action: ProxyAction,
        /// Service the settings belong to.
        service: NetworkService,
    },
}

/// What is done about an invocation.
#[derive(Debug, Clone, PartialEq, Eq)]
pub enum Plan {
    /// Runs the daemon until it is signalled.
    Start,
    /// Sends one command and prints the answer.
    Ask {
        /// Command to send.
        command: Command,
        /// How the answer is printed.
        output: Output,
    },
    /// Prints the log.
    Logs {
        /// How a line is printed.
        output: Output,
        /// Whether the log is followed.
        follow: bool,
        /// How far back it is printed.
        since: Option<Duration>,
    },
    /// Subscribes and prints every decision.
    Tail {
        /// How a decision is printed.
        output: Output,
    },
    /// Asks for the diagnostic checks, and reports the daemon missing where nothing answers.
    Doctor {
        /// How the report is printed.
        output: Output,
    },
    /// Reads or sets the system proxy settings.
    Proxy {
        /// What to do.
        action: ProxyAction,
        /// Service the settings belong to.
        service: NetworkService,
    },
}

/// How an answer is printed.
pub open spec fn printed_as(json: bool) -> Output {
    if json {
        Output::Json
    } else {
        Output::Human
    }
}

/// A question answered in words.
pub open spec fn asking(command: Command) -> Plan {
    Plan::Ask { command, output: Output::Human }
}

/// What is done about an invocation that belongs to this init run: mutating commands carry the run.
pub open spec fn planned(command: Subcommand, load: Option<LoadId>) -> Plan {
    match command {
        Subcommand::Start => Plan::Start,
        Subcommand::Require { kind, value } => asking(
            Command::AddRule { class: RuleClass::Require, kind, value, load },
        ),
        Subcommand::Prefer { kind, value } => asking(
            Command::AddRule { class: RuleClass::Prefer, kind, value, load },
        ),
        Subcommand::Never { kind, value } => asking(
            Command::AddRule { class: RuleClass::Never, kind, value, load },
        ),
        Subcommand::Upstream { addr } => asking(Command::SetUpstream { addr, load }),
        Subcommand::Listen { http, socks } => asking(Command::SetListen { http, socks, load }),
        Subcommand::Reload { path } => asking(Command::Reload { path }),
        Subcommand::On => asking(Command::On),
        Subcommand::Off => asking(Command::Off),
        Subcommand::Status { json } => Plan::Ask {
            command: Command::Status,
            output: printed_as(json),
        },
        Subcommand::Rules { json } => Plan::Ask {
            command: Command::Rules,
            output: printed_as(json),
        },
        Subcommand::Test { target, json } => Plan::Ask {
            command: Command::Test { host: target.host, port: target.port },
            output: printed_as(json),
        },
        Subcommand::Logs { json, follow, since } => Plan::Logs {
            output: printed_as(json),
            follow,
            since,
        },
        Subcommand::Tail { json } => Plan::Tail { output: printed_as(json) },
        Subcommand::Doctor { json } => Plan::Doctor { output: printed_as(json) },
        Subcommand::Proxy { action, service } => Plan::Proxy { action, service },
    }
}

/// Decides what is done about an invocation.
pub fn dispatch(command: Subcommand, load: Option<LoadId>) -> (r: Plan)
    ensures
        r == planned(command, load),
{
    match command {
        Subcommand::Start => Plan::Start,
        Subcommand::Require { kind, value } => ask(add_rule(RuleClass::Require, kind, value, load)),
        Subcommand::Prefer { kind, value } => ask(add_rule(RuleClass::Prefer, kind, value, load)),
        Subcommand::Never { kind, value } => ask(add_rule(RuleClass::Never, kind, value, load)),
        Subcommand::Upstream { addr } => ask(Command::SetUpstream { addr, load }),
        Subcommand::Listen { http, socks } => ask(Command::SetListen { http, socks, load }),
        Subcommand::Reload { path } => ask(Command::Reload { path }),
        Subcommand::On => ask(Command::On),
        Subcommand::Off => ask(Command::Off),
        Subcommand::Status { json } => Plan::Ask {
            command: Command::Status,
            output: Output::of(json),
        },
        Subcommand::Rules { json } => Plan::Ask {
            command: Command::Rules,
            output: Output::of(json),
        },
        Subcommand::Test { target, json } => {
            let Destination { host, port } = target;
            Plan::Ask { command: Command::Test { host, port }, output: Output::of(json) }
        },
        Subcommand::Logs { json, follow, since } => Plan::Logs {
            output: Output::of(json),
            follow,
            since,
        },
        Subcommand::Tail { json } => Plan::Tail { output: Output::of(json) },
        Subcommand::Doctor { json } => Plan::Doctor { output: Output::of(json) },
        Subcommand::Proxy { action, service } => Plan::Proxy { action, service },
    }
}

fn ask(command: Command) -> (r: Plan)
    ensures
        r == asking(command),
{
    Plan::Ask { command, output: Output::Human }
}

/// Builds the command of a rule verb.
pub fn add_rule(class: RuleClass, kind: RuleKind, value: RuleValue, load: Option<LoadId>) -> (r:
    Command)
    ensures
        r == (Command::AddRule { class, kind, value, load }),
{
    Command::AddRule { class, kind, value, load }
}

/// Reads the init run an invocation belongs to, absent where the text names none.
pub fn load_of(id: &str) -> (r: Option<LoadId>)
    ensures
        r == LoadId::read(id@),
{
    match LoadId::parse(id) {
        Ok(id) => Some(id),
        Err(_) => None,
    }
}

/// What each rule verb asks for: a rule of its class, with the kind and the value as they were
/// written, for the run the invocation belongs to.
pub proof fn law_rule_verbs_add_rules_of_their_class(
    kind: RuleKind,
    value: RuleValue,
    load: Option<LoadId>,
)
    ensures
        planned(Subcommand::Require { kind, value }, load) == (Plan::Ask {
            command: Command::AddRule { class: RuleClass::Require, kind, value, load },
            output: Output::Human,
        }),
        planned(Subcommand::Prefer { kind, value }, load) == (Plan::Ask {
            command: Command::AddRule { class: RuleClass::Prefer, kind, value, load },
            output: Output::Human,
        }),
        planned(Subcommand::Never { kind, value }, load) == (Plan::Ask {
            command: Command::AddRule { class: RuleClass::Never, kind, value, load },
            output: Output::Human,
        }),
{
}

/// What the other verbs that change something ask for.
pub proof fn law_what_mutating_verbs_ask_for(
    addr: UpstreamAddr,
    http: SocketAddr,
    socks: SocketAddr,
    path: Option<String>,
    load: Option<LoadId>,
)
    ensures
        planned(Subcommand::Upstream { addr }, load) == (Plan::Ask {
            command: Command::SetUpstream { addr, load },
            output: Output::Human,
        }),
        planned(Subcommand::Listen { http, socks }, load) == (Plan::Ask {
            command: Command::SetListen { http, socks, load },
            output: Output::Human,
        }),
        planned(Subcommand::Reload { path }, load) == (Plan::Ask {
            command: Command::Reload { path },
            output: Output::Human,
        }),
        planned(Subcommand::On, load) == (Plan::Ask { command: Command::On, output: Output::Human }),
        planned(Subcommand::Off, load) == (Plan::Ask { command: Command::Off, output: Output::Human }),
        planned(Subcommand::Start, load) == Plan::Start,
{
}

/// What the verbs that read ask for, and that each prints JSON exactly where it is told to.
pub proof fn law_what_reading_verbs_ask_for(
    target: Destination,
    json: bool,
    follow: bool,
    since: Option<Duration>,
    action: ProxyAction,
    service: NetworkService,
    load: Option<LoadId>,
)
    ensures
        printed_as(true) == Output::Json,
        printed_as(false) == Output::Human,
        planned(Subcommand::Status { json }, load) == (Plan::Ask {
            command: Command::Status,
            output: printed_as(json),
        }),
        planned(Subcommand::Rules { json }, load) == (Plan::Ask {
            command: Command::Rules,
            output: printed_as(json),
        }),
        planned(Subcommand::Test { target, json }, load) == (Plan::Ask {
            command: Command::Test { host: target.host, port: target.port },
            output: printed_as(json),
        }),
        planned(Subcommand::Logs { json, follow, since }, load) == (Plan::Logs {
            output: printed_as(json),
            follow,
            since,
        }),
        planned(Subcommand::Tail { json }, load) == (Plan::Tail { output: printed_as(json) }),
        planned(Subcommand::Doctor { json }, load) == (Plan::Doctor { output: printed_as(json) }),
        planned(Subcommand::Proxy { action, service }, load) == (Plan::Proxy { action, service }),
{
}

/// A destination is a host and, behind the last colon, a port; brackets round the host are taken off,
/// and an empty host or a number that is no port is nothing.
pub proof fn law_a_destination_is_a_host_and_a_port(host: Seq<char>, n: nat)
    ensures
        host.len() > 0 && host[0] != '[' && host.last() != ']' ==> destination_read(
            host + ":"@ + decimal(n),
        ) == if n <= 65535 {
            Some((host, n as u16))
        } else {
            None
        },
        host.len() > 0 ==> destination_read("["@ + host + "]:"@ + decimal(n)) == if n <= 65535 {
            Some((host, n as u16))
        } else {
            None
        },
        destination_read(":"@ + decimal(n)) is None,
        !host.contains(':') ==> destination_read(host) is None,
{
    reveal_strlit(":");
    reveal_strlit("[");
    reveal_strlit("]:");
    let d = decimal(n);
    text::law_decimal_reads_back(n);
    text::law_what_a_number_is(d, 0xffff);
    assert forall|j: int| 0 <= j < d.len() implies #[trigger] d[j] != ':' && '0' <= d[j] && d[j]
        <= '9' by {
        assert(text::is_digit(d[j]));
    }
    lemma_destination(host, d);
    lemma_destination("["@ + host + "]"@, d);
    lemma_destination(Seq::empty(), d);
    reveal_strlit("]");
    assert("["@ + host + "]"@ + ":"@ + d =~= "["@ + host + "]:"@ + d);
    assert(Seq::<char>::empty() + ":"@ + d =~= ":"@ + d);
    let inner = "["@ + host + "]"@;
    assert(inner[0] == '[' && inner.last() == ']');
    assert(inner.skip(1) =~= host.push(']'));
    assert(host.push(']').drop_last() =~= host);
    if !host.contains(':') {
        assert forall|j: int| -1 < j < host.len() implies host[j] != ':' by {
            assert(host.contains(host[j]));
        }
        text::lemma_last_of_is(host, ':', -1);
    }
}

proof fn lemma_destination(host: Seq<char>, port: Seq<char>)
    requires
        forall|j: int| 0 <= j < port.len() ==> #[trigger] port[j] != ':',
    ensures
        ({
            let s = host + ":"@ + port;
            &&& last_of(s, ':') == host.len()
            &&& s.take(host.len() as int) == host
            &&& s.skip(host.len() as int + 1) == port
        }),
{
    reveal_strlit(":");
    let s = host + ":"@ + port;
    let k = host.len() as int;
    assert(s[k] == ':');
    assert forall|j: int| k < j < s.len() implies s[j] != ':' by {
        assert(s[j] == port[j - k - 1]);
    }
    text::lemma_last_of_is(s, ':', k);
    assert(s.take(k) =~= host);
    assert(s.skip(k + 1) =~= port);
}

/// The three actions are written as three different words.
pub proof fn law_the_actions_have_their_names()
    ensures
        ProxyAction::On.text() == "on"@,
        ProxyAction::Off.text() == "off"@,
        ProxyAction::Status.text() == "status"@,
{
}

} // verus!
