//! The seven diagnostic checks.
use vstd::prelude::*;

use crate::cli::client::{IoFailure, IoKind};
use crate::cli::exit::Exit;
use crate::cli::system_proxy::{
    failure_text, NetworkService, ProxyEndpoint, ProxyFailure, SystemProxy,
};
use crate::daemon::listen::BindState;
use crate::ipc::{CheckView, HealthState, LastLoadView, LoadOutcome, UpstreamAddr};
use crate::names::{health_name, health_text};
use crate::net::{socket_text, SocketAddr};
use crate::proxy::events::{no_upstream, no_upstream_addr};
use crate::proxy::Listen;
use crate::text;
use crate::text::{contents, decimal, joined};
use crate::time::rfc3339;
use crate::upstream::PREFER_CONNECT_TIMEOUT;

verus! {

/// Permission of a directory's owner to write in it.
pub const OWNER_WRITE: u32 = 0o200;

/// Permission of anybody to execute a file.
pub const ANY_EXECUTE: u32 = 0o111;

/// Detail a check carries when nothing ran it.
pub const NOT_CHECKED: &'static str = "not checked, the daemon did not answer";

/// One of the seven checks `doctor` runs.
#[derive(Debug, Clone, Copy, PartialEq, Eq, Structural)]
pub enum Check {
    /// The CLI reached the daemon over the IPC socket.
    DaemonReachable,
    /// Both front ends hold the addresses they are configured to bind.
    PortsBound,
    /// The macOS system proxy points at those front ends.
    SystemProxy,
    /// The upstream answers a connection.
    UpstreamReachable,
    /// The init script exists and can be executed.
    InitFile,
    /// The most recent init run committed.
    LastLoad,
    /// The daemon can append to its log.
    LogWritable,
}

/// The seven checks, in the order `doctor` reports them.
pub open spec fn all_checks() -> Seq<Check> {
    seq![
        Check::DaemonReachable,
        Check::PortsBound,
        Check::SystemProxy,
        Check::UpstreamReachable,
        Check::InitFile,
        Check::LastLoad,
        Check::LogWritable,
    ]
}

/// Returns the seven checks, in the order `doctor` reports them.
pub fn checks() -> (r: Vec<Check>)
    ensures
        r@ == all_checks(),
{
    let mut r: Vec<Check> = Vec::new();
    r.push(Check::DaemonReachable);
    r.push(Check::PortsBound);
    r.push(Check::SystemProxy);
    r.push(Check::UpstreamReachable);
    r.push(Check::InitFile);
    r.push(Check::LastLoad);
    r.push(Check::LogWritable);
    assert(r@ =~= all_checks());
    r
}

impl Check {
    /// The stable identifier the wire carries.
    pub open spec fn text(self) -> Seq<char> {
        match self {
            Check::DaemonReachable => "daemon_reachable"@,
            Check::PortsBound => "ports_bound"@,
            Check::SystemProxy => "system_proxy"@,
            Check::UpstreamReachable => "upstream_reachable"@,
            Check::InitFile => "init_file"@,
            Check::LastLoad => "last_load"@,
            Check::LogWritable => "log_writable"@,
        }
    }

    /// Returns the stable identifier the wire carries.
    pub fn name(self) -> (r: &'static str)
        ensures
            r@ == self.text(),
    {
        match self {
            Self::DaemonReachable => "daemon_reachable",
            Self::PortsBound => "ports_bound",
            Self::SystemProxy => "system_proxy",
            Self::UpstreamReachable => "upstream_reachable",
            Self::InitFile => "init_file",
            Self::LastLoad => "last_load",
            Self::LogWritable => "log_writable",
        }
    }
}

/// Whether a check found something to fix.
#[derive(Debug, Clone, Copy, PartialEq, Eq, Structural)]
pub enum Outcome {
    /// Nothing to fix.
    Passed,
    /// The detail names what to fix.
    Failed,
}

impl Outcome {
    /// Returns how the wire reports the outcome.
    pub fn is_ok(self) -> (r: bool)
        ensures
            r == (self == Outcome::Passed),
    {
        match self {
            Self::Passed => true,
            Self::Failed => false,
        }
    }
}

/// What one check observed.
#[derive(Debug, Clone, PartialEq, Eq)]
pub struct Finding {
    /// The check.
    pub check: Check,
    /// Whether it found something to fix.
    pub outcome: Outcome,
    /// What it observed, and the remedy when it failed.
    pub detail: String,
}

impl Finding {
    /// Whether this is the finding.
    pub open spec fn is(&self, check: Check, outcome: Outcome, detail: Seq<char>) -> bool {
        self.check == check && self.outcome == outcome && self.detail@ == detail
    }

    /// Reports a check that found nothing to fix.
    pub fn passed(check: Check, detail: String) -> (r: Finding)
        ensures
            r == (Finding { check, outcome: Outcome::Passed, detail }),
    {
        Finding { check, outcome: Outcome::Passed, detail }
    }

    /// Reports a check that found something to fix.
    pub fn failed(check: Check, detail: String) -> (r: Finding)
        ensures
            r == (Finding { check, outcome: Outcome::Failed, detail }),
    {
        Finding { check, outcome: Outcome::Failed, detail }
    }
}

/// Position of the first finding of a check, or their number when there is none.
pub open spec fn first_finding(findings: Seq<Finding>, check: Check) -> nat
    decreases findings.len(),
{
    if findings.len() == 0 || findings[0].check == check {
        0
    } else {
        1 + first_finding(findings.skip(1), check)
    }
}

/// Whether a view reports what was found of a check, which is a failure where nothing was.
pub open spec fn reports_check(view: CheckView, check: Check, findings: Seq<Finding>) -> bool {
    let k = first_finding(findings, check) as int;
    &&& view.name@ == check.text()
    &&& if k < findings.len() {
        view.ok == (findings[k].outcome == Outcome::Passed) && view.detail@ == findings[k].detail@
    } else {
        !view.ok && view.detail@ == NOT_CHECKED@
    }
}

/// Whether views report the seven checks in their fixed order.
pub open spec fn is_report(views: Seq<CheckView>, findings: Seq<Finding>) -> bool {
    &&& views.len() == 7
    &&& forall|i: int|
        0 <= i < 7 ==> reports_check(#[trigger] views[i], all_checks()[i], findings)
}

/// Renders the seven checks in their fixed order, whatever order they were observed in; a check
/// nothing observed is reported as failed.
pub fn report(findings: &Vec<Finding>) -> (r: Vec<CheckView>)
    ensures
        is_report(r@, findings@),
{
    let all = checks();
    let mut r: Vec<CheckView> = Vec::new();
    let mut i: usize = 0;
    while i < 7
        invariant
            all@ == all_checks(),
            i <= 7,
            r.len() == i,
            forall|j: int|
                0 <= j < i ==> reports_check(#[trigger] r@[j], all_checks()[j], findings@),
        decreases 7 - i,
    {
        r.push(view(all[i], findings));
        i += 1;
    }
    r
}

fn view(check: Check, findings: &Vec<Finding>) -> (r: CheckView)
    ensures
        reports_check(r, check, findings@),
{
    let mut i: usize = 0;
    assert(findings@.skip(0) =~= findings@);
    while i < findings.len()
        invariant
            i <= findings.len(),
            first_finding(findings@, check) == i + first_finding(findings@.skip(i as int), check),
        decreases findings.len() - i,
    {
        let finding = &findings[i];
        assert(findings@.skip(i as int)[0] == finding);
        assert(findings@.skip(i as int).skip(1) =~= findings@.skip(i + 1));
        if finding.check == check {
            return CheckView {
                name: check.name().to_owned(),
                ok: finding.outcome.is_ok(),
                detail: finding.detail.clone(),
            };
        }
        i += 1;
    }
    CheckView { name: check.name().to_owned(), ok: false, detail: NOT_CHECKED.to_owned() }
}

/// The exit of a report: success where all pass, the upstream's own where nothing else fails.
pub open spec fn report_exit(views: Seq<CheckView>) -> Exit {
    if forall|i: int| 0 <= i < views.len() ==> (#[trigger] views[i]).ok {
        Exit::Success
    } else if forall|i: int|
        0 <= i < views.len() ==> (#[trigger] views[i]).ok || views[i].name@
            == Check::UpstreamReachable.text() {
        Exit::UpstreamDown
    } else {
        Exit::Failed
    }
}

/// Returns the code `doctor` exits with once every check has been made: an unreachable upstream is
/// the one routine failure - the operator powers the VM off - so it alone exits 3 rather than 1.
pub fn exit_of(checks: &Vec<CheckView>) -> (r: Exit)
    ensures
        r == report_exit(checks@),
{
    let mut failed: bool = false;
    let mut beyond_the_upstream: bool = false;
    let mut i: usize = 0;
    while i < checks.len()
        invariant
            i <= checks.len(),
            failed == exists|j: int| 0 <= j < i && !(#[trigger] checks@[j]).ok,
            beyond_the_upstream == exists|j: int|
                0 <= j < i && !(#[trigger] checks@[j]).ok && checks@[j].name@
                    != Check::UpstreamReachable.text(),
        decreases checks.len() - i,
    {
        let check = &checks[i];
        assert(checks@[i as int] == check);
        if !check.ok {
            failed = true;
            if !text::same(check.name.as_str(), Check::UpstreamReachable.name()) {
                beyond_the_upstream = true;
            }
        }
        i += 1;
    }
    if !failed {
        return Exit::Success;
    }
    if !beyond_the_upstream {
        return Exit::UpstreamDown;
    }
    Exit::Failed
}

/// Reports that the daemon answered on its socket.
pub fn daemon_reachable(socket_file: &str) -> (r: Finding)
    ensures
        r.is(Check::DaemonReachable, Outcome::Passed, "the daemon answered on "@ + socket_file@),
{
    let mut detail = "the daemon answered on ".to_owned();
    detail.append(socket_file);
    Finding::passed(Check::DaemonReachable, detail)
}

/// Reports that the daemon answered nothing, so no other check could be made.
pub fn unreachable(failure: &str) -> (r: Finding)
    ensures
        r.is(Check::DaemonReachable, Outcome::Failed, failure@ + ", run `nhop start`"@),
{
    let mut detail = failure.to_owned();
    detail.append(", run `nhop start`");
    Finding::failed(Check::DaemonReachable, detail)
}

/// Reports whether the front ends hold the addresses they were given.
pub fn ports_bound(listen: Listen, bound: BindState) -> (r: Finding)
    ensures
        match bound {
            BindState::Bound => r.is(
                Check::PortsBound,
                Outcome::Passed,
                "http on "@ + socket_text(listen.http) + ", socks5 on "@ + socket_text(
                    listen.socks,
                ),
            ),
            BindState::Unbound => r.is(
                Check::PortsBound,
                Outcome::Failed,
                "nothing is listening on "@ + socket_text(listen.http) + " or "@ + socket_text(
                    listen.socks,
                ) + ", restart the daemon"@,
            ),
        },
{
    let http = listen.http.text();
    let socks = listen.socks.text();
    match bound {
        BindState::Bound => {
            let mut detail = "http on ".to_owned();
            detail.append(http.as_str());
            detail.append(", socks5 on ");
            detail.append(socks.as_str());
            Finding::passed(Check::PortsBound, detail)
        },
        BindState::Unbound => {
            let mut detail = "nothing is listening on ".to_owned();
            detail.append(http.as_str());
            detail.append(" or ");
            detail.append(socks.as_str());
            detail.append(", restart the daemon");
            Finding::failed(Check::PortsBound, detail)
        },
    }
}

/// What is wrong with one setting, nothing where it points at the front end.
pub open spec fn complaint(
    name: Seq<char>,
    configured: Option<ProxyEndpoint>,
    wanted: SocketAddr,
) -> Seq<Seq<char>> {
    match configured {
        None => seq![name + " is off"@],
        Some(endpoint) => if endpoint.shown() == socket_text(wanted) {
            Seq::empty()
        } else {
            seq![
                name + " points at "@ + endpoint.shown() + ", not at "@ + socket_text(wanted),
            ]
        },
    }
}

/// What is wrong with the three settings.
pub open spec fn complaints(proxy: SystemProxy, listen: Listen) -> Seq<Seq<char>> {
    complaint("http"@, proxy.http, listen.http) + complaint("https"@, proxy.https, listen.http)
        + complaint("socks"@, proxy.socks, listen.socks)
}

fn complain(wrong: &mut Vec<String>, name: &str, configured: &Option<ProxyEndpoint>, wanted: SocketAddr)
    ensures
        contents(final(wrong)@) == contents(old(wrong)@) + complaint(name@, *configured, wanted),
{
    let ghost before = contents(wrong@);
    match configured {
        None => {
            let mut text = name.to_owned();
            text.append(" is off");
            wrong.push(text);
            assert(contents(wrong@) =~= before + complaint(name@, *configured, wanted));
        },
        Some(endpoint) => {
            let shown = endpoint.text();
            let wanted_text = wanted.text();
            if text::same(shown.as_str(), wanted_text.as_str()) {
                assert(contents(wrong@) =~= before + complaint(name@, *configured, wanted));
                return;
            }
            let mut text = name.to_owned();
            text.append(" points at ");
            text.append(shown.as_str());
            text.append(", not at ");
            text.append(wanted_text.as_str());
            wrong.push(text);
            assert(contents(wrong@) =~= before + complaint(name@, *configured, wanted));
        },
    }
}

/// Reports whether macOS sends traffic to the front ends this daemon holds.
pub fn system_proxy(
    read: Result<SystemProxy, ProxyFailure>,
    listen: Listen,
    service: &NetworkService,
) -> (r: Finding)
    ensures
        match read {
            Err(failure) => r.is(
                Check::SystemProxy,
                Outcome::Failed,
                "cannot read the settings of "@ + service.0@ + ": "@ + failure_text(failure),
            ),
            Ok(proxy) => if complaints(proxy, listen).len() == 0 {
                r.is(
                    Check::SystemProxy,
                    Outcome::Passed,
                    service.0@ + " sends http and https to "@ + socket_text(listen.http)
                        + " and socks to "@ + socket_text(listen.socks),
                )
            } else {
                r.is(
                    Check::SystemProxy,
                    Outcome::Failed,
                    service.0@ + ": "@ + joined(complaints(proxy, listen), ", "@)
                        + ", run `sudo nhop proxy on`"@,
                )
            },
        },
{
    let proxy = match read {
        Ok(proxy) => proxy,
        Err(failure) => {
            let mut detail = "cannot read the settings of ".to_owned();
            detail.append(service.0.as_str());
            detail.append(": ");
            detail.append(failure.message().as_str());
            return Finding::failed(Check::SystemProxy, detail);
        },
    };
    let mut wrong: Vec<String> = Vec::new();
    assert(contents(wrong@) =~= Seq::<Seq<char>>::empty());
    complain(&mut wrong, "http", &proxy.http, listen.http);
    complain(&mut wrong, "https", &proxy.https, listen.http);
    complain(&mut wrong, "socks", &proxy.socks, listen.socks);
    assert(contents(wrong@) =~= complaints(proxy, listen));
    if wrong.len() == 0 {
        let mut detail = service.0.clone();
        detail.append(" sends http and https to ");
        detail.append(listen.http.text().as_str());
        detail.append(" and socks to ");
        detail.append(listen.socks.text().as_str());
        return Finding::passed(Check::SystemProxy, detail);
    }
    let mut detail = service.0.clone();
    detail.append(": ");
    detail.append(text::join(&wrong, ", ").as_str());
    detail.append(", run `sudo nhop proxy on`");
    Finding::failed(Check::SystemProxy, detail)
}

/// How a dial of the upstream ended.
#[derive(Debug, Clone, PartialEq, Eq)]
pub enum DialOutcome {
    /// It did not answer within [`PREFER_CONNECT_TIMEOUT`].
    TimedOut,
    /// It answered.
    Answered,
    /// The dial failed.
    Failed(IoFailure),
}

/// Whether there is an upstream to dial.
pub open spec fn is_configured(written: Seq<char>, upstream: SocketAddr) -> bool {
    written.len() > 0 && upstream != no_upstream_addr()
}

/// Returns whether there is an upstream to dial.
pub fn configured(written: &UpstreamAddr, upstream: SocketAddr) -> (r: bool)
    ensures
        r == is_configured(written.0@, upstream),
{
    !written.0.as_str().is_empty() && upstream != no_upstream()
}

/// Why the upstream cannot be reached; a missing route is probably a permission macOS denies.
pub open spec fn refusal_text(name: Seq<char>, upstream: SocketAddr, failure: IoFailure) -> Seq<
    char,
> {
    let plain = "cannot reach "@ + name + " on "@ + socket_text(upstream) + ": "@ + failure.text@;
    if failure.kind == IoKind::HostUnreachable {
        plain
            + " - macOS reports a denied Local Network permission as a routing error, so grant nhop Local Network access in System Settings > Privacy & Security and check that the binary is signed"@
    } else {
        plain
    }
}

/// Returns why the upstream cannot be reached, and names the Local Network denial macOS hides.
pub fn refusal(name: &str, upstream: SocketAddr, failure: &IoFailure) -> (r: String)
    ensures
        r@ == refusal_text(name@, upstream, *failure),
{
    let mut r = "cannot reach ".to_owned();
    r.append(name);
    r.append(" on ");
    r.append(upstream.text().as_str());
    r.append(": ");
    r.append(failure.text.as_str());
    match failure.kind {
        IoKind::HostUnreachable => {
            r.append(
                " - macOS reports a denied Local Network permission as a routing error, so grant nhop Local Network access in System Settings > Privacy & Security and check that the binary is signed",
            );
        },
        _ => {},
    }
    r
}

/// Reports whether the upstream answers; where none is configured nothing is dialled and the
/// outcome is not looked at.
pub fn upstream_reachable(
    written: &UpstreamAddr,
    upstream: SocketAddr,
    state: HealthState,
    dialled: &DialOutcome,
) -> (r: Finding)
    ensures
        if !is_configured(written.0@, upstream) {
            r.is(
                Check::UpstreamReachable,
                Outcome::Failed,
                "no upstream is configured, name one with `nhop upstream socks5://<ip>:<port>`"@,
            )
        } else {
            match dialled {
                DialOutcome::TimedOut => r.is(
                    Check::UpstreamReachable,
                    Outcome::Failed,
                    written.0@ + " did not answer within "@ + decimal(
                        (PREFER_CONNECT_TIMEOUT / 1000) as nat,
                    ) + "s, the verdict is "@ + health_text(state),
                ),
                DialOutcome::Answered => r.is(
                    Check::UpstreamReachable,
                    Outcome::Passed,
                    written.0@ + " answered on "@ + socket_text(upstream) + ", the verdict is "@
                        + health_text(state),
                ),
                DialOutcome::Failed(failure) => r.is(
                    Check::UpstreamReachable,
                    Outcome::Failed,
                    refusal_text(written.0@, upstream, *failure),
                ),
            }
        },
{
    if !configured(written, upstream) {
        return Finding::failed(
            Check::UpstreamReachable,
            "no upstream is configured, name one with `nhop upstream socks5://<ip>:<port>`".to_owned(),
        );
    }
    let name = written.0.as_str();
    match dialled {
        DialOutcome::TimedOut => {
            let mut detail = name.to_owned();
            detail.append(" did not answer within ");
            detail.append(text::decimal_text(PREFER_CONNECT_TIMEOUT / 1000).as_str());
            detail.append("s, the verdict is ");
            detail.append(health_name(state));
            Finding::failed(Check::UpstreamReachable, detail)
        },
        DialOutcome::Answered => {
            let mut detail = name.to_owned();
            detail.append(" answered on ");
            detail.append(upstream.text().as_str());
            detail.append(", the verdict is ");
            detail.append(health_name(state));
            Finding::passed(Check::UpstreamReachable, detail)
        },
        DialOutcome::Failed(failure) => Finding::failed(
            Check::UpstreamReachable,
            refusal(name, upstream, failure),
        ),
    }
}

/// What the filesystem says of a path that is there.
#[derive(Debug, Clone, Copy, PartialEq, Eq, Structural)]
pub struct Found {
    /// Whether it is a plain file.
    pub is_file: bool,
    /// Whether it is a directory.
    pub is_dir: bool,
    /// Its permissions.
    pub mode: u32,
}

/// Reports whether the init script exists and can be executed.
pub fn init_file(path: &str, found: Option<Found>) -> (r: Finding)
    ensures
        match found {
            None => r.is(
                Check::InitFile,
                Outcome::Failed,
                "no init script at "@ + path@
                    + ", every connection is direct until one exists"@,
            ),
            Some(found) => if !found.is_file {
                r.is(Check::InitFile, Outcome::Failed, path@ + " is not a file"@)
            } else if found.mode & ANY_EXECUTE == 0 {
                r.is(
                    Check::InitFile,
                    Outcome::Failed,
                    path@ + " is not executable, run `chmod +x "@ + path@ + "`"@,
                )
            } else {
                r.is(Check::InitFile, Outcome::Passed, path@ + " is executable"@)
            },
        },
{
    let found = match found {
        None => {
            let mut detail = "no init script at ".to_owned();
            detail.append(path);
            detail.append(", every connection is direct until one exists");
            return Finding::failed(Check::InitFile, detail);
        },
        Some(found) => found,
    };
    let mut detail = path.to_owned();
    if !found.is_file {
        detail.append(" is not a file");
        return Finding::failed(Check::InitFile, detail);
    }
    if found.mode & ANY_EXECUTE == 0 {
        detail.append(" is not executable, run `chmod +x ");
        detail.append(path);
        detail.append("`");
        return Finding::failed(Check::InitFile, detail);
    }
    detail.append(" is executable");
    Finding::passed(Check::InitFile, detail)
}

/// The command a run failed on, where one is known.
pub open spec fn on_text(command: Option<String>) -> Seq<char> {
    match command {
        Some(command) => " on "@ + command@,
        None => Seq::empty(),
    }
}

fn on(command: &Option<String>) -> (r: String)
    ensures
        r@ == on_text(*command),
{
    match command {
        None => String::new(),
        Some(command) => {
            let mut r = " on ".to_owned();
            r.append(command.as_str());
            r
        },
    }
}

/// Reports how the most recent init run ended.
pub fn last_load(last: Option<&LastLoadView>) -> (r: Finding)
    requires
        last matches Some(load) ==> load.at.0.written(),
    ensures
        match last {
            None => r.is(
                Check::LastLoad,
                Outcome::Failed,
                "no init script has been loaded, the ruleset is empty and every connection is direct"@,
            ),
            Some(load) => {
                let at = rfc3339(load.at.0.secs as u64);
                match load.outcome {
                    LoadOutcome::Succeeded => r.is(
                        Check::LastLoad,
                        Outcome::Passed,
                        "the run at "@ + at + " committed"@,
                    ),
                    LoadOutcome::Failed => r.is(
                        Check::LastLoad,
                        Outcome::Failed,
                        "the run at "@ + at + " failed"@ + on_text(load.command)
                            + ", fix it and run `nhop reload`"@,
                    ),
                    LoadOutcome::TimedOut => r.is(
                        Check::LastLoad,
                        Outcome::Failed,
                        "the run at "@ + at + " outlived the load timeout and was killed"@,
                    ),
                }
            },
        },
{
    let load = match last {
        None => {
            return Finding::failed(
                Check::LastLoad,
                "no init script has been loaded, the ruleset is empty and every connection is direct".to_owned(),
            );
        },
        Some(load) => load,
    };
    let mut detail = "the run at ".to_owned();
    detail.append(load.at.text().as_str());
    match load.outcome {
        LoadOutcome::Succeeded => {
            detail.append(" committed");
            Finding::passed(Check::LastLoad, detail)
        },
        LoadOutcome::Failed => {
            detail.append(" failed");
            detail.append(on(&load.command).as_str());
            detail.append(", fix it and run `nhop reload`");
            Finding::failed(Check::LastLoad, detail)
        },
        LoadOutcome::TimedOut => {
            detail.append(" outlived the load timeout and was killed");
            Finding::failed(Check::LastLoad, detail)
        },
    }
}

/// Reports whether the daemon can still write its log, given what the filesystem says of the
/// directory it is in.
pub fn log_writable(log_file: &str, dir: Option<&str>, found: Option<Found>) -> (r: Finding)
    ensures
        match dir {
            None => r.is(
                Check::LogWritable,
                Outcome::Failed,
                log_file@ + " names no directory to write into"@,
            ),
            Some(dir) => match found {
                None => r.is(
                    Check::LogWritable,
                    Outcome::Failed,
                    "no state directory at "@ + dir@,
                ),
                Some(found) => if !found.is_dir {
                    r.is(Check::LogWritable, Outcome::Failed, dir@ + " is not a directory"@)
                } else if found.mode & OWNER_WRITE == 0 {
                    r.is(
                        Check::LogWritable,
                        Outcome::Failed,
                        dir@ + " is not writable, run `chmod u+rwx "@ + dir@ + "`"@,
                    )
                } else {
                    r.is(Check::LogWritable, Outcome::Passed, log_file@ + " is writable"@)
                },
            },
        },
{
    let dir = match dir {
        None => {
            let mut detail = log_file.to_owned();
            detail.append(" names no directory to write into");
            return Finding::failed(Check::LogWritable, detail);
        },
        Some(dir) => dir,
    };
    let found = match found {
        None => {
            let mut detail = "no state directory at ".to_owned();
            detail.append(dir);
            return Finding::failed(Check::LogWritable, detail);
        },
        Some(found) => found,
    };
    let mut detail = dir.to_owned();
    if !found.is_dir {
        detail.append(" is not a directory");
        return Finding::failed(Check::LogWritable, detail);
    }
    if found.mode & OWNER_WRITE == 0 {
        detail.append(" is not writable, run `chmod u+rwx ");
        detail.append(dir);
        detail.append("`");
        return Finding::failed(Check::LogWritable, detail);
    }
    let mut detail = log_file.to_owned();
    detail.append(" is writable");
    Finding::passed(Check::LogWritable, detail)
}

/// Whether a check was made and passed.
pub open spec fn passes(findings: Seq<Finding>, check: Check) -> bool {
    let k = first_finding(findings, check) as int;
    k < findings.len() && findings[k].outcome == Outcome::Passed
}

/// A report exits with success exactly where each of the seven checks was made and passed.
pub proof fn law_success_means_seven_passes(views: Seq<CheckView>, findings: Seq<Finding>)
    requires
        is_report(views, findings),
    ensures
        report_exit(views) == Exit::Success <==> forall|i: int|
            0 <= i < 7 ==> passes(findings, #[trigger] all_checks()[i]),
{
    assert forall|i: int| 0 <= i < 7 implies (#[trigger] views[i]).ok == passes(
        findings,
        all_checks()[i],
    ) by {
        assert(reports_check(views[i], all_checks()[i], findings));
    }
    if report_exit(views) == Exit::Success {
        assert forall|i: int| 0 <= i < 7 implies passes(findings, #[trigger] all_checks()[i]) by {
            assert(views[i].ok);
        }
    }
}

proof fn lemma_only_one_check_is_the_upstream(i: int)
    requires
        0 <= i < 7,
    ensures
        all_checks()[i].text() == Check::UpstreamReachable.text() <==> i == 3,
{
    reveal_strlit("daemon_reachable");
    reveal_strlit("ports_bound");
    reveal_strlit("system_proxy");
    reveal_strlit("upstream_reachable");
    reveal_strlit("init_file");
    reveal_strlit("last_load");
    reveal_strlit("log_writable");
    let own = "upstream_reachable"@.len();
    assert("daemon_reachable"@.len() != own && "ports_bound"@.len() != own && "system_proxy"@.len()
        != own && "init_file"@.len() != own && "last_load"@.len() != own && "log_writable"@.len()
        != own);
}

/// A report exits as for a missing upstream exactly where that is the one check that does not pass.
pub proof fn law_the_upstream_alone_has_its_own_exit(views: Seq<CheckView>, findings: Seq<Finding>)
    requires
        is_report(views, findings),
    ensures
        report_exit(views) == Exit::UpstreamDown <==> forall|i: int|
            0 <= i < 7 ==> (passes(findings, #[trigger] all_checks()[i]) <==> i != 3),
{
    assert forall|i: int| 0 <= i < 7 implies (#[trigger] views[i]).ok == passes(
        findings,
        all_checks()[i],
    ) && (views[i].name@ == Check::UpstreamReachable.text() <==> i == 3) by {
        assert(reports_check(views[i], all_checks()[i], findings));
        lemma_only_one_check_is_the_upstream(i);
    }
    if report_exit(views) == Exit::UpstreamDown {
        assert forall|i: int| 0 <= i < 7 implies (passes(findings, #[trigger] all_checks()[i]) <==> i
            != 3) by {
            assert(views[i].ok == passes(findings, all_checks()[i]));
            assert(views[3].ok == passes(findings, all_checks()[3]));
        }
    }
    if forall|i: int|
        0 <= i < 7 ==> (passes(findings, #[trigger] all_checks()[i]) <==> i != 3) {
        assert(!passes(findings, all_checks()[3]));
        assert(!views[3].ok);
        assert forall|i: int| 0 <= i < views.len() implies (#[trigger] views[i]).ok || views[i].name@
            == Check::UpstreamReachable.text() by {
            assert(passes(findings, all_checks()[i]) <==> i != 3);
        }
    }
}

/// With no daemon answering nothing but its absence is found, and the report exits as failed.
pub proof fn law_an_absent_daemon_fails_the_report(views: Seq<CheckView>, finding: Finding)
    requires
        is_report(views, seq![finding]),
        finding.check == Check::DaemonReachable,
        finding.outcome == Outcome::Failed,
    ensures
        report_exit(views) == Exit::Failed,
        forall|i: int| 0 <= i < 7 ==> !(#[trigger] views[i]).ok,
{
    let findings = seq![finding];
    assert(findings.skip(1) =~= Seq::<Finding>::empty());
    assert forall|i: int| 0 <= i < 7 implies !(#[trigger] views[i]).ok by {
        assert(reports_check(views[i], all_checks()[i], findings));
        if i > 0 {
            assert(first_finding(findings, all_checks()[i]) == 1 + first_finding(
                findings.skip(1),
                all_checks()[i],
            ));
        }
    }
    assert(views[1].name@ == Check::PortsBound.text());
    reveal_strlit("ports_bound");
    reveal_strlit("upstream_reachable");
    assert(views[1].name@.len() != Check::UpstreamReachable.text().len());
    assert(!views[1].ok);
}

/// The proxy settings pass exactly where all three are on and point here: HTTP and HTTPS at the HTTP
/// front end, SOCKS at the SOCKS5 one. There is one complaint for each that does not, and one that is
/// off is said to be off.
pub proof fn law_the_settings_pass_where_all_three_point_here(proxy: SystemProxy, listen: Listen)
    ensures
        complaints(proxy, listen).len() == 0 <==> {
            &&& proxy.http matches Some(e) && e.server() + ":"@ + decimal(e.number() as nat)
                == socket_text(listen.http)
            &&& proxy.https matches Some(e) && e.server() + ":"@ + decimal(e.number() as nat)
                == socket_text(listen.http)
            &&& proxy.socks matches Some(e) && e.server() + ":"@ + decimal(e.number() as nat)
                == socket_text(listen.socks)
        },
        proxy.http is None ==> complaints(proxy, listen).contains("http"@ + " is off"@),
        proxy.https is None ==> complaints(proxy, listen).contains("https"@ + " is off"@),
        proxy.socks is None ==> complaints(proxy, listen).contains("socks"@ + " is off"@),
        proxy.http matches Some(e) ==> (e.shown() != socket_text(listen.http) ==> complaints(
            proxy,
            listen,
        ).contains("http"@ + " points at "@ + e.shown() + ", not at "@ + socket_text(listen.http))),
        proxy.https matches Some(e) ==> (e.shown() != socket_text(listen.http) ==> complaints(
            proxy,
            listen,
        ).contains("https"@ + " points at "@ + e.shown() + ", not at "@ + socket_text(listen.http))),
        proxy.socks matches Some(e) ==> (e.shown() != socket_text(listen.socks) ==> complaints(
            proxy,
            listen,
        ).contains("socks"@ + " points at "@ + e.shown() + ", not at "@ + socket_text(listen.socks))),
{
    let a = complaint("http"@, proxy.http, listen.http);
    let b = complaint("https"@, proxy.https, listen.http);
    let c = complaint("socks"@, proxy.socks, listen.socks);
    let all = complaints(proxy, listen);
    assert(all == a + b + c);
    if a.len() > 0 {
        assert(all[0] == a[0]);
    }
    if b.len() > 0 {
        assert(all[a.len() as int] == b[0]);
    }
    if c.len() > 0 {
        assert(all[(a.len() + b.len()) as int] == c[0]);
    }
}

/// A report of the seven checks shows each finding under its name, and exits with success where all
/// passed, with the exit of its own where the upstream alone did not, and as failed otherwise.
pub proof fn law_a_report_shows_every_finding(views: Seq<CheckView>, findings: Seq<Finding>, i: int)
    requires
        is_report(views, findings),
        findings.len() == 7,
        findings[0].check == Check::DaemonReachable,
        findings[1].check == Check::PortsBound,
        findings[2].check == Check::SystemProxy,
        findings[3].check == Check::UpstreamReachable,
        findings[4].check == Check::InitFile,
        findings[5].check == Check::LastLoad,
        findings[6].check == Check::LogWritable,
        0 <= i < 7,
    ensures
        views.len() == 7,
        views[i].ok <==> findings[i].outcome == Outcome::Passed,
        views[i].detail@ == findings[i].detail@,
        views[0].name@ == "daemon_reachable"@,
        views[1].name@ == "ports_bound"@,
        views[2].name@ == "system_proxy"@,
        views[3].name@ == "upstream_reachable"@,
        views[4].name@ == "init_file"@,
        views[5].name@ == "last_load"@,
        views[6].name@ == "log_writable"@,
        ({
            let others = forall|j: int|
                0 <= j < 7 && j != 3 ==> (#[trigger] findings[j]).outcome == Outcome::Passed;
            report_exit(views) == if others && findings[3].outcome == Outcome::Passed {
                Exit::Success
            } else if others {
                Exit::UpstreamDown
            } else {
                Exit::Failed
            }
        }),
{
    assert forall|j: int| 0 <= j < 7 implies first_finding(
        findings,
        #[trigger] all_checks()[j],
    ) == j by {
        lemma_first_finding_is(findings, all_checks()[j], j);
    }
    assert forall|j: int| 0 <= j < 7 implies ((#[trigger] views[j]).ok <==> findings[j].outcome
        == Outcome::Passed) && views[j].detail@ == findings[j].detail@ && views[j].name@
        == all_checks()[j].text() by {
        assert(reports_check(views[j], all_checks()[j], findings));
    }
    assert forall|j: int| 0 <= j < 7 implies passes(findings, #[trigger] all_checks()[j]) == (
    findings[j].outcome == Outcome::Passed) by {}
    law_success_means_seven_passes(views, findings);
    law_the_upstream_alone_has_its_own_exit(views, findings);
    let others = forall|j: int|
        0 <= j < 7 && j != 3 ==> (#[trigger] findings[j]).outcome == Outcome::Passed;
    if others {
        assert forall|j: int| 0 <= j < 7 && j != 3 implies passes(
            findings,
            #[trigger] all_checks()[j],
        ) by {
            assert(findings[j].outcome == Outcome::Passed);
        }
    } else {
        let j = choose|j: int|
            0 <= j < 7 && j != 3 && (#[trigger] findings[j]).outcome != Outcome::Passed;
        assert(!passes(findings, all_checks()[j]));
    }
}

proof fn lemma_first_finding_is(findings: Seq<Finding>, check: Check, k: int)
    requires
        0 <= k < findings.len(),
        findings[k].check == check,
        forall|j: int| 0 <= j < k ==> (#[trigger] findings[j]).check != check,
    ensures
        first_finding(findings, check) == k,
    decreases k,
{
    if k > 0 {
        assert(findings[0].check != check);
        let rest = findings.skip(1);
        assert forall|j: int| 0 <= j < k - 1 implies (#[trigger] rest[j]).check != check by {
            assert(findings[j + 1].check != check);
        }
        lemma_first_finding_is(rest, check, k - 1);
    }
}

/// A check nobody made is shown as failed.
pub proof fn law_a_check_that_was_not_made_is_failed(
    views: Seq<CheckView>,
    findings: Seq<Finding>,
    i: int,
)
    requires
        is_report(views, findings),
        0 <= i < 7,
        forall|j: int| 0 <= j < findings.len() ==> (#[trigger] findings[j]).check != all_checks()[i],
    ensures
        !views[i].ok,
        report_exit(views) != Exit::Success,
{
    lemma_no_finding(findings, all_checks()[i]);
    assert(reports_check(views[i], all_checks()[i], findings));
}

proof fn lemma_no_finding(findings: Seq<Finding>, check: Check)
    requires
        forall|j: int| 0 <= j < findings.len() ==> (#[trigger] findings[j]).check != check,
    ensures
        first_finding(findings, check) == findings.len(),
    decreases findings.len(),
{
    if findings.len() > 0 {
        assert(findings[0].check != check);
        let rest = findings.skip(1);
        assert forall|j: int| 0 <= j < rest.len() implies (#[trigger] rest[j]).check != check by {
            assert(findings[j + 1].check != check);
        }
        lemma_no_finding(rest, check);
    }
}

/// A script is executable where its owner, its group or anybody may execute it, and a directory is
/// written to by its owner.
pub proof fn law_what_the_mode_bits_mean(mode: u32)
    ensures
        mode & ANY_EXECUTE == 0 <==> mode & 0o100 == 0 && mode & 0o010 == 0 && mode & 0o001 == 0,
        mode & OWNER_WRITE == 0 <==> mode & 0o200 == 0,
{
    assert(mode & 0o111 == 0 <==> mode & 0o100 == 0 && mode & 0o010 == 0 && mode & 0o001 == 0)
        by (bit_vector);
}

/// An upstream counts as configured where one was written and it can be dialled.
pub proof fn law_what_a_configured_upstream_is(written: Seq<char>, upstream: SocketAddr)
    ensures
        written.len() > 0 && upstream.port != 0 ==> is_configured(written, upstream),
        written.len() == 0 ==> !is_configured(written, upstream),
        !is_configured(written, no_upstream_addr()),
        no_upstream_addr().port == 0,
{
}

/// A failed dial is told with the upstream, its address and the reason; only a host that cannot be
/// reached is also told of the permission macOS may be withholding.
pub proof fn law_how_a_failed_dial_is_told(name: Seq<char>, upstream: SocketAddr, failure: IoFailure)
    ensures
        ({
            let plain = "cannot reach "@ + name + " on "@ + socket_text(upstream) + ": "@
                + failure.text@;
            let told = refusal_text(name, upstream, failure);
            &&& told.len() >= plain.len()
            &&& told.take(plain.len() as int) == plain
            &&& told == plain <==> failure.kind != IoKind::HostUnreachable
        }),
{
    reveal_strlit(
        " - macOS reports a denied Local Network permission as a routing error, so grant nhop Local Network access in System Settings > Privacy & Security and check that the binary is signed",
    );
    let plain = "cannot reach "@ + name + " on "@ + socket_text(upstream) + ": "@ + failure.text@;
    assert(refusal_text(name, upstream, failure).take(plain.len() as int) =~= plain);
}

/// A finding is of a check, an outcome and a detail.
pub proof fn law_what_a_finding_is(
    finding: Finding,
    check: Check,
    outcome: Outcome,
    detail: Seq<char>,
)
    ensures
        finding.is(check, outcome, detail) <==> finding.check == check && finding.outcome == outcome
            && finding.detail@ == detail,
{
}

/// The seven checks in the order they are made.
pub proof fn law_the_seven_checks()
    ensures
        all_checks().len() == 7,
        all_checks()[0] == Check::DaemonReachable,
        all_checks()[1] == Check::PortsBound,
        all_checks()[2] == Check::SystemProxy,
        all_checks()[3] == Check::UpstreamReachable,
        all_checks()[4] == Check::InitFile,
        all_checks()[5] == Check::LastLoad,
        all_checks()[6] == Check::LogWritable,
{
}

/// The command a run failed on is told where there is one.
pub proof fn law_how_the_failed_command_is_told(command: String)
    ensures
        on_text(Some(command)) == " on "@ + command@,
        on_text(None).len() == 0,
{
}

/// What a check that was not made is shown with.
pub proof fn law_how_a_check_that_was_not_made_is_told()
    ensures
        NOT_CHECKED@ == "not checked, the daemon did not answer"@,
{
}

} // verus!
