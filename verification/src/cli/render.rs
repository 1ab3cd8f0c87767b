//! How answers are printed.
use vstd::prelude::*;

use crate::cli::doctor::{exit_of, report_exit};
use crate::cli::exit::{exit_of_err, Exit};
use crate::ipc::{
    CheckView, DecisionView, EventView, HealthState, LastLoadView, Response, RuleClass, RuleView,
    StatusView, SystemProxyView,
};
use crate::logging::{stamp, LogLine, LoggedDecision, Window};
use crate::names::{
    class_name, class_text, decision_name, decision_text, health_name, health_text, outcome_name,
    outcome_text,
};
use crate::net::socket_text;
use crate::rules::matcher::{kind_name, kind_text};
use crate::text;
use crate::text::decimal;
use crate::time::rfc3339;

verus! {

/// Whether a read command prints JSON or text meant for a person.
#[derive(Debug, Clone, Copy, PartialEq, Eq, Structural)]
pub enum Output {
    /// One JSON document.
    Json,
    /// Text.
    Human,
}

impl Output {
    /// Returns what a `--json` switch asks for.
    pub fn of(json: bool) -> (r: Output)
        ensures
            r == crate::cli::args::printed_as(json),
    {
        if json {
            Self::Json
        } else {
            Self::Human
        }
    }
}

/// What is printed on stdout.
#[derive(Debug, Clone, PartialEq, Eq)]
pub enum Printed {
    /// Nothing.
    Nothing,
    /// This text.
    Text(String),
    /// The answer's payload as one JSON document and a line end.
    Document,
}

/// How an answer is printed.
#[derive(Debug, Clone, PartialEq, Eq)]
pub struct Rendering {
    /// What is printed on stdout.
    pub out: Printed,
    /// What is printed on stderr.
    pub err: String,
    /// What the process exits with.
    pub exit: Exit,
}

/// The rule that decided, as it is shown.
pub open spec fn rule_text(rule_index: Option<u32>, class: Option<RuleClass>) -> Seq<char> {
    match (rule_index, class) {
        (Some(index), Some(class)) => "rule "@ + decimal(index as nat) + " ("@ + class_text(class)
            + ")"@,
        _ => "no rule"@,
    }
}

fn rule_name(rule_index: Option<u32>, class: Option<RuleClass>) -> (r: String)
    ensures
        r@ == rule_text(rule_index, class),
{
    match (rule_index, class) {
        (Some(index), Some(class)) => {
            let mut r = "rule ".to_owned();
            r.append(text::decimal_text(index as u64).as_str());
            r.append(" (");
            r.append(class_name(class));
            r.append(")");
            r
        },
        _ => "no rule".to_owned(),
    }
}

/// One rule on a line.
pub open spec fn rule_line(rule: RuleView) -> Seq<char> {
    decimal(rule.index as nat) + "  "@ + class_text(rule.class) + "  "@ + kind_text(rule.kind)
        + "  "@ + rule.value.0@ + "\n"@
}

/// A ruleset, one rule on a line.
pub open spec fn rules_text(rules: Seq<RuleView>) -> Seq<char>
    decreases rules.len(),
{
    if rules.len() == 0 {
        Seq::empty()
    } else {
        rules_text(rules.drop_last()) + rule_line(rules.last())
    }
}

/// Shows a ruleset, one rule on a line.
pub fn render_rules(rules: &Vec<RuleView>) -> (r: String)
    ensures
        r@ == rules_text(rules@),
{
    let mut r = String::new();
    let mut i: usize = 0;
    assert(rules@.take(0) =~= Seq::<RuleView>::empty());
    while i < rules.len()
        invariant
            i <= rules.len(),
            r@ == rules_text(rules@.take(i as int)),
        decreases rules.len() - i,
    {
        assert(rules@.take(i + 1).drop_last() =~= rules@.take(i as int));
        let rule = &rules[i];
        let mut line = text::decimal_text(rule.index as u64);
        line.append("  ");
        line.append(class_name(rule.class));
        line.append("  ");
        line.append(kind_name(rule.kind));
        line.append("  ");
        line.append(rule.value.0.as_str());
        line.append("\n");
        r.append(line.as_str());
        i += 1;
    }
    assert(rules@.take(i as int) =~= rules@);
    r
}

/// A setting as it is shown.
pub open spec fn proxy_text(proxy: Option<String>) -> Seq<char> {
    match proxy {
        Some(proxy) => proxy@,
        None => "off"@,
    }
}

fn proxy_name(proxy: &Option<String>) -> (r: &str)
    ensures
        r@ == proxy_text(*proxy),
{
    match proxy {
        Some(proxy) => proxy.as_str(),
        None => "off",
    }
}

/// Whether a front end holds its address, as it is shown.
pub open spec fn bound_text(bound: bool) -> Seq<char> {
    if bound {
        "bound"@
    } else {
        "unbound"@
    }
}

fn bound_name(bound: bool) -> (r: &'static str)
    ensures
        r@ == bound_text(bound),
{
    if bound {
        "bound"
    } else {
        "unbound"
    }
}

/// The remembered init script, as it is shown.
pub open spec fn init_text(init_path: Option<String>) -> Seq<char> {
    match init_path {
        Some(path) => path@,
        None => "none"@,
    }
}

fn init_name(init_path: &Option<String>) -> (r: &str)
    ensures
        r@ == init_text(*init_path),
{
    match init_path {
        Some(path) => path.as_str(),
        None => "none",
    }
}

/// The most recent run, as it is shown.
pub open spec fn load_text(last_load: Option<LastLoadView>) -> Seq<char> {
    match last_load {
        None => "never - the ruleset is empty and every connection is direct"@,
        Some(load) => {
            let ended = outcome_text(load.outcome) + " at "@ + rfc3339(load.at.0.secs as u64);
            match load.command {
                Some(command) => ended + ", on "@ + command@,
                None => ended,
            }
        },
    }
}

fn load_name(last_load: &Option<LastLoadView>) -> (r: String)
    requires
        last_load matches Some(load) ==> load.at.0.written(),
    ensures
        r@ == load_text(*last_load),
{
    match last_load {
        None => "never - the ruleset is empty and every connection is direct".to_owned(),
        Some(load) => {
            let mut r = outcome_name(load.outcome).to_owned();
            r.append(" at ");
            r.append(load.at.text().as_str());
            match &load.command {
                Some(command) => {
                    r.append(", on ");
                    r.append(command.as_str());
                },
                None => {},
            }
            r
        },
    }
}

/// The status, one thing on a line.
pub open spec fn status_text(s: StatusView) -> Seq<char> {
    "uptime        "@ + decimal(s.uptime_secs as nat) + "s\n"@ + "http          "@ + socket_text(
        s.http_listen,
    ) + " "@ + bound_text(s.http_bound) + "\n"@ + "socks         "@ + socket_text(s.socks_listen)
        + " "@ + bound_text(s.socks_bound) + "\n"@ + "upstream      "@ + s.upstream.0@ + " "@
        + health_text(s.health) + " since "@ + rfc3339(s.health_changed_at.0.secs as u64) + "\n"@
        + "rules         require "@ + decimal(s.rules.require as nat) + ", prefer "@ + decimal(
        s.rules.prefer as nat,
    ) + ", never "@ + decimal(s.rules.never as nat) + "\n"@ + "init          "@ + init_text(
        s.init_path,
    ) + "\n"@ + "last load     "@ + load_text(s.last_load) + "\n"@ + "system proxy  http "@
        + proxy_text(s.system_proxy.http) + ", https "@ + proxy_text(s.system_proxy.https)
        + ", socks "@ + proxy_text(s.system_proxy.socks) + "\n"@
}

/// Whether every instant of a status can be written.
pub open spec fn status_written(s: StatusView) -> bool {
    &&& s.health_changed_at.0.written()
    &&& s.last_load matches Some(load) ==> load.at.0.written()
}

/// Shows the status, one thing on a line.
pub fn render_status(status: &StatusView) -> (r: String)
    requires
        status_written(*status),
    ensures
        r@ == status_text(*status),
{
    let mut r = "uptime        ".to_owned();
    r.append(text::decimal_text(status.uptime_secs).as_str());
    r.append("s\n");
    r.append("http          ");
    r.append(status.http_listen.text().as_str());
    r.append(" ");
    r.append(bound_name(status.http_bound));
    r.append("\n");
    r.append("socks         ");
    r.append(status.socks_listen.text().as_str());
    r.append(" ");
    r.append(bound_name(status.socks_bound));
    r.append("\n");
    r.append("upstream      ");
    r.append(status.upstream.0.as_str());
    r.append(" ");
    r.append(health_name(status.health));
    r.append(" since ");
    r.append(status.health_changed_at.text().as_str());
    r.append("\n");
    r.append("rules         require ");
    r.append(text::decimal_text(status.rules.require as u64).as_str());
    r.append(", prefer ");
    r.append(text::decimal_text(status.rules.prefer as u64).as_str());
    r.append(", never ");
    r.append(text::decimal_text(status.rules.never as u64).as_str());
    r.append("\n");
    r.append("init          ");
    r.append(init_name(&status.init_path));
    r.append("\n");
    r.append("last load     ");
    r.append(load_name(&status.last_load).as_str());
    r.append("\n");
    r.append("system proxy  http ");
    r.append(proxy_name(&status.system_proxy.http));
    r.append(", https ");
    r.append(proxy_name(&status.system_proxy.https));
    r.append(", socks ");
    r.append(proxy_name(&status.system_proxy.socks));
    r.append("\n");
    r
}

/// A decision on a line.
pub open spec fn decision_line(d: DecisionView) -> Seq<char> {
    decision_text(d.decision) + " via "@ + rule_text(d.rule_index, d.class) + " to "@ + d.next_hop@
        + "\n"@
}

/// Shows a decision on a line.
pub fn render_decision(decision: &DecisionView) -> (r: String)
    ensures
        r@ == decision_line(*decision),
{
    let mut r = decision_name(decision.decision).to_owned();
    r.append(" via ");
    r.append(rule_name(decision.rule_index, decision.class).as_str());
    r.append(" to ");
    r.append(decision.next_hop.as_str());
    r.append("\n");
    r
}

/// Whether a check passed, as it is shown.
pub open spec fn check_text(ok: bool) -> Seq<char> {
    if ok {
        "ok  "@
    } else {
        "FAIL"@
    }
}

fn check_name(ok: bool) -> (r: &'static str)
    ensures
        r@ == check_text(ok),
{
    if ok {
        "ok  "
    } else {
        "FAIL"
    }
}

/// Checks, one on a line.
pub open spec fn checks_text(checks: Seq<CheckView>) -> Seq<char>
    decreases checks.len(),
{
    if checks.len() == 0 {
        Seq::empty()
    } else {
        let check = checks.last();
        checks_text(checks.drop_last()) + (check_text(check.ok) + "  "@ + check.name@ + "  "@
            + check.detail@ + "\n"@)
    }
}

/// Shows checks, one on a line.
pub fn render_checks(checks: &Vec<CheckView>) -> (r: String)
    ensures
        r@ == checks_text(checks@),
{
    let mut r = String::new();
    let mut i: usize = 0;
    assert(checks@.take(0) =~= Seq::<CheckView>::empty());
    while i < checks.len()
        invariant
            i <= checks.len(),
            r@ == checks_text(checks@.take(i as int)),
        decreases checks.len() - i,
    {
        assert(checks@.take(i + 1).drop_last() =~= checks@.take(i as int));
        let check = &checks[i];
        let mut line = check_name(check.ok).to_owned();
        line.append("  ");
        line.append(check.name.as_str());
        line.append("  ");
        line.append(check.detail.as_str());
        line.append("\n");
        r.append(line.as_str());
        i += 1;
    }
    assert(checks@.take(i as int) =~= checks@);
    r
}

/// An event's error as it is shown.
pub open spec fn error_text(error: Option<String>) -> Seq<char> {
    match error {
        Some(error) => error@,
        None => "-"@,
    }
}

/// An event on a line.
pub open spec fn event_line(e: EventView) -> Seq<char> {
    e.host.0@ + ":"@ + decimal(e.port.0 as nat) + "  "@ + decision_text(e.decision) + " via "@
        + rule_text(e.rule_index, e.class) + "  upstream "@ + health_text(e.upstream) + "  "@
        + decimal(e.duration_ms as nat) + "ms  "@ + error_text(e.error) + "\n"@
}

/// Shows an event on a line.
pub fn render_event(event: &EventView) -> (r: String)
    ensures
        r@ == event_line(*event),
{
    let error = match &event.error {
        Some(error) => error.as_str(),
        None => "-",
    };
    let mut r = event.host.0.clone();
    r.append(":");
    r.append(text::decimal_text(event.port.0 as u64).as_str());
    r.append("  ");
    r.append(decision_name(event.decision));
    r.append(" via ");
    r.append(rule_name(event.rule_index, event.class).as_str());
    r.append("  upstream ");
    r.append(health_name(event.upstream));
    r.append("  ");
    r.append(text::decimal_text(event.duration_ms).as_str());
    r.append("ms  ");
    r.append(error);
    r.append("\n");
    r
}

/// Whether every instant of an answer can be written.
pub open spec fn response_written(response: Response) -> bool {
    response matches Response::Status(status) ==> status_written(status)
}

/// The text an answer is shown as.
pub open spec fn human_text(response: Response) -> Option<Seq<char>> {
    match response {
        Response::Done => None,
        Response::Rules(rules) => Some(rules_text(rules@)),
        Response::Status(status) => Some(status_text(status)),
        Response::Decision(decision) => Some(decision_line(decision)),
        Response::Doctor(checks) => Some(checks_text(checks@)),
        Response::Event(event) => Some(event_line(event)),
        Response::Failed { .. } => None,
    }
}

/// What an answer makes the process exit with.
pub open spec fn response_exit(response: Response) -> Exit {
    match response {
        Response::Doctor(checks) => report_exit(checks@),
        Response::Failed { kind, .. } => exit_of_err(kind),
        _ => Exit::Success,
    }
}

fn printed(text: String, output: Output) -> (r: Printed)
    ensures
        r == match output {
            Output::Json => Printed::Document,
            Output::Human => Printed::Text(text),
        },
{
    match output {
        Output::Json => Printed::Document,
        Output::Human => Printed::Text(text),
    }
}

/// Decides how an answer is printed. A failure is told on stderr alone, whatever was asked for.
pub fn render(response: &Response, output: Output) -> (r: Rendering)
    requires
        response_written(*response),
    ensures
        r.exit == response_exit(*response),
        match human_text(*response) {
            None => r.out == Printed::Nothing,
            Some(text) => match output {
                Output::Json => r.out == Printed::Document,
                Output::Human => r.out matches Printed::Text(shown) && shown@ == text,
            },
        },
        match *response {
            Response::Failed { message, .. } => r.err@ == "nhop: "@ + message@ + "\n"@,
            _ => r.err@ == Seq::<char>::empty(),
        },
{
    match response {
        Response::Done => Rendering {
            out: Printed::Nothing,
            err: String::new(),
            exit: Exit::Success,
        },
        Response::Rules(rules) => Rendering {
            out: printed(render_rules(rules), output),
            err: String::new(),
            exit: Exit::Success,
        },
        Response::Status(status) => Rendering {
            out: printed(render_status(status), output),
            err: String::new(),
            exit: Exit::Success,
        },
        Response::Decision(decision) => Rendering {
            out: printed(render_decision(decision), output),
            err: String::new(),
            exit: Exit::Success,
        },
        Response::Doctor(checks) => Rendering {
            out: printed(render_checks(checks), output),
            err: String::new(),
            exit: exit_of(checks),
        },
        Response::Event(event) => Rendering {
            out: printed(render_event(event), output),
            err: String::new(),
            exit: Exit::Success,
        },
        Response::Failed { kind, message } => render_failure(message.as_str(), Exit::of_err(*kind)),
    }
}

/// Returns whether a stream of decisions goes on after an answer: only a decision keeps it going.
pub fn follows(response: &Response) -> (r: bool)
    ensures
        r == (response is Event),
{
    match response {
        Response::Event(_) => true,
        _ => false,
    }
}

/// A line of the log as it is printed: raw as JSON, a decision with the time it was made before it,
/// anything else as it stands.
pub open spec fn logged_text(
    line: Seq<char>,
    logged: Option<LoggedDecision>,
    output: Output,
) -> Seq<char> {
    match (output, logged) {
        (Output::Human, Some(logged)) => rfc3339(logged.at.0.secs as u64) + "  "@ + event_line(
            logged.event,
        ),
        _ => line + "\n"@,
    }
}

/// Returns a line of the log as it is printed.
pub fn render_logged(line: &str, logged: &Option<LoggedDecision>, output: Output) -> (r: String)
    requires
        logged matches Some(logged) ==> logged.at.0.written(),
    ensures
        r@ == logged_text(line@, *logged, output),
{
    match (output, logged) {
        (Output::Human, Some(logged)) => {
            let mut r = logged.at.text();
            r.append("  ");
            r.append(render_event(&logged.event).as_str());
            r
        },
        _ => {
            let mut r = line.to_owned();
            r.append("\n");
            r
        },
    }
}

/// What is printed of the log: the lines that fall inside the window, in order.
pub open spec fn log_text(window: Window, lines: Seq<LogLine>, output: Output) -> Seq<char>
    decreases lines.len(),
{
    if lines.len() == 0 {
        Seq::empty()
    } else {
        log_text(window, lines.drop_last(), output) + if window.spans(stamp(lines.last().line@)) {
            logged_text(lines.last().line@, lines.last().logged, output)
        } else {
            Seq::empty()
        }
    }
}

/// Returns what is printed of the log.
pub fn render_log(window: &Window, lines: &Vec<LogLine>, output: Output) -> (r: String)
    requires
        window.valid(),
        forall|i: int|
            0 <= i < lines.len() ==> ((#[trigger] lines@[i]).logged matches Some(logged)
                ==> logged.at.0.written()),
    ensures
        r@ == log_text(*window, lines@, output),
{
    let mut r = String::new();
    let mut i: usize = 0;
    while i < lines.len()
        invariant
            window.valid(),
            forall|i: int|
                0 <= i < lines.len() ==> ((#[trigger] lines@[i]).logged matches Some(logged)
                    ==> logged.at.0.written()),
            i <= lines.len(),
            r@ == log_text(*window, lines@.take(i as int), output),
        decreases lines.len() - i,
    {
        let line = &lines[i];
        assert(lines@.take(i + 1).drop_last() =~= lines@.take(i as int));
        if window.holds(line.line.as_str()) {
            r.append(render_logged(line.line.as_str(), &line.logged, output).as_str());
        } else {
            assert(r@ + Seq::<char>::empty() =~= r@);
        }
        i += 1;
    }
    assert(lines@.take(i as int) =~= lines@);
    r
}

/// Returns how a failure is told: on stderr alone.
pub fn render_failure(message: &str, exit: Exit) -> (r: Rendering)
    ensures
        r.out == Printed::Nothing,
        r.err@ == "nhop: "@ + message@ + "\n"@,
        r.exit == exit,
{
    let mut err = "nhop: ".to_owned();
    err.append(message);
    err.append("\n");
    Rendering { out: Printed::Nothing, err, exit }
}

/// Returns how a log that is not there is told, by how many files are kept and how many have been
/// read before: one that was there once is waited for.
pub fn no_log(kept: usize, read: usize) -> (r: Option<Rendering>)
    ensures
        r is Some <==> kept == 0 && read == 0,
        r matches Some(told) ==> {
            &&& told.out == Printed::Nothing
            &&& told.err@ == "nhop: no log file yet\n"@
            &&& told.exit == Exit::Missing
        },
{
    if kept > 0 || read > 0 {
        return None;
    }
    let told = render_failure("no log file yet", Exit::Missing);
    proof {
        reveal_strlit("nhop: ");
        reveal_strlit("no log file yet");
        reveal_strlit("\n");
        reveal_strlit("nhop: no log file yet\n");
        assert("nhop: "@ + "no log file yet"@ + "\n"@ =~= "nhop: no log file yet\n"@);
    }
    Some(told)
}

/// The three settings as they are shown.
pub open spec fn settings_text(settings: SystemProxyView) -> Seq<char> {
    "http  "@ + proxy_text(settings.http) + "\nhttps  "@ + proxy_text(settings.https)
        + "\nsocks  "@ + proxy_text(settings.socks) + "\n"@
}

/// Returns the three settings as they are shown, one on a line.
pub fn render_settings(settings: &SystemProxyView) -> (r: String)
    ensures
        r@ == settings_text(*settings),
{
    let mut r = "http  ".to_owned();
    r.append(proxy_name(&settings.http));
    r.append("\nhttps  ");
    r.append(proxy_name(&settings.https));
    r.append("\nsocks  ");
    r.append(proxy_name(&settings.socks));
    r.append("\n");
    r
}

/// However the lines of a log are taken up, what is printed of them is the same: following it prints
/// what one look at all of it would print.
pub proof fn law_the_log_is_printed_line_by_line(
    window: Window,
    lines: Seq<LogLine>,
    more: Seq<LogLine>,
    output: Output,
)
    ensures
        log_text(window, lines + more, output) == log_text(window, lines, output) + log_text(
            window,
            more,
            output,
        ),
    decreases more.len(),
{
    let printed = log_text(window, lines, output);
    if more.len() == 0 {
        assert(lines + more =~= lines);
        assert(printed + log_text(window, more, output) =~= printed);
    } else {
        law_the_log_is_printed_line_by_line(window, lines, more.drop_last(), output);
        assert((lines + more).drop_last() =~= lines + more.drop_last());
        let shown = if window.spans(stamp(more.last().line@)) {
            logged_text(more.last().line@, more.last().logged, output)
        } else {
            Seq::empty()
        };
        assert((printed + log_text(window, more.drop_last(), output)) + shown =~= printed + (
        log_text(window, more.drop_last(), output) + shown));
    }
}

/// A failure shows nothing on stdout, and only failures and reports exit with anything but success.
pub proof fn law_failures_keep_stdout_empty(response: Response)
    ensures
        response is Failed ==> human_text(response) is None,
        response_exit(response) == Exit::Success || response is Failed || response is Doctor,
{
}

/// Every rule is one line of a listing, in order: its position, its class, its kind and its value.
pub proof fn law_every_rule_is_one_line(before: Seq<RuleView>, rule: RuleView, after: Seq<RuleView>)
    ensures
        rules_text(before + seq![rule] + after) == rules_text(before) + (decimal(rule.index as nat)
            + "  "@ + class_text(rule.class) + "  "@ + kind_text(rule.kind) + "  "@ + rule.value.0@
            + "\n"@) + rules_text(after),
        rules_text(Seq::empty()).len() == 0,
    decreases after.len(),
{
    if after.len() == 0 {
        assert(before + seq![rule] + after =~= before.push(rule));
        assert(before.push(rule).drop_last() =~= before);
        assert(rules_text(before) + rule_line(rule) + rules_text(after) =~= rules_text(before)
            + rule_line(rule));
    } else {
        law_every_rule_is_one_line(before, rule, after.drop_last());
        let all = before + seq![rule] + after;
        assert(all.drop_last() =~= before + seq![rule] + after.drop_last());
        assert(all.last() == after.last());
        assert((rules_text(before) + rule_line(rule) + rules_text(after.drop_last())) + rule_line(
            after.last(),
        ) =~= rules_text(before) + rule_line(rule) + (rules_text(after.drop_last()) + rule_line(
            after.last(),
        )));
    }
}

/// Every check is one line of a report, in order: whether it passed, its name and its detail.
pub proof fn law_every_check_is_one_line(
    before: Seq<CheckView>,
    check: CheckView,
    after: Seq<CheckView>,
)
    ensures
        checks_text(before + seq![check] + after) == checks_text(before) + ((if check.ok {
            "ok  "@
        } else {
            "FAIL"@
        }) + "  "@ + check.name@ + "  "@ + check.detail@ + "\n"@) + checks_text(after),
        checks_text(Seq::empty()).len() == 0,
    decreases after.len(),
{
    let line = check_text(check.ok) + "  "@ + check.name@ + "  "@ + check.detail@ + "\n"@;
    if after.len() == 0 {
        assert(before + seq![check] + after =~= before.push(check));
        assert(before.push(check).drop_last() =~= before);
        assert(checks_text(before) + line + checks_text(after) =~= checks_text(before) + line);
    } else {
        law_every_check_is_one_line(before, check, after.drop_last());
        let all = before + seq![check] + after;
        let last = after.last();
        let end = check_text(last.ok) + "  "@ + last.name@ + "  "@ + last.detail@ + "\n"@;
        assert(all.drop_last() =~= before + seq![check] + after.drop_last());
        assert(all.last() == last);
        assert((checks_text(before) + line + checks_text(after.drop_last())) + end =~= checks_text(
            before,
        ) + line + (checks_text(after.drop_last()) + end));
    }
}

/// A status is eight lines: how long the daemon has been up, where each front end listens and whether
/// it does, the upstream and the verdict on it, the rules of each class, the script, how it went, and
/// the settings of the system.
pub proof fn law_a_status_is_eight_lines(s: StatusView)
    ensures
        status_text(s) == "uptime        "@ + decimal(s.uptime_secs as nat) + "s\n"@
            + "http          "@ + socket_text(s.http_listen) + " "@ + (if s.http_bound {
            "bound"@
        } else {
            "unbound"@
        }) + "\n"@ + "socks         "@ + socket_text(s.socks_listen) + " "@ + (if s.socks_bound {
            "bound"@
        } else {
            "unbound"@
        }) + "\n"@ + "upstream      "@ + s.upstream.0@ + " "@ + (if s.health == HealthState::Up {
            "up"@
        } else {
            "down"@
        }) + " since "@ + rfc3339(s.health_changed_at.0.secs as u64) + "\n"@
            + "rules         require "@ + decimal(s.rules.require as nat) + ", prefer "@ + decimal(
            s.rules.prefer as nat,
        ) + ", never "@ + decimal(s.rules.never as nat) + "\n"@ + "init          "@ + init_text(
            s.init_path,
        ) + "\n"@ + "last load     "@ + load_text(s.last_load) + "\n"@ + "system proxy  http "@
            + proxy_text(s.system_proxy.http) + ", https "@ + proxy_text(s.system_proxy.https)
            + ", socks "@ + proxy_text(s.system_proxy.socks) + "\n"@,
{
}

/// How settings, scripts, runs, rules and errors are told: by what they are, or by a word where there
/// is nothing.
pub proof fn law_what_is_not_there_is_told_in_a_word(
    told: String,
    load: LastLoadView,
    index: u32,
    class: RuleClass,
)
    ensures
        proxy_text(Some(told)) == told@,
        proxy_text(None) == "off"@,
        init_text(Some(told)) == told@,
        init_text(None) == "none"@,
        error_text(Some(told)) == told@,
        error_text(None) == "-"@,
        rule_text(Some(index), Some(class)) == "rule "@ + decimal(index as nat) + " ("@ + class_text(
            class,
        ) + ")"@,
        rule_text(None, None) == "no rule"@,
        load_text(None) == "never - the ruleset is empty and every connection is direct"@,
        load.command is None ==> load_text(Some(load)) == outcome_text(load.outcome) + " at "@ + rfc3339(
            load.at.0.secs as u64,
        ),
        load.command matches Some(command) ==> load_text(Some(load)) == outcome_text(load.outcome)
            + " at "@ + rfc3339(load.at.0.secs as u64) + ", on "@ + command@,
{
}

/// A decision is told with the rule that made it and the hop; an event with the destination, the
/// decision, the rule, the verdict, how long it lasted and what went wrong.
pub proof fn law_how_decisions_and_events_are_told(d: DecisionView, e: EventView)
    ensures
        decision_line(d) == decision_text(d.decision) + " via "@ + rule_text(d.rule_index, d.class)
            + " to "@ + d.next_hop@ + "\n"@,
        event_line(e) == e.host.0@ + ":"@ + decimal(e.port.0 as nat) + "  "@ + decision_text(
            e.decision,
        ) + " via "@ + rule_text(e.rule_index, e.class) + "  upstream "@ + health_text(e.upstream)
            + "  "@ + decimal(e.duration_ms as nat) + "ms  "@ + error_text(e.error) + "\n"@,
{
}

/// A line of the log is printed as it stands unless words were asked for and it records a decision; a
/// line outside the window is not printed.
pub proof fn law_which_lines_of_the_log_are_printed(
    window: Window,
    line: LogLine,
    logged: LoggedDecision,
    output: Output,
)
    ensures
        window.spans(stamp(line.line@)) ==> log_text(window, seq![line], output) == logged_text(
            line.line@,
            line.logged,
            output,
        ),
        !window.spans(stamp(line.line@)) ==> log_text(window, seq![line], output).len() == 0,
        logged_text(line.line@, line.logged, Output::Json) == line.line@ + "\n"@,
        logged_text(line.line@, None, output) == line.line@ + "\n"@,
        logged_text(line.line@, Some(logged), Output::Human) == rfc3339(logged.at.0.secs as u64) + "  "@
            + event_line(logged.event),
{
    assert(seq![line].drop_last() =~= Seq::<LogLine>::empty());
    reveal_with_fuel(log_text, 2);
    assert(log_text(window, seq![line], output) =~= if window.spans(stamp(line.line@)) {
        logged_text(line.line@, line.logged, output)
    } else {
        Seq::empty()
    });
}

/// An answer that carries something is shown, a refusal and a plain acceptance show nothing, and what
/// each exits with.
pub proof fn law_what_an_answer_shows(response: Response)
    ensures
        human_text(response) is None <==> response is Done || response is Failed,
        response matches Response::Rules(rules) ==> human_text(response) == Some(rules_text(rules@)),
        response matches Response::Status(status) ==> human_text(response) == Some(status_text(status)),
        response matches Response::Decision(d) ==> human_text(response) == Some(decision_line(d)),
        response matches Response::Doctor(checks) ==> human_text(response) == Some(checks_text(checks@))
            && response_exit(response) == report_exit(checks@),
        response matches Response::Event(event) ==> human_text(response) == Some(event_line(event)),
        response matches Response::Failed { kind, .. } ==> response_exit(response) == exit_of_err(kind),
        !(response is Doctor) && !(response is Failed) ==> response_exit(response) == Exit::Success,
{
}

/// The three settings are three lines.
pub proof fn law_the_settings_are_three_lines(settings: SystemProxyView)
    ensures
        settings_text(settings) == "http  "@ + proxy_text(settings.http) + "\nhttps  "@ + proxy_text(
            settings.https,
        ) + "\nsocks  "@ + proxy_text(settings.socks) + "\n"@,
{
}

/// Everything that was observed from 1970 to 9999 can be shown.
pub proof fn law_what_can_be_shown(s: StatusView, response: Response)
    ensures
        0 <= s.health_changed_at.0.secs && s.health_changed_at.0.secs < 253_402_300_800
            && s.last_load is None ==> status_written(s),
        !(response is Status) ==> response_written(response),
        status_written(s) ==> response_written(Response::Status(s)),
{
}

} // verus!
