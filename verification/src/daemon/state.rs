//! The state of a running daemon: what each command does to it, and how an init run ends.
use vstd::prelude::*;

use crate::cli::explain::{decision_view, reports, rule_views, shown};
use crate::cli::status::{copied_forwards, reports_status, status_view, DaemonStatus};
use crate::daemon::init_script::ScriptOutcome;
use crate::daemon::listen::BindState;
use crate::daemon::staging::{FailedCommand, LoadIds, Staging, StagingModel};
use crate::ipc::view::copied;
use crate::ipc::{
    Command, ErrKind, ForwardView, LastLoadView, LoadId, LoadOutcome, Response, RuleClass,
    RuleCountsView, RuleKind, RuleValue, SystemProxyView, Timestamp, UpstreamAddr,
};
use crate::net::{socket_read, IpAddr, SocketAddr};
use crate::proxy::events::{bare, no_upstream, no_upstream_addr};
use crate::proxy::{Listen, Upstream};
use crate::rules::matcher::{fits, network_text, pattern_read, rejection, Pattern};
use crate::rules::ruleset::{counted, decision, RuleModel};
use crate::rules::Ruleset;
use crate::text::in_quotes;
use crate::time::SystemTime;
use crate::upstream::Health;

verus! {

/// An init run in flight.
#[derive(Debug, PartialEq, Eq)]
pub struct Loading {
    /// Identifier its commands carry.
    pub id: LoadId,
    /// What they have built so far.
    pub staging: Staging,
}

/// Everything a daemon decides by.
#[derive(Debug, PartialEq, Eq)]
pub struct DaemonState {
    /// Rules serving traffic.
    pub rules: Ruleset,
    /// Upstream serving traffic, absent until one is named.
    pub upstream: Option<Upstream>,
    /// Addresses the front ends are configured to bind.
    pub listen: Listen,
    /// Whether the front ends hold those addresses.
    pub bound: BindState,
    /// Forward front ends held.
    pub forwards: Vec<ForwardView>,
    /// Init script to run while none is remembered.
    pub default_init: String,
    /// Init script remembered, absent until one is run.
    pub init_path: Option<String>,
    /// Result of the most recent run, absent until one finishes.
    pub last_load: Option<LastLoadView>,
    /// Init run in flight.
    pub loading: Option<Loading>,
    /// Source of the runs' identifiers.
    pub ids: LoadIds,
}

/// What `status` reports and the state does not hold.
#[derive(Debug, PartialEq, Eq)]
pub struct Facts {
    /// Seconds since the daemon started.
    pub uptime_secs: u64,
    /// Verdict on the upstream.
    pub health: Health,
    /// Proxy settings macOS reports.
    pub system_proxy: SystemProxyView,
    /// Whether the default init script exists.
    pub init_exists: bool,
}

/// What the daemon does about a command.
#[derive(Debug, PartialEq, Eq)]
pub enum Step {
    /// Answers.
    Answer(Response),
    /// Answers that the command was accepted and runs a script with this identifier.
    Run {
        /// Script to run.
        script: String,
        /// Identifier its commands carry.
        load: LoadId,
    },
    /// Moves the front ends and hands the outcome to [`DaemonState::moved`].
    Move(Listen),
    /// Opens a forward front end and hands the outcome to [`DaemonState::opened`].
    Open(ForwardView),
    /// Runs the diagnostic checks and answers with them.
    Diagnose,
}

/// What the daemon does once a script has ended.
#[derive(Debug, PartialEq, Eq)]
pub enum Finish {
    /// Nothing: the run is not the one in flight.
    Ignored,
    /// Nothing more: the run is discarded and recorded as failed.
    Discarded,
    /// Moves the front ends and opens the forwards, and hands the outcome to
    /// [`DaemonState::committed`].
    Commit {
        /// Addresses to move the front ends to, absent where they stay.
        listen: Option<Listen>,
        /// Forward front ends to hold from now on.
        forwards: Vec<ForwardView>,
    },
}

/// Whom a mutating command belongs to.
#[derive(Debug, Clone, Copy, PartialEq, Eq, Structural)]
pub enum Admission {
    /// No run is in flight and it names none: it applies at once.
    Live,
    /// It belongs to the run in flight: it is staged.
    Staged,
    /// A run is in flight and it does not belong to it: it is refused.
    Busy,
    /// It belongs to a run that is over: it is refused.
    Gone,
}

/// The text a command that does not belong to the run in flight is refused with.
pub open spec fn busy_text() -> Seq<char> {
    "an init run is in progress, wait for it or hand its NHOP_LOAD_ID on"@
}

/// The text a command of a run that is over is refused with.
pub open spec fn gone_text() -> Seq<char> {
    "the init run this command belongs to is over"@
}

/// Whether a step refuses a command.
pub open spec fn refuses(step: Step, kind: ErrKind, text: Seq<char>) -> bool {
    step matches Step::Answer(Response::Failed { kind: k, message }) && k == kind && message@ == text
}

/// Whether a step accepts a command with nothing more to do.
pub open spec fn accepts(step: Step) -> bool {
    step == Step::Answer(Response::Done)
}

/// A count as it is reported, at most as large as fits.
pub open spec fn reported_count(n: nat) -> u32 {
    if n > u32::MAX {
        u32::MAX
    } else {
        n as u32
    }
}

fn refused(kind: ErrKind, message: &str) -> (r: Step)
    ensures
        refuses(r, kind, message@),
{
    Step::Answer(Response::Failed { kind, message: message.to_owned() })
}

fn reported(n: usize) -> (r: u32)
    ensures
        r == reported_count(n as nat),
{
    if n > u32::MAX as usize {
        u32::MAX
    } else {
        n as u32
    }
}

impl DaemonState {
    /// A staged upstream can be read.
    pub open spec fn wf(&self) -> bool {
        self.loading matches Some(run) ==> (run.staging@.upstream matches Some(addr)
            ==> socket_read(bare(addr.0@)) is Some)
    }

    /// The upstream as it was written, empty until one is named.
    pub open spec fn written(&self) -> Seq<char> {
        match self.upstream {
            Some(upstream) => upstream.text().0@,
            None => Seq::empty(),
        }
    }

    /// The upstream that is dialled.
    pub open spec fn dialled(&self) -> SocketAddr {
        match self.upstream {
            Some(upstream) => upstream.addr(),
            None => no_upstream_addr(),
        }
    }

    /// Whom a command belongs to.
    pub open spec fn admission(&self, load: Option<LoadId>) -> Admission {
        match (self.loading, load) {
            (None, None) => Admission::Live,
            (None, Some(_)) => Admission::Gone,
            (Some(run), Some(id)) => if run.id == id {
                Admission::Staged
            } else {
                Admission::Busy
            },
            (Some(_), None) => Admission::Busy,
        }
    }

    /// Everything but the run in flight is as before, and that run has built this much.
    pub open spec fn staged(&self, next: DaemonState, built: StagingModel) -> bool {
        &&& self.loading is Some
        &&& next.loading matches Some(run) && run.id == self.loading->0.id && run.staging@ == built
        &&& next == (DaemonState { loading: next.loading, ..*self })
    }

    /// What the run in flight has built.
    pub open spec fn built(&self) -> StagingModel {
        self.loading->0.staging@
    }

    /// What the refusal of a command that is neither live nor staged is.
    pub open spec fn turned_away(&self, load: Option<LoadId>, next: DaemonState, step: Step) -> bool {
        &&& next == *self
        &&& match self.admission(load) {
            Admission::Busy => refuses(step, ErrKind::LoadInProgress, busy_text()),
            Admission::Gone => refuses(step, ErrKind::NotFound, gone_text()),
            _ => false,
        }
    }

    /// What `add_rule` does.
    pub open spec fn adds_rule(
        &self,
        class: RuleClass,
        kind: RuleKind,
        value: RuleValue,
        load: Option<LoadId>,
        next: DaemonState,
        step: Step,
    ) -> bool {
        match (self.admission(load), pattern_read(kind, value.0@)) {
            (Admission::Live, Some(pattern)) => {
                &&& accepts(step)
                &&& next.rules@ == self.rules@.push(RuleModel { class, pattern, value })
                &&& next == (DaemonState { rules: next.rules, ..*self })
            },
            (Admission::Live, None) => {
                &&& refuses(step, ErrKind::InvalidArgs, rejection(kind, value.0@))
                &&& next == *self
            },
            (Admission::Staged, Some(pattern)) => {
                &&& accepts(step)
                &&& self.staged(
                    next,
                    StagingModel {
                        rules: self.built().rules.push(RuleModel { class, pattern, value }),
                        ..self.built()
                    },
                )
            },
            (Admission::Staged, None) => {
                &&& refuses(step, ErrKind::InvalidArgs, rejection(kind, value.0@))
                &&& self.staged(next, self.built().marked(FailedCommand::AddRule))
            },
            _ => self.turned_away(load, next, step),
        }
    }

    /// What `add_rule` does with a network: one written without a slash is turned away, and one
    /// written as an address, a slash and a prefix becomes a rule on those two.
    pub open spec fn adds_network(
        &self,
        class: RuleClass,
        value: RuleValue,
        load: Option<LoadId>,
        next: DaemonState,
        step: Step,
    ) -> bool {
        &&& !value.0@.contains('/') ==> !accepts(step)
        &&& forall|addr: IpAddr, prefix_len: u8|
            fits(addr, prefix_len) && value.0@ == #[trigger] network_text(addr, prefix_len) ==> {
                let rule = RuleModel { class, pattern: Pattern::Cidr(addr, prefix_len), value };
                match self.admission(load) {
                    Admission::Live => accepts(step) && next.rules@ == self.rules@.push(rule),
                    Admission::Staged => accepts(step) && next.built().rules
                        == self.built().rules.push(rule),
                    _ => true,
                }
            }
    }

    /// What `clear_rules` does.
    pub open spec fn clears_rules(
        &self,
        load: Option<LoadId>,
        next: DaemonState,
        step: Step,
    ) -> bool {
        match self.admission(load) {
            Admission::Live => {
                &&& accepts(step)
                &&& next.rules@ == Seq::<RuleModel>::empty()
                &&& next == (DaemonState { rules: next.rules, ..*self })
            },
            Admission::Staged => {
                &&& accepts(step)
                &&& self.staged(next, StagingModel { rules: Seq::empty(), ..self.built() })
            },
            _ => self.turned_away(load, next, step),
        }
    }

    /// What `set_upstream` does.
    pub open spec fn sets_upstream(
        &self,
        addr: UpstreamAddr,
        load: Option<LoadId>,
        next: DaemonState,
        step: Step,
    ) -> bool {
        let rejected = "upstream must be socks5://<ip>:<port>, got "@ + in_quotes(bare(addr.0@));
        match (self.admission(load), socket_read(bare(addr.0@))) {
            (Admission::Live, Some(socket)) => {
                &&& accepts(step)
                &&& next.upstream matches Some(upstream) && upstream.text() == addr
                    && upstream.addr() == socket
                &&& next == (DaemonState { upstream: next.upstream, ..*self })
            },
            (Admission::Live, None) => {
                &&& refuses(step, ErrKind::InvalidArgs, rejected)
                &&& next == *self
            },
            (Admission::Staged, Some(_)) => {
                &&& accepts(step)
                &&& self.staged(next, StagingModel { upstream: Some(addr), ..self.built() })
            },
            (Admission::Staged, None) => {
                &&& refuses(step, ErrKind::InvalidArgs, rejected)
                &&& self.staged(next, self.built().marked(FailedCommand::SetUpstream))
            },
            _ => self.turned_away(load, next, step),
        }
    }

    /// What `set_listen` does.
    pub open spec fn sets_listen(
        &self,
        listen: Listen,
        load: Option<LoadId>,
        next: DaemonState,
        step: Step,
    ) -> bool {
        match self.admission(load) {
            Admission::Live => step == Step::Move(listen) && next == *self,
            Admission::Staged => {
                &&& accepts(step)
                &&& self.staged(next, StagingModel { listen: Some(listen), ..self.built() })
            },
            _ => self.turned_away(load, next, step),
        }
    }

    /// What `add_forward` does.
    pub open spec fn adds_forward(
        &self,
        forward: ForwardView,
        load: Option<LoadId>,
        next: DaemonState,
        step: Step,
    ) -> bool {
        match self.admission(load) {
            Admission::Live => step == Step::Open(forward) && next == *self,
            Admission::Staged => {
                &&& accepts(step)
                &&& self.staged(
                    next,
                    StagingModel {
                        forwards: self.built().forwards.push(forward),
                        ..self.built()
                    },
                )
            },
            _ => self.turned_away(load, next, step),
        }
    }

    /// What running a script does: a fresh run from nothing, the script remembered, everything that
    /// serves traffic as before.
    pub open spec fn runs(&self, script: Seq<char>, next: DaemonState, step: Step) -> bool {
        &&& step matches Step::Run { script: s, load } && s@ == script && load.0 == self.ids.last()
            + 1
        &&& next.loading matches Some(run) && run.id == step->load && run.staging@
            == StagingModel::empty()
        &&& next.ids.last() == step->load.0
        &&& next.init_path matches Some(path) && path@ == script
        &&& next == (DaemonState {
            loading: next.loading,
            ids: next.ids,
            init_path: next.init_path,
            ..*self
        })
    }

    /// What `reload` does.
    pub open spec fn reloads(
        &self,
        path: Option<String>,
        init_exists: bool,
        next: DaemonState,
        step: Step,
    ) -> bool {
        if self.loading is Some {
            next == *self && refuses(step, ErrKind::LoadInProgress, busy_text())
        } else {
            match (path, self.init_path) {
                (Some(path), _) => self.runs(path@, next, step),
                (None, Some(path)) => self.runs(path@, next, step),
                (None, None) => if init_exists {
                    self.runs(self.default_init@, next, step)
                } else {
                    next == *self && accepts(step)
                },
            }
        }
    }

    /// What `on` does.
    pub open spec fn turns_on(&self, next: DaemonState, step: Step) -> bool {
        if self.loading is Some {
            next == *self && refuses(step, ErrKind::LoadInProgress, busy_text())
        } else {
            match self.init_path {
                Some(path) => self.runs(path@, next, step),
                None => next == *self && refuses(
                    step,
                    ErrKind::NotFound,
                    "no init script has been run yet"@,
                ),
            }
        }
    }

    /// What `off` does: the rules go, everything else stays.
    pub open spec fn turns_off(&self, next: DaemonState, step: Step) -> bool {
        if self.loading is Some {
            next == *self && refuses(step, ErrKind::LoadInProgress, busy_text())
        } else {
            &&& accepts(step)
            &&& next.rules@ == Seq::<RuleModel>::empty()
            &&& next == (DaemonState { rules: next.rules, ..*self })
        }
    }

    /// What the state reports of itself.
    pub open spec fn summary(&self, status: DaemonStatus, facts: Facts) -> bool {
        &&& status.uptime_secs == facts.uptime_secs
        &&& status.listen == self.listen
        &&& status.bound == self.bound
        &&& status.forwards@ == self.forwards@
        &&& status.upstream.0@ == self.written()
        &&& status.health == facts.health
        &&& status.init_path == self.init_path
        &&& status.last_load == self.last_load
        &&& status.rules == (RuleCountsView {
            require: reported_count(counted(self.rules@, RuleClass::Require)),
            prefer: reported_count(counted(self.rules@, RuleClass::Prefer)),
            never: reported_count(counted(self.rules@, RuleClass::Never)),
        })
    }

    /// What a command does to the state and is answered with.
    pub open spec fn handled(
        &self,
        command: Command,
        facts: Facts,
        next: DaemonState,
        step: Step,
    ) -> bool {
        match command {
            Command::AddRule { class, kind, value, load } => self.adds_rule(
                class,
                kind,
                value,
                load,
                next,
                step,
            ),
            Command::ClearRules { load } => self.clears_rules(load, next, step),
            Command::SetUpstream { addr, load } => self.sets_upstream(addr, load, next, step),
            Command::SetListen { http, socks, load } => self.sets_listen(
                Listen { http, socks },
                load,
                next,
                step,
            ),
            Command::AddForward { listen, host, port, load } => self.adds_forward(
                ForwardView { listen, host, port },
                load,
                next,
                step,
            ),
            Command::Reload { path } => self.reloads(path, facts.init_exists, next, step),
            Command::On => self.turns_on(next, step),
            Command::Off => self.turns_off(next, step),
            Command::Status => {
                &&& next == *self
                &&& step matches Step::Answer(Response::Status(view)) && exists|
                    status: DaemonStatus,
                | #[trigger]
                    self.summary(status, facts) && reports_status(view, status, facts.system_proxy)
            },
            Command::Rules => {
                &&& next == *self
                &&& step matches Step::Answer(Response::Rules(views)) && views@ == self.rules@.map(
                    |i: int, rule: RuleModel| shown(rule, i),
                )
            },
            Command::Test { host, port } => {
                &&& next == *self
                &&& step matches Step::Answer(Response::Decision(view)) && reports(
                    view,
                    decision(self.rules@, host.0@, port.0),
                    self.written(),
                    host.0@,
                    port.0,
                )
            },
            Command::Doctor => next == *self && step == Step::Diagnose,
            Command::Subscribe => next == *self && refuses(
                step,
                ErrKind::Internal,
                "decisions are streamed by the connection that asks for them"@,
            ),
        }
    }

    /// Returns the state of a daemon that has loaded nothing.
    pub fn new(listen: Listen, bound: BindState, default_init: String) -> (r: DaemonState)
        ensures
            r.wf(),
            r.rules@ == Seq::<RuleModel>::empty(),
            r.upstream is None,
            r.listen == listen,
            r.bound == bound,
            r.forwards@ == Seq::<ForwardView>::empty(),
            r.default_init == default_init,
            r.init_path is None,
            r.last_load is None,
            r.loading is None,
            r.ids.last() == 0,
    {
        DaemonState {
            rules: Ruleset::new(),
            upstream: None,
            listen,
            bound,
            forwards: Vec::new(),
            default_init,
            init_path: None,
            last_load: None,
            loading: None,
            ids: LoadIds::new(),
        }
    }

    /// Returns the address `require` and `prefer` traffic is sent to.
    pub fn published(&self) -> (r: SocketAddr)
        ensures
            r == self.dialled(),
    {
        match &self.upstream {
            Some(upstream) => upstream.socket(),
            None => no_upstream(),
        }
    }

    /// Returns the upstream as it was written, empty until one is named.
    pub fn upstream_written(&self) -> (r: UpstreamAddr)
        ensures
            r.0@ == self.written(),
    {
        match &self.upstream {
            Some(upstream) => upstream.written().clone(),
            None => UpstreamAddr(String::new()),
        }
    }

    /// Returns the init script a diagnosis looks at: the one remembered, the default one until one is.
    pub fn init_file(&self) -> (r: String)
        ensures
            r@ == match self.init_path {
                Some(path) => path@,
                None => self.default_init@,
            },
    {
        match &self.init_path {
            Some(path) => path.clone(),
            None => self.default_init.clone(),
        }
    }

    fn admits(&self, load: Option<LoadId>) -> (r: Admission)
        ensures
            r == self.admission(load),
    {
        match (&self.loading, load) {
            (None, None) => Admission::Live,
            (None, Some(_)) => Admission::Gone,
            (Some(run), Some(id)) => {
                if run.id == id {
                    Admission::Staged
                } else {
                    Admission::Busy
                }
            },
            (Some(_), None) => Admission::Busy,
        }
    }

    fn turn_away(&self, admission: Admission) -> (r: Step)
        requires
            admission == Admission::Busy || admission == Admission::Gone,
        ensures
            admission == Admission::Busy ==> refuses(r, ErrKind::LoadInProgress, busy_text()),
            admission == Admission::Gone ==> refuses(r, ErrKind::NotFound, gone_text()),
    {
        match admission {
            Admission::Gone => refused(
                ErrKind::NotFound,
                "the init run this command belongs to is over",
            ),
            _ => refused(
                ErrKind::LoadInProgress,
                "an init run is in progress, wait for it or hand its NHOP_LOAD_ID on",
            ),
        }
    }

    fn add_rule(
        &mut self,
        class: RuleClass,
        kind: RuleKind,
        value: RuleValue,
        load: Option<LoadId>,
    ) -> (r: Step)
        requires
            old(self).wf(),
        ensures
            final(self).wf(),
            old(self).adds_rule(class, kind, value, load, *final(self), r),
            kind == RuleKind::Cidr ==> old(self).adds_network(class, value, load, *final(self), r),
    {
        match self.admits(load) {
            Admission::Live => match self.rules.push(class, kind, value) {
                Ok(_) => Step::Answer(Response::Done),
                Err(failure) => refused(failure.err_kind(), failure.message()),
            },
            Admission::Staged => match &mut self.loading {
                Some(run) => match run.staging.push_rule(class, kind, value) {
                    Ok(_) => Step::Answer(Response::Done),
                    Err(failure) => refused(failure.err_kind(), failure.message()),
                },
                None => self.turn_away(Admission::Gone),
            },
            other => self.turn_away(other),
        }
    }

    fn clear_rules(&mut self, load: Option<LoadId>) -> (r: Step)
        requires
            old(self).wf(),
        ensures
            final(self).wf(),
            old(self).clears_rules(load, *final(self), r),
    {
        match self.admits(load) {
            Admission::Live => {
                self.rules = Ruleset::new();
                Step::Answer(Response::Done)
            },
            Admission::Staged => match &mut self.loading {
                Some(run) => {
                    run.staging.clear_rules();
                    Step::Answer(Response::Done)
                },
                None => self.turn_away(Admission::Gone),
            },
            other => self.turn_away(other),
        }
    }

    fn set_upstream(&mut self, addr: UpstreamAddr, load: Option<LoadId>) -> (r: Step)
        requires
            old(self).wf(),
        ensures
            final(self).wf(),
            old(self).sets_upstream(addr, load, *final(self), r),
    {
        let admission = self.admits(load);
        match admission {
            Admission::Busy | Admission::Gone => {
                return self.turn_away(admission);
            },
            Admission::Live | Admission::Staged => {},
        }
        match Upstream::parse(addr) {
            Ok(upstream) => match admission {
                Admission::Live => {
                    self.upstream = Some(upstream);
                    Step::Answer(Response::Done)
                },
                _ => match &mut self.loading {
                    Some(run) => {
                        run.staging.set_upstream(upstream.written().clone());
                        Step::Answer(Response::Done)
                    },
                    None => self.turn_away(Admission::Gone),
                },
            },
            Err(failure) => {
                let message = failure.message();
                match admission {
                    Admission::Live => {},
                    _ => match &mut self.loading {
                        Some(run) => {
                            run.staging.fail(FailedCommand::SetUpstream);
                        },
                        None => {},
                    },
                }
                refused(ErrKind::InvalidArgs, message.as_str())
            },
        }
    }

    fn set_listen(&mut self, listen: Listen, load: Option<LoadId>) -> (r: Step)
        requires
            old(self).wf(),
        ensures
            final(self).wf(),
            old(self).sets_listen(listen, load, *final(self), r),
    {
        match self.admits(load) {
            Admission::Live => Step::Move(listen),
            Admission::Staged => match &mut self.loading {
                Some(run) => {
                    run.staging.set_listen(listen);
                    Step::Answer(Response::Done)
                },
                None => self.turn_away(Admission::Gone),
            },
            other => self.turn_away(other),
        }
    }

    fn add_forward(&mut self, forward: ForwardView, load: Option<LoadId>) -> (r: Step)
        requires
            old(self).wf(),
        ensures
            final(self).wf(),
            old(self).adds_forward(forward, load, *final(self), r),
    {
        match self.admits(load) {
            Admission::Live => Step::Open(forward),
            Admission::Staged => match &mut self.loading {
                Some(run) => {
                    run.staging.add_forward(forward);
                    Step::Answer(Response::Done)
                },
                None => self.turn_away(Admission::Gone),
            },
            other => self.turn_away(other),
        }
    }

    fn run(&mut self, script: String) -> (r: Step)
        requires
            old(self).wf(),
            old(self).ids.last() < u64::MAX,
        ensures
            final(self).wf(),
            old(self).runs(script@, *final(self), r),
    {
        let load = self.ids.issue();
        self.loading = Some(Loading { id: load, staging: Staging::new() });
        self.init_path = Some(script.clone());
        Step::Run { script, load }
    }

    fn reload(&mut self, path: Option<String>, init_exists: bool) -> (r: Step)
        requires
            old(self).wf(),
            old(self).ids.last() < u64::MAX,
        ensures
            final(self).wf(),
            old(self).reloads(path, init_exists, *final(self), r),
    {
        if self.loading.is_some() {
            return self.turn_away(Admission::Busy);
        }
        match path {
            Some(path) => self.run(path),
            None => match copied(&self.init_path) {
                Some(path) => self.run(path),
                None => {
                    if init_exists {
                        let script = self.default_init.clone();
                        self.run(script)
                    } else {
                        Step::Answer(Response::Done)
                    }
                },
            },
        }
    }

    fn turn_on(&mut self) -> (r: Step)
        requires
            old(self).wf(),
            old(self).ids.last() < u64::MAX,
        ensures
            final(self).wf(),
            old(self).turns_on(*final(self), r),
    {
        if self.loading.is_some() {
            return self.turn_away(Admission::Busy);
        }
        match copied(&self.init_path) {
            Some(path) => self.run(path),
            None => refused(ErrKind::NotFound, "no init script has been run yet"),
        }
    }

    fn turn_off(&mut self) -> (r: Step)
        requires
            old(self).wf(),
        ensures
            final(self).wf(),
            old(self).turns_off(*final(self), r),
    {
        if self.loading.is_some() {
            return self.turn_away(Admission::Busy);
        }
        self.rules = Ruleset::new();
        Step::Answer(Response::Done)
    }

    /// Returns what the state reports of itself.
    pub fn status(&self, facts: &Facts) -> (r: DaemonStatus)
        ensures
            self.summary(r, *facts),
    {
        let last_load = match &self.last_load {
            Some(load) => Some(load.clone()),
            None => None,
        };
        DaemonStatus {
            uptime_secs: facts.uptime_secs,
            listen: self.listen,
            bound: self.bound,
            forwards: copied_forwards(&self.forwards),
            upstream: self.upstream_written(),
            health: facts.health,
            init_path: copied(&self.init_path),
            last_load,
            rules: RuleCountsView {
                require: reported(self.rules.count(RuleClass::Require)),
                prefer: reported(self.rules.count(RuleClass::Prefer)),
                never: reported(self.rules.count(RuleClass::Never)),
            },
        }
    }

    /// Carries out one command.
    pub fn handle(&mut self, command: Command, facts: Facts) -> (r: Step)
        requires
            old(self).wf(),
            old(self).ids.last() < u64::MAX,
        ensures
            final(self).wf(),
            old(self).handled(command, facts, *final(self), r),
            command matches Command::AddRule { class, kind: RuleKind::Cidr, value, load }
                ==> old(self).adds_network(class, value, load, *final(self), r),
    {
        match command {
            Command::AddRule { class, kind, value, load } => self.add_rule(class, kind, value, load),
            Command::ClearRules { load } => self.clear_rules(load),
            Command::SetUpstream { addr, load } => self.set_upstream(addr, load),
            Command::SetListen { http, socks, load } => self.set_listen(
                Listen { http, socks },
                load,
            ),
            Command::AddForward { listen, host, port, load } => self.add_forward(
                ForwardView { listen, host, port },
                load,
            ),
            Command::Reload { path } => self.reload(path, facts.init_exists),
            Command::On => self.turn_on(),
            Command::Off => self.turn_off(),
            Command::Status => {
                let status = self.status(&facts);
                let view = status_view(&status, facts.system_proxy);
                assert(self.summary(status, facts));
                Step::Answer(Response::Status(view))
            },
            Command::Rules => Step::Answer(Response::Rules(rule_views(&self.rules))),
            Command::Test { host, port } => {
                let upstream = self.upstream_written();
                Step::Answer(
                    Response::Decision(decision_view(&self.rules, &upstream, &host, port)),
                )
            },
            Command::Doctor => Step::Diagnose,
            Command::Subscribe => refused(
                ErrKind::Internal,
                "decisions are streamed by the connection that asks for them",
            ),
        }
    }

    /// Records where the front ends were moved to, or why they stayed.
    pub fn moved(&mut self, moved: Result<Listen, String>) -> (r: Response)
        requires
            old(self).wf(),
        ensures
            final(self).wf(),
            match moved {
                Ok(listen) => {
                    &&& r == Response::Done
                    &&& *final(self) == (DaemonState { listen, ..*old(self) })
                },
                Err(failure) => {
                    &&& r matches Response::Failed { kind, message } && kind == ErrKind::Internal
                        && message@ == "cannot move the front ends: "@ + failure@
                    &&& *final(self) == *old(self)
                },
            },
    {
        match moved {
            Ok(listen) => {
                self.listen = listen;
                Response::Done
            },
            Err(failure) => {
                let mut message = "cannot move the front ends: ".to_owned();
                message.append(failure.as_str());
                Response::Failed { kind: ErrKind::Internal, message }
            },
        }
    }

    /// Records the forward front end that was opened, or why it was not.
    pub fn opened(&mut self, opened: Result<ForwardView, String>) -> (r: Response)
        requires
            old(self).wf(),
        ensures
            final(self).wf(),
            match opened {
                Ok(forward) => {
                    &&& r == Response::Done
                    &&& final(self).forwards@ == old(self).forwards@.push(forward)
                    &&& *final(self) == (DaemonState {
                        forwards: final(self).forwards,
                        ..*old(self)
                    })
                },
                Err(failure) => {
                    &&& r matches Response::Failed { kind, message } && kind == ErrKind::Internal
                        && message@ == "cannot open the forward: "@ + failure@
                    &&& *final(self) == *old(self)
                },
            },
    {
        match opened {
            Ok(forward) => {
                self.forwards.push(forward);
                Response::Done
            },
            Err(failure) => {
                let mut message = "cannot open the forward: ".to_owned();
                message.append(failure.as_str());
                Response::Failed { kind: ErrKind::Internal, message }
            },
        }
    }

    /// Whether the state has discarded its run: nothing that serves traffic changed, and the record
    /// tells how the run ended and on which command.
    pub open spec fn discarded(
        &self,
        next: DaemonState,
        outcome: LoadOutcome,
        command: Option<FailedCommand>,
        now: SystemTime,
    ) -> bool {
        &&& next.loading is None
        &&& next.last_load matches Some(load) && {
            &&& load.at == Timestamp(now)
            &&& load.outcome == outcome
            &&& match command {
                Some(command) => load.command matches Some(name) && name@ == command.text(),
                None => load.command is None,
            }
        }
        &&& next == (DaemonState { loading: None, last_load: next.last_load, ..*self })
    }

    fn discard(&mut self, outcome: LoadOutcome, command: Option<FailedCommand>, now: SystemTime)
        requires
            old(self).wf(),
        ensures
            final(self).wf(),
            old(self).discarded(*final(self), outcome, command, now),
    {
        self.loading = None;
        let command = match command {
            Some(command) => Some(command.name().to_owned()),
            None => None,
        };
        self.last_load = Some(LastLoadView { at: Timestamp(now), outcome, command });
    }

    /// Decides what to do about a script that ended: its run is committed only where it exited zero
    /// and none of its commands failed.
    pub fn finished(&mut self, load: LoadId, outcome: ScriptOutcome, now: SystemTime) -> (r: Finish)
        requires
            old(self).wf(),
        ensures
            final(self).wf(),
            match old(self).loading {
                Some(run) if run.id == load => match (outcome, run.staging@.failed) {
                    (ScriptOutcome::Succeeded, None) => {
                        &&& *final(self) == *old(self)
                        &&& r matches Finish::Commit { listen, forwards } && listen
                            == run.staging@.listen && forwards@ == run.staging@.forwards
                    },
                    (ScriptOutcome::TimedOut, _) => {
                        &&& r == Finish::Discarded
                        &&& old(self).discarded(*final(self), LoadOutcome::TimedOut, None, now)
                    },
                    (_, failed) => {
                        &&& r == Finish::Discarded
                        &&& old(self).discarded(*final(self), LoadOutcome::Failed, failed, now)
                    },
                },
                _ => r == Finish::Ignored && *final(self) == *old(self),
            },
    {
        let (failed, listen, forwards) = match &self.loading {
            Some(run) => {
                if run.id != load {
                    return Finish::Ignored;
                }
                (run.staging.failure(), run.staging.moves(), copied_forwards(run.staging.opens()))
            },
            None => {
                return Finish::Ignored;
            },
        };
        match (outcome, failed) {
            (ScriptOutcome::Succeeded, None) => Finish::Commit { listen, forwards },
            (ScriptOutcome::TimedOut, _) => {
                self.discard(LoadOutcome::TimedOut, None, now);
                Finish::Discarded
            },
            (_, failed) => {
                self.discard(LoadOutcome::Failed, failed, now);
                Finish::Discarded
            },
        }
    }

    /// Commits the run in flight once its front ends are where it wants them, or discards it where
    /// one of them could not be bound.
    ///
    /// `listen` and `forwards` are what is held from now on.
    pub fn committed(
        &mut self,
        held: Result<(Listen, Vec<ForwardView>), FailedCommand>,
        now: SystemTime,
    )
        requires
            old(self).wf(),
            old(self).loading is Some,
        ensures
            final(self).wf(),
            match held {
                Ok((listen, forwards)) => {
                    &&& final(self).rules@ == old(self).built().rules
                    &&& match old(self).built().upstream {
                        Some(addr) => final(self).upstream matches Some(upstream)
                            && upstream.text() == addr && Some(upstream.addr()) == socket_read(
                            bare(addr.0@),
                        ),
                        None => final(self).upstream == old(self).upstream,
                    }
                    &&& final(self).last_load == Some(
                        LastLoadView {
                            at: Timestamp(now),
                            outcome: LoadOutcome::Succeeded,
                            command: None,
                        },
                    )
                    &&& *final(self) == (DaemonState {
                        rules: final(self).rules,
                        upstream: final(self).upstream,
                        listen,
                        forwards,
                        last_load: final(self).last_load,
                        loading: None,
                        ..*old(self)
                    })
                },
                Err(command) => old(self).discarded(
                    *final(self),
                    LoadOutcome::Failed,
                    Some(command),
                    now,
                ),
            },
    {
        let (listen, forwards) = match held {
            Ok(held) => held,
            Err(command) => {
                self.discard(LoadOutcome::Failed, Some(command), now);
                return;
            },
        };
        match self.loading.take() {
            Some(run) => {
                let built = run.staging.commit();
                self.rules = built.rules;
                match built.upstream {
                    Some(addr) => match Upstream::parse(addr) {
                        Ok(upstream) => {
                            self.upstream = Some(upstream);
                        },
                        Err(_) => {},
                    },
                    None => {},
                }
            },
            None => {},
        }
        self.listen = listen;
        self.forwards = forwards;
        self.last_load = Some(
            LastLoadView { at: Timestamp(now), outcome: LoadOutcome::Succeeded, command: None },
        );
    }
}

/// What serves traffic in a state: rules, upstream and listeners.
pub open spec fn same_traffic(a: DaemonState, b: DaemonState) -> bool {
    &&& a.rules == b.rules
    &&& a.upstream == b.upstream
    &&& a.listen == b.listen
    &&& a.bound == b.bound
    &&& a.forwards == b.forwards
}

/// The init run a command names, where it is one that may change what serves traffic.
pub open spec fn load_of(command: Command) -> Option<Option<LoadId>> {
    match command {
        Command::AddRule { load, .. } => Some(load),
        Command::ClearRules { load } => Some(load),
        Command::SetUpstream { load, .. } => Some(load),
        Command::SetListen { load, .. } => Some(load),
        Command::AddForward { load, .. } => Some(load),
        Command::On => Some(None),
        Command::Off => Some(None),
        Command::Reload { .. } => Some(None),
        _ => None,
    }
}

/// While a run is in flight no command touches what serves traffic, whoever sends it: those of the
/// run are staged, and mutating ones that do not belong to it are refused.
pub proof fn law_a_run_in_flight_shields_traffic(
    state: DaemonState,
    command: Command,
    facts: Facts,
    next: DaemonState,
    step: Step,
)
    requires
        state.loading is Some,
        state.handled(command, facts, next, step),
    ensures
        same_traffic(state, next),
        !(step is Move) && !(step is Open) && !(step is Run),
        next.loading matches Some(run) && run.id == state.loading->0.id,
        load_of(command) matches Some(load) && load != Some(state.loading->0.id) ==> next == state
            && refuses(step, ErrKind::LoadInProgress, busy_text()),
{
}

/// A command of a run that is over changes nothing.
pub proof fn law_a_run_that_is_over_is_not_heard(
    state: DaemonState,
    command: Command,
    facts: Facts,
    next: DaemonState,
    step: Step,
    id: LoadId,
)
    requires
        state.loading is None,
        load_of(command) == Some(Some(id)),
        state.handled(command, facts, next, step),
    ensures
        next == state,
        refuses(step, ErrKind::NotFound, gone_text()),
{
}

/// Whether the states follow one another under the commands, each answered with its step.
pub open spec fn follow(
    states: Seq<DaemonState>,
    commands: Seq<Command>,
    facts: Seq<Facts>,
    steps: Seq<Step>,
) -> bool {
    &&& states.len() == commands.len() + 1
    &&& facts.len() == commands.len()
    &&& steps.len() == commands.len()
    &&& forall|i: int|
        0 <= i < commands.len() ==> #[trigger] states[i].handled(
            commands[i],
            facts[i],
            states[i + 1],
            steps[i],
        )
}

proof fn lemma_follow_prefix(
    states: Seq<DaemonState>,
    commands: Seq<Command>,
    facts: Seq<Facts>,
    steps: Seq<Step>,
)
    requires
        follow(states, commands, facts, steps),
        commands.len() > 0,
    ensures
        follow(states.drop_last(), commands.drop_last(), facts.drop_last(), steps.drop_last()),
{
    assert forall|i: int| 0 <= i < commands.len() - 1 implies #[trigger] states.drop_last()[i].handled(
        commands.drop_last()[i],
        facts.drop_last()[i],
        states.drop_last()[i + 1],
        steps.drop_last()[i],
    ) by {
        assert(states[i].handled(commands[i], facts[i], states[i + 1], steps[i]));
    }
}

/// The rules the commands of a run declare, in order, on top of those it began with.
pub open spec fn declared(from: Seq<RuleModel>, commands: Seq<Command>, id: LoadId) -> Seq<RuleModel>
    decreases commands.len(),
{
    if commands.len() == 0 {
        from
    } else {
        let before = declared(from, commands.drop_last(), id);
        match commands.last() {
            Command::AddRule { class, kind, value, load } => match pattern_read(kind, value.0@) {
                Some(pattern) if load == Some(id) => before.push(RuleModel { class, pattern, value }),
                _ => before,
            },
            Command::ClearRules { load } => if load == Some(id) {
                Seq::empty()
            } else {
                before
            },
            _ => before,
        }
    }
}

/// Whether a command of a run is one the daemon rejects.
pub open spec fn rejected(command: Command, id: LoadId) -> bool {
    match command {
        Command::AddRule { kind, value, load, .. } => load == Some(id) && pattern_read(
            kind,
            value.0@,
        ) is None,
        Command::SetUpstream { addr, load } => load == Some(id) && socket_read(bare(addr.0@)) is None,
        _ => false,
    }
}

/// However many commands arrive while a run is in flight, what serves traffic stays what it was, and
/// what the run has built are the rules its own commands declared, in order: nothing anybody else
/// sends adds to them.
pub proof fn law_a_load_is_atomic(
    states: Seq<DaemonState>,
    commands: Seq<Command>,
    facts: Seq<Facts>,
    steps: Seq<Step>,
)
    requires
        follow(states, commands, facts, steps),
        states[0].loading is Some,
    ensures
        same_traffic(states[0], states.last()),
        states.last().loading matches Some(run) && run.id == states[0].loading->0.id,
        states.last().built().rules == declared(
            states[0].built().rules,
            commands,
            states[0].loading->0.id,
        ),
    decreases commands.len(),
{
    if commands.len() > 0 {
        let n = commands.len() - 1;
        lemma_follow_prefix(states, commands, facts, steps);
        law_a_load_is_atomic(
            states.drop_last(),
            commands.drop_last(),
            facts.drop_last(),
            steps.drop_last(),
        );
        assert(states[n].handled(commands[n], facts[n], states[n + 1], steps[n]));
    }
}

proof fn lemma_a_failure_stays(
    state: DaemonState,
    command: Command,
    facts: Facts,
    next: DaemonState,
    step: Step,
)
    requires
        state.loading is Some,
        state.handled(command, facts, next, step),
    ensures
        next.loading is Some,
        state.built().failed is Some ==> next.built().failed is Some,
        rejected(command, state.loading->0.id) ==> next.built().failed is Some,
{
}

/// A run one of whose commands was rejected cannot commit, whatever its later commands say.
pub proof fn law_a_rejected_command_dooms_its_run(
    states: Seq<DaemonState>,
    commands: Seq<Command>,
    facts: Seq<Facts>,
    steps: Seq<Step>,
    k: int,
)
    requires
        follow(states, commands, facts, steps),
        states[0].loading is Some,
        0 <= k < commands.len(),
        rejected(commands[k], states[0].loading->0.id),
    ensures
        states.last().loading is Some,
        states.last().built().failed is Some,
    decreases commands.len(),
{
    let n = commands.len() - 1;
    lemma_follow_prefix(states, commands, facts, steps);
    law_a_load_is_atomic(
        states.drop_last(),
        commands.drop_last(),
        facts.drop_last(),
        steps.drop_last(),
    );
    if k < n {
        law_a_rejected_command_dooms_its_run(
            states.drop_last(),
            commands.drop_last(),
            facts.drop_last(),
            steps.drop_last(),
            k,
        );
    }
    assert(states[n].handled(commands[n], facts[n], states[n + 1], steps[n]));
    lemma_a_failure_stays(states[n], commands[n], facts[n], states[n + 1], steps[n]);
}

/// A discarded run leaves what serves traffic exactly as it was.
pub proof fn law_a_discarded_run_changes_no_traffic(
    state: DaemonState,
    next: DaemonState,
    outcome: LoadOutcome,
    command: Option<FailedCommand>,
    now: SystemTime,
)
    requires
        state.discarded(next, outcome, command, now),
    ensures
        same_traffic(state, next),
        next.loading is None,
{
}

/// Turning the router off clears the rules and leaves every listener and the upstream alone, so
/// that every destination is dialled directly.
pub proof fn law_off_keeps_listening(
    state: DaemonState,
    facts: Facts,
    next: DaemonState,
    step: Step,
    host: Seq<char>,
    port: u16,
)
    requires
        state.loading is None,
        state.handled(Command::Off, facts, next, step),
    ensures
        next.listen == state.listen,
        next.bound == state.bound,
        next.forwards == state.forwards,
        next.upstream == state.upstream,
        decision(next.rules@, host, port) == crate::rules::Decision::Direct,
{
}

/// No command, and no end of a run, makes an identifier come round again: each run's is larger than
/// every one before it.
pub proof fn law_load_ids_grow(
    state: DaemonState,
    command: Command,
    facts: Facts,
    next: DaemonState,
    step: Step,
)
    requires
        state.handled(command, facts, next, step),
    ensures
        next.ids.last() >= state.ids.last(),
        step matches Step::Run { load, .. } ==> load.0 > state.ids.last() && next.ids.last()
            == load.0,
{
}

/// While a script is remembered and no run is in flight, reloading without naming one runs that
/// script, and so does turning the router on; it stays the one remembered.
pub proof fn law_reloading_runs_the_remembered_script(
    state: DaemonState,
    script: String,
    command: Command,
    facts: Facts,
    next: DaemonState,
    step: Step,
)
    requires
        state.loading is None,
        state.init_path == Some(script),
        command == (Command::Reload { path: None }) || command == Command::On,
        state.handled(command, facts, next, step),
    ensures
        step matches Step::Run { script: run, .. } && run@ == script@,
        next.init_path matches Some(path) && path@ == script@,
{
}

/// A script that was named once is run again by every reload that names none, once its run is over:
/// neither the default script nor an earlier one takes its place.
pub proof fn law_a_named_script_is_remembered(
    state: DaemonState,
    script: String,
    facts: Facts,
    next: DaemonState,
    step: Step,
    over: DaemonState,
    later: Facts,
    last: DaemonState,
    again: Step,
)
    requires
        state.loading is None,
        state.handled(Command::Reload { path: Some(script) }, facts, next, step),
        over.loading is None,
        over.init_path == next.init_path,
        over.handled(Command::Reload { path: None }, later, last, again),
    ensures
        step matches Step::Run { script: run, .. } && run@ == script@,
        again matches Step::Run { script: run, .. } && run@ == script@,
        last.init_path matches Some(path) && path@ == script@,
{
}

/// Until a script is remembered a reload runs the default one where there is one and does nothing
/// otherwise, and turning the router on finds nothing to run.
pub proof fn law_nothing_remembered_means_the_default_script(
    state: DaemonState,
    facts: Facts,
    next: DaemonState,
    step: Step,
)
    requires
        state.loading is None,
        state.init_path is None,
    ensures
        state.handled(Command::Reload { path: None }, facts, next, step) && facts.init_exists ==> (
        step matches Step::Run { script, .. } && script@ == state.default_init@) && (
        next.init_path matches Some(path) && path@ == state.default_init@),
        state.handled(Command::Reload { path: None }, facts, next, step) && !facts.init_exists
            ==> step == Step::Answer(Response::Done) && next == state,
        state.handled(Command::On, facts, next, step) ==> (step matches Step::Answer(
            Response::Failed { kind, .. },
        ) && kind == ErrKind::NotFound) && next == state,
{
}

/// A run starts from nothing, under an identifier of its own, and nothing that serves traffic moves
/// with it.
pub proof fn law_a_run_starts_from_nothing(
    state: DaemonState,
    command: Command,
    facts: Facts,
    next: DaemonState,
    step: Step,
)
    requires
        state.handled(command, facts, next, step),
        step is Run,
    ensures
        same_traffic(state, next),
        state.loading is None,
        next.loading matches Some(run) && {
            &&& run.id == step->load
            &&& run.staging@.rules.len() == 0
            &&& run.staging@.upstream is None
            &&& run.staging@.listen is None
            &&& run.staging@.forwards.len() == 0
            &&& run.staging@.failed is None
        },
{
}

/// A rule added while no run is in flight decides at once what no rule decided before, and takes
/// nothing away from the rules before it; one whose value cannot be read changes nothing.
pub proof fn law_an_added_rule_decides_at_once(
    state: DaemonState,
    class: RuleClass,
    kind: RuleKind,
    value: RuleValue,
    facts: Facts,
    next: DaemonState,
    step: Step,
    host: Seq<char>,
    port: u16,
)
    requires
        state.loading is None,
        state.rules@.len() < usize::MAX,
        state.handled(Command::AddRule { class, kind, value, load: None }, facts, next, step),
    ensures
        pattern_read(kind, value.0@) matches Some(pattern) ==> {
            let name = crate::rules::matcher::normalized(host);
            &&& step == Step::Answer(Response::Done)
            &&& decision(state.rules@, host, port) == crate::rules::Decision::Direct
                && pattern.accepts(name, crate::net::ip_read(name), port) ==> decision(
                next.rules@,
                host,
                port,
            ) == if class == RuleClass::Never {
                crate::rules::Decision::Never {
                    rule: crate::rules::RuleId(state.rules@.len() as usize),
                }
            } else {
                crate::rules::Decision::Upstream {
                    class,
                    rule: crate::rules::RuleId(state.rules@.len() as usize),
                }
            }
            &&& !pattern.accepts(name, crate::net::ip_read(name), port) ==> decision(
                next.rules@,
                host,
                port,
            ) == decision(state.rules@, host, port)
        },
        pattern_read(kind, value.0@) is None ==> next == state && (step matches Step::Answer(
            Response::Failed { kind: k, .. },
        ) && k == ErrKind::InvalidArgs),
        next.listen == state.listen,
        next.upstream == state.upstream,
        next.forwards == state.forwards,
        next.loading is None,
{
    if let Some(pattern) = pattern_read(kind, value.0@) {
        let rule = RuleModel { class, pattern, value };
        crate::rules::ruleset::lemma_one_more_rule(state.rules@, rule, host, port);
    }
}

/// Clearing while no run is in flight leaves no rule and everything else as it was.
pub proof fn law_clearing_leaves_no_rule(
    state: DaemonState,
    facts: Facts,
    next: DaemonState,
    step: Step,
)
    requires
        state.loading is None,
        state.handled(Command::ClearRules { load: None }, facts, next, step),
    ensures
        step == Step::Answer(Response::Done),
        next.rules@.len() == 0,
        next.upstream == state.upstream,
        next.listen == state.listen,
        next.forwards == state.forwards,
        next.init_path == state.init_path,
        next.last_load == state.last_load,
        next.loading is None,
{
}

/// Naming an upstream while no run is in flight sends traffic to exactly the address written, with or
/// without the scheme before it; one that cannot be dialled changes nothing.
pub proof fn law_a_named_upstream_is_dialled(
    state: DaemonState,
    written: UpstreamAddr,
    addr: SocketAddr,
    facts: Facts,
    next: DaemonState,
    step: Step,
)
    requires
        state.loading is None,
        state.handled(Command::SetUpstream { addr: written, load: None }, facts, next, step),
        addr.ip is V4 ==> addr.scope == 0,
    ensures
        written.0@ == "socks5://"@ + crate::net::socket_text(addr) || written.0@
            == crate::net::socket_text(addr) ==> step == Step::Answer(Response::Done)
            && next.dialled() == addr && next.written() == written.0@,
        socket_read(bare(written.0@)) is None ==> next == state && (step matches Step::Answer(
            Response::Failed { kind, .. },
        ) && kind == ErrKind::InvalidArgs),
        next.rules == state.rules,
        next.listen == state.listen,
        next.forwards == state.forwards,
{
    crate::proxy::events::law_an_upstream_is_read_with_or_without_its_scheme(addr);
}

/// What a state without a named upstream sends traffic to cannot be dialled, and a named one is
/// dialled where it says.
pub proof fn law_the_upstream_that_is_published(state: DaemonState)
    ensures
        state.upstream is None ==> state.dialled().port == 0 && state.written().len() == 0,
        state.upstream matches Some(upstream) ==> state.dialled() == upstream.addr()
            && state.written() == upstream.text().0@,
{
}

/// Moving the front ends and opening a forward while no run is in flight is left to those who hold
/// the sockets, with exactly what was asked for, and the state waits for how it went.
pub proof fn law_listeners_are_moved_before_they_are_recorded(
    state: DaemonState,
    listen: Listen,
    forward: ForwardView,
    facts: Facts,
    next: DaemonState,
    step: Step,
)
    requires
        state.loading is None,
    ensures
        state.handled(
            Command::SetListen { http: listen.http, socks: listen.socks, load: None },
            facts,
            next,
            step,
        ) ==> step == Step::Move(listen) && next == state,
        state.handled(
            Command::AddForward {
                listen: forward.listen,
                host: forward.host,
                port: forward.port,
                load: None,
            },
            facts,
            next,
            step,
        ) ==> step == Step::Open(forward) && next == state,
{
}

/// What a run stages: its rules behind those it staged before, the last upstream and the last
/// addresses it named, every forward it asked for. None of it changes anything else of the run.
pub proof fn law_what_a_run_stages(
    state: DaemonState,
    command: Command,
    facts: Facts,
    next: DaemonState,
    step: Step,
)
    requires
        state.loading is Some,
        load_of(command) == Some(Some(state.loading->0.id)),
        state.handled(command, facts, next, step),
    ensures
        command matches Command::SetListen { http, socks, .. } ==> next.built() == (StagingModel {
            listen: Some(Listen { http, socks }),
            ..state.built()
        }),
        command matches Command::AddForward { listen, host, port, .. } ==> next.built() == (
        StagingModel {
            forwards: state.built().forwards.push(ForwardView { listen, host, port }),
            ..state.built()
        }),
        command matches Command::SetUpstream { addr, .. } ==> match socket_read(bare(addr.0@)) {
            Some(_) => next.built() == (StagingModel { upstream: Some(addr), ..state.built() }),
            None => next.built().upstream == state.built().upstream && next.built().failed is Some,
        },
        command is ClearRules ==> next.built() == (StagingModel {
            rules: Seq::empty(),
            ..state.built()
        }),
        command matches Command::AddRule { class, kind, value, .. } ==> match pattern_read(
            kind,
            value.0@,
        ) {
            Some(pattern) => next.built() == (StagingModel {
                rules: state.built().rules.push(RuleModel { class, pattern, value }),
                ..state.built()
            }),
            None => next.built().rules == state.built().rules && next.built().failed is Some,
        },
        state.built().failed is Some ==> next.built().failed == state.built().failed,
        state.built().failed is None ==> next.built().failed == match command {
            Command::AddRule { kind, value, .. } => if pattern_read(kind, value.0@) is None {
                Some(FailedCommand::AddRule)
            } else {
                None
            },
            Command::SetUpstream { addr, .. } => if socket_read(bare(addr.0@)) is None {
                Some(FailedCommand::SetUpstream)
            } else {
                None
            },
            _ => None,
        },
        next == (DaemonState { loading: next.loading, ..state }),
{
}

/// The status tells where the front ends are configured to listen, whether they do, what the rules of
/// each class number, which upstream was named and how it is judged, and how the last run ended.
pub proof fn law_what_the_status_tells(
    state: DaemonState,
    facts: Facts,
    next: DaemonState,
    step: Step,
)
    requires
        state.handled(Command::Status, facts, next, step),
    ensures
        next == state,
        step matches Step::Answer(Response::Status(view)) && {
            &&& view.uptime_secs == facts.uptime_secs
            &&& view.http_listen == state.listen.http
            &&& view.socks_listen == state.listen.socks
            &&& view.http_bound <==> state.bound == BindState::Bound
            &&& view.socks_bound <==> state.bound == BindState::Bound
            &&& view.forwards@ == state.forwards@
            &&& view.upstream.0@ == state.written()
            &&& view.health == facts.health.state
            &&& view.health_changed_at == Timestamp(facts.health.changed_at)
            &&& view.init_path == state.init_path
            &&& view.last_load == state.last_load
            &&& view.system_proxy == facts.system_proxy
            &&& state.rules@.len() <= u32::MAX ==> view.rules.require == counted(
                state.rules@,
                RuleClass::Require,
            ) && view.rules.prefer == counted(state.rules@, RuleClass::Prefer) && view.rules.never
                == counted(state.rules@, RuleClass::Never)
        },
{
    crate::rules::ruleset::law_counts_cover_every_rule(state.rules@);
}

/// The rules are listed in the order they were declared, each under its position, with what was
/// written.
pub proof fn law_the_rules_are_listed_in_order(
    state: DaemonState,
    facts: Facts,
    next: DaemonState,
    step: Step,
    i: int,
)
    requires
        state.handled(Command::Rules, facts, next, step),
        0 <= i < state.rules@.len() <= u32::MAX,
    ensures
        next == state,
        step matches Step::Answer(Response::Rules(views)) && {
            &&& views@.len() == state.rules@.len()
            &&& views@[i].index == i
            &&& views@[i].class == state.rules@[i].class
            &&& views@[i].kind == state.rules@[i].pattern.kind()
            &&& views@[i].value == state.rules@[i].value
        },
{
}

/// A record of a run tells when it ended, how, and the command it failed on by the name it has on the
/// wire.
pub proof fn law_a_discarded_run_is_recorded(
    state: DaemonState,
    next: DaemonState,
    outcome: LoadOutcome,
    command: Option<FailedCommand>,
    now: SystemTime,
)
    requires
        state.discarded(next, outcome, command, now),
    ensures
        next.last_load matches Some(load) && {
            &&& load.at.0 == now
            &&& load.outcome == outcome
            &&& command is None ==> load.command is None
            &&& command == Some(FailedCommand::AddRule) ==> (load.command matches Some(name)
                && name@ == "add_rule"@)
            &&& command == Some(FailedCommand::SetUpstream) ==> (load.command matches Some(name)
                && name@ == "set_upstream"@)
            &&& command == Some(FailedCommand::SetListen) ==> (load.command matches Some(name)
                && name@ == "set_listen"@)
            &&& command == Some(FailedCommand::AddForward) ==> (load.command matches Some(name)
                && name@ == "add_forward"@)
        },
        next.init_path == state.init_path,
        next.ids == state.ids,
{
}

/// A test is answered by the rules that serve traffic, and neither it nor a diagnosis changes
/// anything; decisions are streamed elsewhere.
pub proof fn law_questions_change_nothing(
    state: DaemonState,
    command: Command,
    facts: Facts,
    next: DaemonState,
    step: Step,
)
    requires
        state.handled(command, facts, next, step),
    ensures
        command is Test || command is Doctor || command is Status || command is Rules || command is Subscribe
            ==> next == state,
        command matches Command::Test { host, port } ==> (step matches Step::Answer(
            Response::Decision(view),
        ) && reports(
            view,
            decision(state.rules@, host.0@, port.0),
            state.written(),
            host.0@,
            port.0,
        )),
        command is Doctor ==> step == Step::Diagnose,
        command is Subscribe ==> (step matches Step::Answer(Response::Failed { kind, .. }) && kind
            == ErrKind::Internal),
{
}

/// A mutating command is refused as busy while a run it does not belong to is in flight, and as not
/// found where its run is over; otherwise it is heard.
pub proof fn law_whom_a_command_belongs_to(state: DaemonState, id: LoadId, other: LoadId)
    requires
        id != other,
    ensures
        state.loading is None ==> state.admission(None) == Admission::Live && state.admission(Some(id))
            == Admission::Gone,
        state.loading matches Some(run) ==> state.admission(None) == Admission::Busy && state.admission(
            Some(run.id),
        ) == Admission::Staged && (run.id == id ==> state.admission(Some(other)) == Admission::Busy),
{
}

/// What a command that is not heard is told, the variable that carries a run's identifier, and how
/// long a run may last.
pub proof fn law_what_a_refused_command_is_told()
    ensures
        busy_text() == "an init run is in progress, wait for it or hand its NHOP_LOAD_ID on"@,
        gone_text() == "the init run this command belongs to is over"@,
        crate::ipc::LOAD_ID_ENV@ == "NHOP_LOAD_ID"@,
        crate::daemon::staging::LOAD_TIMEOUT == 30 * 1000,
{
}

} // verus!
