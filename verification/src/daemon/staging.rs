//! What an init run stages before it commits.
use vstd::prelude::*;

use crate::ipc::{ForwardView, LoadId, RuleClass, RuleKind, RuleValue, UpstreamAddr};
use crate::net::IpAddr;
use crate::proxy::Listen;
use crate::rules::matcher::{fits, network_text, pattern_read, rejection, Pattern};
use crate::rules::ruleset::RuleModel;
use crate::rules::{InvalidRule, Ruleset};

verus! {

/// Milliseconds an init script may run before it is killed.
pub const LOAD_TIMEOUT: u64 = 30_000;

/// Command an init run was rejected on, named as it appears on the wire.
#[derive(Debug, Clone, Copy, PartialEq, Eq, Structural)]
pub enum FailedCommand {
    /// The value could not be read as its kind.
    AddRule,
    /// The address could not be read.
    SetUpstream,
    /// An address could not be bound.
    SetListen,
    /// A forward front end could not be opened.
    AddForward,
}

impl FailedCommand {
    /// The wire `cmd` string of the command.
    pub open spec fn text(self) -> Seq<char> {
        match self {
            FailedCommand::AddRule => "add_rule"@,
            FailedCommand::SetUpstream => "set_upstream"@,
            FailedCommand::SetListen => "set_listen"@,
            FailedCommand::AddForward => "add_forward"@,
        }
    }

    /// Returns the wire `cmd` string of the command.
    pub fn name(self) -> (r: &'static str)
        ensures
            r@ == self.text(),
    {
        match self {
            Self::AddRule => "add_rule",
            Self::SetUpstream => "set_upstream",
            Self::SetListen => "set_listen",
            Self::AddForward => "add_forward",
        }
    }
}

/// State a successful init run replaces the live state with.
#[derive(Debug, PartialEq, Eq)]
pub struct Committed {
    /// Rules the run declared, in declaration order.
    pub rules: Ruleset,
    /// Upstream the run set, absent when it set none.
    pub upstream: Option<UpstreamAddr>,
    /// Front-end addresses the run set, absent when it set none.
    pub listen: Option<Listen>,
    /// Forward front ends the run asked for.
    pub forwards: Vec<ForwardView>,
}

/// What one init run has built so far.
///
/// A run starts from nothing, so the init file always declares the whole rule set, and nothing it
/// stages reaches traffic until [`Staging::commit`] is called on a run that exited zero.
#[derive(Debug, PartialEq, Eq)]
pub struct Staging {
    rules: Ruleset,
    upstream: Option<UpstreamAddr>,
    listen: Option<Listen>,
    forwards: Vec<ForwardView>,
    failed: Option<FailedCommand>,
}

/// What a run has built so far, as a value.
#[verifier::ext_equal]
pub struct StagingModel {
    /// Rules staged.
    pub rules: Seq<RuleModel>,
    /// Upstream staged.
    pub upstream: Option<UpstreamAddr>,
    /// Addresses staged.
    pub listen: Option<Listen>,
    /// Forward front ends staged.
    pub forwards: Seq<ForwardView>,
    /// First command the run failed on.
    pub failed: Option<FailedCommand>,
}

impl StagingModel {
    /// A run that has said nothing yet.
    pub open spec fn empty() -> StagingModel {
        StagingModel {
            rules: Seq::empty(),
            upstream: None,
            listen: None,
            forwards: Seq::empty(),
            failed: None,
        }
    }

    /// The run once a command of it has failed; the first failure is the one kept.
    pub open spec fn marked(self, command: FailedCommand) -> StagingModel {
        match self.failed {
            Some(_) => self,
            None => StagingModel { failed: Some(command), ..self },
        }
    }
}

impl Staging {
    /// What the run has built so far, as a value.
    pub closed spec fn view(&self) -> StagingModel {
        StagingModel {
            rules: self.rules@,
            upstream: self.upstream,
            listen: self.listen,
            forwards: self.forwards@,
            failed: self.failed,
        }
    }

    /// Starts a run from nothing.
    pub fn new() -> (r: Staging)
        ensures
            r@ == StagingModel::empty(),
    {
        let r = Staging {
            rules: Ruleset::new(),
            upstream: None,
            listen: None,
            forwards: Vec::new(),
            failed: None,
        };
        assert(r@ =~= StagingModel::empty());
        r
    }

    /// Appends a rule to the run.
    ///
    /// # Errors
    ///
    /// Returns [`InvalidRule`] when the value cannot be read as its kind, and marks the run as
    /// failed so that it is discarded even if the script goes on to exit zero.
    pub fn push_rule(&mut self, class: RuleClass, kind: RuleKind, value: RuleValue) -> (r: Result<
        (),
        InvalidRule,
    >)
        ensures
            match pattern_read(kind, value.0@) {
                Some(pattern) => {
                    &&& r is Ok
                    &&& final(self)@ == (StagingModel {
                        rules: old(self)@.rules.push(RuleModel { class, pattern, value }),
                        ..old(self)@
                    })
                },
                None => {
                    &&& r matches Err(e) && e.text() == rejection(kind, value.0@)
                    &&& final(self)@ == old(self)@.marked(FailedCommand::AddRule)
                },
            },
            kind == RuleKind::Cidr && !value.0@.contains('/') ==> r is Err,
            forall|addr: IpAddr, prefix_len: u8|
                kind == RuleKind::Cidr && fits(addr, prefix_len) && value.0@
                    == #[trigger] network_text(addr, prefix_len) ==> r is Ok && final(self)@.rules
                    == old(self)@.rules.push(
                    RuleModel { class, pattern: Pattern::Cidr(addr, prefix_len), value },
                ),
    {
        match self.rules.push(class, kind, value) {
            Ok(_) => Ok(()),
            Err(failure) => {
                self.fail(FailedCommand::AddRule);
                Err(failure)
            },
        }
    }

    /// Drops every rule staged so far.
    pub fn clear_rules(&mut self)
        ensures
            final(self)@ == (StagingModel { rules: Seq::empty(), ..old(self)@ }),
    {
        self.rules = Ruleset::new();
    }

    /// Points the run at an upstream.
    pub fn set_upstream(&mut self, addr: UpstreamAddr)
        ensures
            final(self)@ == (StagingModel { upstream: Some(addr), ..old(self)@ }),
    {
        self.upstream = Some(addr);
    }

    /// Moves the front ends the run commits.
    pub fn set_listen(&mut self, listen: Listen)
        ensures
            final(self)@ == (StagingModel { listen: Some(listen), ..old(self)@ }),
    {
        self.listen = Some(listen);
    }

    /// Adds a forward front end to those the run commits.
    pub fn add_forward(&mut self, forward: ForwardView)
        ensures
            final(self)@ == (StagingModel {
                forwards: old(self)@.forwards.push(forward),
                ..old(self)@
            }),
    {
        self.forwards.push(forward);
    }

    /// Returns the command the run was rejected on, absent while it is still viable.
    pub fn failure(&self) -> (r: Option<FailedCommand>)
        ensures
            r == self@.failed,
    {
        self.failed
    }

    /// Returns the addresses the run moves the front ends to, absent when it moves none.
    pub fn moves(&self) -> (r: Option<Listen>)
        ensures
            r == self@.listen,
    {
        self.listen
    }

    /// Returns the forward front ends the run asks for.
    pub fn opens(&self) -> (r: &Vec<ForwardView>)
        ensures
            r@ == self@.forwards,
    {
        &self.forwards
    }

    /// Returns the state the run replaces the live state with.
    pub fn commit(self) -> (r: Committed)
        ensures
            r.rules@ == self@.rules,
            r.upstream == self@.upstream,
            r.listen == self@.listen,
            r.forwards@ == self@.forwards,
    {
        Committed {
            rules: self.rules,
            upstream: self.upstream,
            listen: self.listen,
            forwards: self.forwards,
        }
    }

    /// Marks the run as failed, so that it is discarded even if the script exits zero.
    pub fn fail(&mut self, command: FailedCommand)
        ensures
            final(self)@ == old(self)@.marked(command),
    {
        match self.failed {
            Some(_) => {},
            None => {
                self.failed = Some(command);
            },
        }
    }
}

impl Default for Staging {
    fn default() -> (r: Self)
        ensures
            r@ == StagingModel::empty(),
    {
        Staging::new()
    }
}

impl Default for Committed {
    fn default() -> (r: Self)
        ensures
            r.rules@ == Seq::<RuleModel>::empty(),
            r.upstream is None,
            r.listen is None,
            r.forwards@ == Seq::<ForwardView>::empty(),
    {
        Committed { rules: Ruleset::new(), upstream: None, listen: None, forwards: Vec::new() }
    }
}

/// Source of the identifier each init run is tagged with.
#[derive(Debug, PartialEq, Eq)]
pub struct LoadIds(u64);

impl Default for LoadIds {
    fn default() -> (r: Self)
        ensures
            r.last() == 0,
    {
        LoadIds::new()
    }
}

impl LoadIds {
    /// The identifier issued last, zero before the first.
    pub closed spec fn last(&self) -> u64 {
        self.0
    }

    /// Returns a source that has issued nothing yet.
    pub fn new() -> (r: LoadIds)
        ensures
            r.last() == 0,
    {
        LoadIds(0)
    }

    /// Returns whether no identifier is left.
    pub fn spent(&self) -> (r: bool)
        ensures
            r == (self.last() == u64::MAX),
    {
        self.0 == u64::MAX
    }

    /// Returns an identifier no earlier run has carried: each is one more than the last.
    pub fn issue(&mut self) -> (r: LoadId)
        requires
            old(self).last() < u64::MAX,
        ensures
            r.0 == old(self).last() + 1,
            final(self).last() == r.0,
    {
        self.0 = self.0 + 1;
        LoadId(self.0)
    }
}

} // verus!
