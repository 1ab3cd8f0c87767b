//! Rules in declaration order and the decision they make.
use vstd::prelude::*;

use crate::ipc::{Host, Port, RuleClass, RuleKind, RuleValue};
use crate::net::{ip_read, IpAddr};
use crate::rules::decision::{Decision, RuleId};
use crate::rules::matcher::{
    fits, network_text, normalized, pattern_read, rejection, InvalidRule, Matcher, NormalizedHost,
    Pattern,
};

verus! {

/// One rule, as declared by the init script.
#[derive(Debug, PartialEq, Eq)]
pub struct Rule {
    id: RuleId,
    class: RuleClass,
    matcher: Matcher,
    value: RuleValue,
}

/// A rule as a value.
pub struct RuleModel {
    /// How a matching connection is routed.
    pub class: RuleClass,
    /// What the rule matches.
    pub pattern: Pattern,
    /// The value as the operator wrote it.
    pub value: RuleValue,
}

impl Rule {
    /// The rule as a value.
    pub closed spec fn model(&self) -> RuleModel {
        RuleModel { class: self.class, pattern: self.matcher.pattern(), value: self.value }
    }

    /// The position of the rule in declaration order.
    pub closed spec fn position(&self) -> nat {
        self.id.0 as nat
    }

    /// Returns the position of the rule in declaration order.
    pub fn id(&self) -> (r: RuleId)
        ensures
            r.0 == self.position(),
    {
        self.id
    }

    /// Returns how a matching connection is routed.
    pub fn class(&self) -> (r: RuleClass)
        ensures
            r == self.model().class,
    {
        self.class
    }

    /// Returns what the rule matches on.
    pub fn kind(&self) -> (r: RuleKind)
        ensures
            r == self.model().pattern.kind(),
    {
        self.matcher.kind()
    }

    /// Returns the value as the operator wrote it.
    pub fn value(&self) -> (r: &RuleValue)
        ensures
            *r == self.model().value,
    {
        &self.value
    }
}

impl Clone for Rule {
    fn clone(&self) -> (r: Self)
        ensures
            r == *self,
    {
        Rule {
            id: self.id,
            class: self.class,
            matcher: self.matcher.clone(),
            value: self.value.clone(),
        }
    }
}

/// Rules in declaration order, swapped in and out as one unit.
#[derive(Debug, PartialEq, Eq)]
pub struct Ruleset {
    rules: Vec<Rule>,
}

/// The rules' values, in order.
pub open spec fn models(rules: Seq<Rule>) -> Seq<RuleModel> {
    rules.map_values(|rule: Rule| rule.model())
}

/// Position of the first rule that matches a destination, `never` rules alone or all but those; the
/// number of rules when there is none.
pub open spec fn first_match(
    rules: Seq<RuleModel>,
    name: Seq<char>,
    ip: Option<IpAddr>,
    port: u16,
    never: bool,
) -> nat
    decreases rules.len(),
{
    if rules.len() == 0 {
        0
    } else {
        let before = first_match(rules.drop_last(), name, ip, port, never);
        if before < rules.len() - 1 || taken(rules.last(), name, ip, port, never) {
            before
        } else {
            rules.len()
        }
    }
}

/// Whether one rule matches, given which rules are looked at.
pub open spec fn taken(
    rule: RuleModel,
    name: Seq<char>,
    ip: Option<IpAddr>,
    port: u16,
    never: bool,
) -> bool {
    (rule.class == RuleClass::Never) == never && rule.pattern.accepts(name, ip, port)
}

/// Where a destination with a normalized name is routed: `never` rules first, then the rest in
/// order.
pub open spec fn route(rules: Seq<RuleModel>, name: Seq<char>, port: u16) -> Decision {
    let ip = ip_read(name);
    let never = first_match(rules, name, ip, port, true);
    let other = first_match(rules, name, ip, port, false);
    if never < rules.len() {
        Decision::Never { rule: RuleId(never as usize) }
    } else if other < rules.len() {
        Decision::Upstream { class: rules[other as int].class, rule: RuleId(other as usize) }
    } else {
        Decision::Direct
    }
}

/// Where a destination is routed.
pub open spec fn decision(rules: Seq<RuleModel>, host: Seq<char>, port: u16) -> Decision {
    route(rules, normalized(host), port)
}

/// How many rules carry a class.
pub open spec fn counted(rules: Seq<RuleModel>, class: RuleClass) -> nat
    decreases rules.len(),
{
    if rules.len() == 0 {
        0
    } else {
        counted(rules.drop_last(), class) + if rules.last().class == class {
            1nat
        } else {
            0nat
        }
    }
}

/// `first_match` is what its name says.
pub proof fn lemma_first_match(
    rules: Seq<RuleModel>,
    name: Seq<char>,
    ip: Option<IpAddr>,
    port: u16,
    never: bool,
)
    ensures
        first_match(rules, name, ip, port, never) <= rules.len(),
        forall|i: int|
            0 <= i < first_match(rules, name, ip, port, never) ==> !taken(
                #[trigger] rules[i],
                name,
                ip,
                port,
                never,
            ),
        first_match(rules, name, ip, port, never) < rules.len() ==> taken(
            rules[first_match(rules, name, ip, port, never) as int],
            name,
            ip,
            port,
            never,
        ),
    decreases rules.len(),
{
    if rules.len() > 0 {
        let shorter = rules.drop_last();
        lemma_first_match(shorter, name, ip, port, never);
        let before = first_match(shorter, name, ip, port, never);
        assert forall|i: int| 0 <= i < first_match(rules, name, ip, port, never) implies !taken(
            #[trigger] rules[i],
            name,
            ip,
            port,
            never,
        ) by {
            if i < shorter.len() {
                assert(shorter[i] == rules[i]);
            }
        }
        if before < shorter.len() {
            assert(shorter[before as int] == rules[before as int]);
        }
    }
}

proof fn lemma_first_match_is(
    rules: Seq<RuleModel>,
    name: Seq<char>,
    ip: Option<IpAddr>,
    port: u16,
    never: bool,
    k: int,
)
    requires
        0 <= k <= rules.len(),
        forall|i: int| 0 <= i < k ==> !taken(#[trigger] rules[i], name, ip, port, never),
        k < rules.len() ==> taken(rules[k], name, ip, port, never),
    ensures
        first_match(rules, name, ip, port, never) == k,
{
    lemma_first_match(rules, name, ip, port, never);
    let f = first_match(rules, name, ip, port, never) as int;
    if f < k {
        assert(!taken(rules[f], name, ip, port, never));
    }
    if k < f {
        assert(!taken(rules[k], name, ip, port, never));
    }
}

impl Ruleset {
    /// Every rule carries its own position.
    #[verifier::type_invariant]
    closed spec fn valid(self) -> bool {
        forall|i: int| 0 <= i < self.rules@.len() ==> (#[trigger] self.rules@[i]).position() == i
    }

    /// The rules' values, in order.
    pub closed spec fn view(&self) -> Seq<RuleModel> {
        models(self.rules@)
    }

    /// Returns a ruleset without rules.
    pub fn new() -> (r: Ruleset)
        ensures
            r@ == Seq::<RuleModel>::empty(),
    {
        let r = Ruleset { rules: Vec::new() };
        assert(r@ =~= Seq::<RuleModel>::empty());
        r
    }

    /// Appends a rule and returns its position in declaration order.
    ///
    /// # Errors
    ///
    /// Returns [`InvalidRule`] and leaves the ruleset untouched.
    pub fn push(&mut self, class: RuleClass, kind: RuleKind, value: RuleValue) -> (r: Result<
        RuleId,
        InvalidRule,
    >)
        ensures
            match pattern_read(kind, value.0@) {
                Some(pattern) => {
                    &&& r matches Ok(id) && id.0 == old(self)@.len()
                    &&& final(self)@ == old(self)@.push(RuleModel { class, pattern, value })
                },
                None => {
                    &&& r matches Err(e) && e.text() == rejection(kind, value.0@)
                    &&& *final(self) == *old(self)
                },
            },
            kind == RuleKind::Cidr && !value.0@.contains('/') ==> r is Err,
            forall|addr: IpAddr, prefix_len: u8|
                kind == RuleKind::Cidr && fits(addr, prefix_len) && value.0@
                    == #[trigger] network_text(addr, prefix_len) ==> r is Ok && final(self)@
                    == old(self)@.push(
                    RuleModel { class, pattern: Pattern::Cidr(addr, prefix_len), value },
                ),
    {
        let matcher = match Matcher::parse(kind, &value) {
            Ok(matcher) => matcher,
            Err(e) => {
                return Err(e);
            },
        };
        proof {
            use_type_invariant(&*self);
        }
        let id = RuleId(self.rules.len());
        let mut rules: Vec<Rule> = Vec::new();
        std::mem::swap(&mut self.rules, &mut rules);
        rules.push(Rule { id, class, matcher, value });
        self.rules = rules;
        assert(self@ =~= old(self)@.push(RuleModel { class, pattern: matcher.pattern(), value }));
        Ok(id)
    }

    /// Returns the rules in declaration order.
    pub fn rules(&self) -> (r: &[Rule])
        ensures
            models(r@) == self@,
            forall|i: int| 0 <= i < r@.len() ==> (#[trigger] r@[i]).position() == i,
    {
        proof {
            use_type_invariant(self);
        }
        self.rules.as_slice()
    }

    /// Returns how many rules carry a given class.
    pub fn count(&self, class: RuleClass) -> (r: usize)
        ensures
            r == counted(self@, class),
    {
        let mut count: usize = 0;
        let mut i: usize = 0;
        while i < self.rules.len()
            invariant
                count <= i <= self.rules.len(),
                count == counted(self@.take(i as int), class),
            decreases self.rules.len() - i,
        {
            assert(self@.take(i + 1).drop_last() =~= self@.take(i as int));
            if self.rules[i].class == class {
                count += 1;
            }
            i += 1;
        }
        assert(self@.take(i as int) =~= self@);
        count
    }

    /// Returns where a destination is routed.
    ///
    /// `never` rules are consulted first, then the rest in declaration order; first match wins.
    pub fn decide(&self, host: &Host, port: Port) -> (r: Decision)
        ensures
            r == decision(self@, host.0@, port.0),
    {
        proof {
            use_type_invariant(self);
        }
        let target = NormalizedHost::new(host);
        let never = self.first(&target, port, true);
        if never < self.rules.len() {
            return Decision::Never { rule: self.rules[never].id };
        }
        let other = self.first(&target, port, false);
        if other < self.rules.len() {
            let rule = &self.rules[other];
            return Decision::Upstream { class: rule.class, rule: rule.id };
        }
        Decision::Direct
    }

    fn first(&self, host: &NormalizedHost, port: Port, never: bool) -> (r: usize)
        ensures
            r == first_match(self@, host.name(), host.ip(), port.0, never),
    {
        let ghost name = host.name();
        let ghost ip = host.ip();
        let mut i: usize = 0;
        while i < self.rules.len()
            invariant
                name == host.name(),
                ip == host.ip(),
                i <= self.rules.len(),
                forall|j: int| 0 <= j < i ==> !taken(#[trigger] self@[j], name, ip, port.0, never),
            decreases self.rules.len() - i,
        {
            let rule = &self.rules[i];
            assert(self@[i as int] == rule.model());
            if (rule.class == RuleClass::Never) == never && rule.matcher.matches(host, port) {
                proof {
                    lemma_first_match_is(self@, name, ip, port.0, never, i as int);
                }
                return i;
            }
            i += 1;
        }
        proof {
            lemma_first_match_is(self@, name, ip, port.0, never, i as int);
        }
        i
    }
}

impl Clone for Ruleset {
    fn clone(&self) -> (r: Self)
        ensures
            r@ == self@,
    {
        proof {
            use_type_invariant(self);
        }
        let mut rules: Vec<Rule> = Vec::new();
        let mut i: usize = 0;
        while i < self.rules.len()
            invariant
                i <= self.rules.len(),
                rules@ == self.rules@.take(i as int),
            decreases self.rules.len() - i,
        {
            rules.push(self.rules[i].clone());
            assert(rules@ =~= self.rules@.take(i + 1));
            i += 1;
        }
        assert(self.rules@.take(i as int) =~= self.rules@);
        Ruleset { rules }
    }
}

impl Default for Ruleset {
    fn default() -> (r: Self)
        ensures
            r@ == Seq::<RuleModel>::empty(),
    {
        Ruleset::new()
    }
}

/// Every rule is counted under its class and no other.
pub proof fn law_counts_cover_every_rule(rules: Seq<RuleModel>)
    ensures
        counted(rules, RuleClass::Require) + counted(rules, RuleClass::Prefer) + counted(
            rules,
            RuleClass::Never,
        ) == rules.len(),
    decreases rules.len(),
{
    if rules.len() > 0 {
        law_counts_cover_every_rule(rules.drop_last());
    }
}

/// Without rules everything is dialled directly.
pub proof fn law_no_rules_route_direct(host: Seq<char>, port: u16)
    ensures
        decision(Seq::empty(), host, port) == Decision::Direct,
{
}

/// Whether a destination is matched by a rule at a position.
pub open spec fn hits(rules: Seq<RuleModel>, i: int, host: Seq<char>, port: u16) -> bool {
    0 <= i < rules.len() && rules[i].pattern.accepts(
        normalized(host),
        ip_read(normalized(host)),
        port,
    )
}

/// A destination that any `never` rule matches is never handed to the upstream, wherever the rule
/// stands; the earliest such rule is the one reported.
pub proof fn law_never_wins(rules: Seq<RuleModel>, i: int, host: Seq<char>, port: u16)
    requires
        rules.len() <= usize::MAX,
        hits(rules, i, host, port),
        rules[i].class == RuleClass::Never,
    ensures
        decision(rules, host, port) matches Decision::Never { rule } && rule.0 <= i && hits(
            rules,
            rule.0 as int,
            host,
            port,
        ) && rules[rule.0 as int].class == RuleClass::Never && forall|j: int|
            0 <= j < rule.0 && #[trigger] hits(rules, j, host, port) ==> rules[j].class
                != RuleClass::Never,
{
    let name = normalized(host);
    let ip = ip_read(name);
    lemma_first_match(rules, name, ip, port, true);
    let f = first_match(rules, name, ip, port, true) as int;
    if f > i {
        assert(!taken(rules[i], name, ip, port, true));
    }
    assert forall|j: int| 0 <= j < f && #[trigger] hits(rules, j, host, port) implies rules[j].class
        != RuleClass::Never by {
        assert(!taken(rules[j], name, ip, port, true));
    }
}

/// Where no `never` rule matches, the first rule that does decides.
pub proof fn law_first_match_wins(rules: Seq<RuleModel>, i: int, host: Seq<char>, port: u16)
    requires
        rules.len() <= usize::MAX,
        hits(rules, i, host, port),
        forall|j: int| 0 <= j < i ==> !#[trigger] hits(rules, j, host, port),
        forall|j: int| #[trigger] hits(rules, j, host, port) ==> rules[j].class != RuleClass::Never,
    ensures
        decision(rules, host, port) == (Decision::Upstream {
            class: rules[i].class,
            rule: RuleId(i as usize),
        }),
{
    let name = normalized(host);
    let ip = ip_read(name);
    assert forall|j: int| 0 <= j < rules.len() implies !taken(
        #[trigger] rules[j],
        name,
        ip,
        port,
        true,
    ) by {
        if rules[j].pattern.accepts(name, ip, port) {
            assert(hits(rules, j, host, port));
        }
    }
    lemma_first_match_is(rules, name, ip, port, true, rules.len() as int);
    assert forall|j: int| 0 <= j < i implies !taken(#[trigger] rules[j], name, ip, port, false) by {
        assert(!hits(rules, j, host, port));
    }
    lemma_first_match_is(rules, name, ip, port, false, i);
}

/// A destination is dialled directly for want of a rule exactly where no rule matches it.
pub proof fn law_direct_means_no_match(rules: Seq<RuleModel>, host: Seq<char>, port: u16)
    requires
        rules.len() <= usize::MAX,
    ensures
        decision(rules, host, port) == Decision::Direct <==> forall|i: int|
            !#[trigger] hits(rules, i, host, port),
{
    let name = normalized(host);
    let ip = ip_read(name);
    lemma_first_match(rules, name, ip, port, true);
    lemma_first_match(rules, name, ip, port, false);
    let never = first_match(rules, name, ip, port, true) as int;
    let other = first_match(rules, name, ip, port, false) as int;
    if never < rules.len() {
        assert(hits(rules, never, host, port));
    } else if other < rules.len() {
        assert(hits(rules, other, host, port));
    } else {
        assert forall|i: int| !#[trigger] hits(rules, i, host, port) by {
            if 0 <= i < rules.len() {
                assert(!taken(rules[i], name, ip, port, true));
                assert(!taken(rules[i], name, ip, port, false));
            }
        }
    }
}

/// A rule declared later that is no `never` rule takes nothing away from the rules before it.
pub proof fn law_later_rules_yield(
    rules: Seq<RuleModel>,
    rule: RuleModel,
    host: Seq<char>,
    port: u16,
)
    requires
        rules.len() < usize::MAX,
        rule.class != RuleClass::Never,
        decision(rules, host, port) != Decision::Direct,
    ensures
        decision(rules.push(rule), host, port) == decision(rules, host, port),
{
    assert(rules.push(rule).drop_last() =~= rules);
    let name = normalized(host);
    lemma_first_match(rules, name, ip_read(name), port, true);
    lemma_first_match(rules, name, ip_read(name), port, false);
}

/// Every rule counts once, under its class.
pub proof fn law_a_rule_is_counted_under_its_class(
    rules: Seq<RuleModel>,
    rule: RuleModel,
    class: RuleClass,
)
    ensures
        counted(Seq::empty(), class) == 0,
        counted(rules.push(rule), class) == counted(rules, class) + if rule.class == class {
            1int
        } else {
            0
        },
{
    assert(rules.push(rule).drop_last() =~= rules);
}

/// What one more rule changes: a destination no rule matched goes by it where it matches, and one it
/// does not match goes where it went.
pub proof fn lemma_one_more_rule(
    rules: Seq<RuleModel>,
    rule: RuleModel,
    host: Seq<char>,
    port: u16,
)
    requires
        rules.len() < usize::MAX,
    ensures
        ({
            let name = normalized(host);
            let more = decision(rules.push(rule), host, port);
            &&& decision(rules, host, port) == Decision::Direct && rule.pattern.accepts(
                name,
                ip_read(name),
                port,
            ) ==> more == if rule.class == RuleClass::Never {
                Decision::Never { rule: RuleId(rules.len() as usize) }
            } else {
                Decision::Upstream { class: rule.class, rule: RuleId(rules.len() as usize) }
            }
            &&& !rule.pattern.accepts(name, ip_read(name), port) ==> more == decision(
                rules,
                host,
                port,
            )
        }),
{
    assert(rules.push(rule).drop_last() =~= rules);
    let name = normalized(host);
    lemma_first_match(rules, name, ip_read(name), port, true);
    lemma_first_match(rules, name, ip_read(name), port, false);
}

/// A `never` rule added anywhere behind others takes over every destination it matches that no
/// earlier `never` rule matches, whatever was decided before.
pub proof fn law_a_later_never_rule_overrules(
    rules: Seq<RuleModel>,
    rule: RuleModel,
    host: Seq<char>,
    port: u16,
)
    requires
        rules.len() < usize::MAX,
        rule.class == RuleClass::Never,
        rule.pattern.accepts(normalized(host), ip_read(normalized(host)), port),
        !(decision(rules, host, port) is Never),
    ensures
        decision(rules.push(rule), host, port) == (Decision::Never {
            rule: RuleId(rules.len() as usize),
        }),
{
    assert(rules.push(rule).drop_last() =~= rules);
    let name = normalized(host);
    lemma_first_match(rules, name, ip_read(name), port, true);
}

/// The values of rules are theirs, in order.
pub proof fn law_the_values_of_rules_are_theirs(rules: Seq<Rule>, i: int)
    requires
        0 <= i < rules.len(),
    ensures
        models(rules).len() == rules.len(),
        models(rules)[i] == rules[i].model(),
{
}

} // verus!
