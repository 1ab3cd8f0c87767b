//! The ruleset and its decisions, as they are shown.
use vstd::prelude::*;

use crate::ipc::{DecisionKind, DecisionView, Host, Port, RuleClass, RuleView, UpstreamAddr};
use crate::proxy::events::{indexed, reported_index};
use crate::rules::ruleset::{decision, RuleModel};
use crate::rules::{Decision, RuleId, Ruleset};
use crate::text;
use crate::text::decimal;

verus! {

/// Next hop reported for an upstream decision no init script has named an upstream for.
const NO_UPSTREAM: &'static str = "none";

/// A rule as it is shown.
pub open spec fn shown(rule: RuleModel, index: int) -> RuleView {
    RuleView {
        index: reported_index(RuleId(index as usize)),
        class: rule.class,
        kind: rule.pattern.kind(),
        value: rule.value,
    }
}

/// Lists a ruleset in declaration order.
pub fn rule_views(rules: &Ruleset) -> (r: Vec<RuleView>)
    ensures
        r@ == rules@.map(|i: int, rule: RuleModel| shown(rule, i)),
{
    let mut views: Vec<RuleView> = Vec::new();
    let all = rules.rules();
    let mut i: usize = 0;
    while i < all.len()
        invariant
            i <= all@.len(),
            crate::rules::ruleset::models(all@) == rules@,
            forall|j: int| 0 <= j < all@.len() ==> (#[trigger] all@[j]).position() == j,
            views@.len() == i,
            forall|j: int| 0 <= j < i ==> #[trigger] views@[j] == shown(rules@[j], j),
        decreases all@.len() - i,
    {
        let rule = &all[i];
        assert(rules@[i as int] == rule.model());
        views.push(
            RuleView {
                index: indexed(rule.id()),
                class: rule.class(),
                kind: rule.kind(),
                value: rule.value().clone(),
            },
        );
        i += 1;
    }
    assert(views@ =~= rules@.map(|i: int, rule: RuleModel| shown(rule, i)));
    views
}

/// A destination as it would be dialled, brackets round a host with colons.
pub open spec fn destination_text(host: Seq<char>, port: u16) -> Seq<char> {
    if host.contains(':') {
        "["@ + host + "]:"@ + decimal(port as nat)
    } else {
        host + ":"@ + decimal(port as nat)
    }
}

/// The upstream as it is shown, `none` until one is named.
pub open spec fn upstream_text(upstream: Seq<char>) -> Seq<char> {
    if upstream.len() == 0 {
        "none"@
    } else {
        upstream
    }
}

/// Whether a view reports a decision about a destination.
pub open spec fn reports(
    view: DecisionView,
    decision: Decision,
    upstream: Seq<char>,
    host: Seq<char>,
    port: u16,
) -> bool {
    match decision {
        Decision::Direct => {
            &&& view.decision == DecisionKind::Direct
            &&& view.rule_index is None
            &&& view.class is None
            &&& view.next_hop@ == destination_text(host, port)
        },
        Decision::Never { rule } => {
            &&& view.decision == DecisionKind::Never
            &&& view.rule_index == Some(reported_index(rule))
            &&& view.class == Some(RuleClass::Never)
            &&& view.next_hop@ == destination_text(host, port)
        },
        Decision::Upstream { class, rule } => {
            &&& view.decision == if class == RuleClass::Never {
                DecisionKind::Never
            } else {
                DecisionKind::Upstream
            }
            &&& view.rule_index == Some(reported_index(rule))
            &&& view.class == Some(class)
            &&& view.next_hop@ == if class == RuleClass::Never {
                destination_text(host, port)
            } else {
                upstream_text(upstream)
            }
        },
    }
}

/// Reports where a destination would be routed, without opening any connection.
pub fn decision_view(rules: &Ruleset, upstream: &UpstreamAddr, host: &Host, port: Port) -> (r:
    DecisionView)
    ensures
        reports(r, decision(rules@, host.0@, port.0), upstream.0@, host.0@, port.0),
{
    match rules.decide(host, port) {
        Decision::Direct => DecisionView {
            decision: DecisionKind::Direct,
            rule_index: None,
            class: None,
            next_hop: dialled(host, port),
        },
        Decision::Never { rule } => DecisionView {
            decision: DecisionKind::Never,
            rule_index: Some(indexed(rule)),
            class: Some(RuleClass::Never),
            next_hop: dialled(host, port),
        },
        Decision::Upstream { class, rule } => match class {
            RuleClass::Require | RuleClass::Prefer => DecisionView {
                decision: DecisionKind::Upstream,
                rule_index: Some(indexed(rule)),
                class: Some(class),
                next_hop: named(upstream),
            },
            RuleClass::Never => DecisionView {
                decision: DecisionKind::Never,
                rule_index: Some(indexed(rule)),
                class: Some(class),
                next_hop: dialled(host, port),
            },
        },
    }
}

fn dialled(host: &Host, port: Port) -> (r: String)
    ensures
        r@ == destination_text(host.0@, port.0),
{
    let number = text::decimal_text(port.0 as u64);
    if text::contains_char(host.0.as_str(), ':') {
        let mut r = "[".to_owned();
        r.append(host.0.as_str());
        r.append("]:");
        r.append(number.as_str());
        return r;
    }
    let mut r = host.0.clone();
    r.append(":");
    r.append(number.as_str());
    r
}

fn named(upstream: &UpstreamAddr) -> (r: String)
    ensures
        r@ == upstream_text(upstream.0@),
{
    if upstream.0.as_str().is_empty() {
        return NO_UPSTREAM.to_owned();
    }
    upstream.0.clone()
}

/// A destination is told as it would be dialled: a host and a port, a host with colons in brackets.
pub proof fn law_how_a_destination_is_told(host: Seq<char>, port: u16)
    ensures
        !host.contains(':') ==> destination_text(host, port) == host + ":"@ + decimal(port as nat),
        host.contains(':') ==> destination_text(host, port) == "["@ + host + "]:"@ + decimal(
            port as nat,
        ),
{
}

/// A test tells the rule that decides and where the connection is handed to: to the destination for a
/// direct or a `never` decision, otherwise to the upstream as it was written.
pub proof fn law_a_test_tells_the_rule_and_the_hop(
    view: DecisionView,
    class: RuleClass,
    rule: RuleId,
    upstream: Seq<char>,
    host: Seq<char>,
    port: u16,
)
    ensures
        reports(view, Decision::Direct, upstream, host, port) ==> view.decision
            == DecisionKind::Direct && view.rule_index is None && view.class is None && view.next_hop@
            == destination_text(host, port),
        reports(view, Decision::Never { rule }, upstream, host, port) && rule.0 <= u32::MAX
            ==> view.decision == DecisionKind::Never && view.rule_index == Some(rule.0 as u32)
            && view.class == Some(RuleClass::Never) && view.next_hop@ == destination_text(host, port),
        reports(view, Decision::Upstream { class, rule }, upstream, host, port) && class
            != RuleClass::Never && rule.0 <= u32::MAX ==> view.decision == DecisionKind::Upstream
            && view.rule_index == Some(rule.0 as u32) && view.class == Some(class) && view.next_hop@
            == if upstream.len() > 0 {
            upstream
        } else {
            "none"@
        },
{
}

} // verus!
