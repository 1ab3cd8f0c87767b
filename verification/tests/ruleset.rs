use nhop::ipc::{DecisionKind, Host, Port, RuleClass, RuleKind, RuleValue};
use nhop::rules::{Decision, RuleId, Ruleset};

fn ruleset(rules: &[(RuleClass, RuleKind, &str)]) -> Ruleset {
    let mut ruleset = Ruleset::default();
    for (class, kind, value) in rules {
        ruleset
            .push(*class, *kind, RuleValue((*value).to_owned()))
            .unwrap();
    }
    ruleset
}

fn decide(ruleset: &Ruleset, host: &str, port: u16) -> Decision {
    ruleset.decide(&Host(host.to_owned()), Port(port))
}

#[test]
fn an_empty_ruleset_dials_directly() {
    let ruleset = Ruleset::default();
    assert_eq!(decide(&ruleset, "example.com", 443), Decision::Direct);
}

#[test]
fn an_unmatched_destination_dials_directly() {
    let ruleset = ruleset(&[(RuleClass::Require, RuleKind::Suffix, "example.com")]);
    assert_eq!(decide(&ruleset, "example.net", 443), Decision::Direct);
}

#[test]
fn push_numbers_rules_in_declaration_order() {
    let mut ruleset = Ruleset::default();
    let first = ruleset
        .push(
            RuleClass::Require,
            RuleKind::Suffix,
            RuleValue("example.com".to_owned()),
        )
        .unwrap();
    let second = ruleset
        .push(
            RuleClass::Prefer,
            RuleKind::Port,
            RuleValue("443".to_owned()),
        )
        .unwrap();
    assert_eq!(first, RuleId(0));
    assert_eq!(second, RuleId(1));
    assert_eq!(ruleset.rules().len(), 2);
}

#[test]
fn a_rejected_rule_leaves_the_ruleset_untouched() {
    let mut ruleset = ruleset(&[(RuleClass::Require, RuleKind::Suffix, "example.com")]);
    let failure = ruleset
        .push(
            RuleClass::Prefer,
            RuleKind::Port,
            RuleValue("80-90".to_owned()),
        )
        .unwrap_err();
    assert_eq!(failure.err_kind(), nhop::ipc::ErrKind::InvalidArgs);
    assert_eq!(ruleset.rules().len(), 1);
    assert_eq!(
        decide(&ruleset, "example.com", 80),
        Decision::Upstream {
            class: RuleClass::Require,
            rule: RuleId(0),
        }
    );
}

#[test]
fn rules_report_their_kind_class_and_original_value() {
    let ruleset = ruleset(&[(RuleClass::Never, RuleKind::Suffix, "Example.COM.")]);
    let [rule] = ruleset.rules() else {
        panic!("expected one rule");
    };
    assert_eq!(rule.id(), RuleId(0));
    assert_eq!(rule.class(), RuleClass::Never);
    assert_eq!(rule.kind(), RuleKind::Suffix);
    assert_eq!(rule.value(), &RuleValue("Example.COM.".to_owned()));
}

#[test]
fn count_reports_rules_per_class() {
    let ruleset = ruleset(&[
        (RuleClass::Require, RuleKind::Suffix, "example.com"),
        (RuleClass::Prefer, RuleKind::Port, "443"),
        (RuleClass::Prefer, RuleKind::Keyword, "cdn"),
        (RuleClass::Never, RuleKind::Cidr, "192.0.2.0/24"),
    ]);
    assert_eq!(ruleset.count(RuleClass::Require), 1);
    assert_eq!(ruleset.count(RuleClass::Prefer), 2);
    assert_eq!(ruleset.count(RuleClass::Never), 1);
}

#[test]
fn never_rules_win_over_earlier_rules() {
    let ruleset = ruleset(&[
        (RuleClass::Require, RuleKind::Suffix, "example.com"),
        (RuleClass::Never, RuleKind::Suffix, "api.example.com"),
    ]);
    assert_eq!(
        decide(&ruleset, "api.example.com", 443),
        Decision::Never { rule: RuleId(1) }
    );
    assert_eq!(
        decide(&ruleset, "www.example.com", 443),
        Decision::Upstream {
            class: RuleClass::Require,
            rule: RuleId(0),
        }
    );
}

#[test]
fn the_first_matching_rule_wins() {
    let ruleset = ruleset(&[
        (RuleClass::Prefer, RuleKind::Port, "443"),
        (RuleClass::Require, RuleKind::Suffix, "example.com"),
    ]);
    assert_eq!(
        decide(&ruleset, "example.com", 443),
        Decision::Upstream {
            class: RuleClass::Prefer,
            rule: RuleId(0),
        }
    );
    assert_eq!(
        decide(&ruleset, "example.com", 80),
        Decision::Upstream {
            class: RuleClass::Require,
            rule: RuleId(1),
        }
    );
}

#[test]
fn a_never_rule_declared_first_still_wins() {
    let ruleset = ruleset(&[
        (RuleClass::Never, RuleKind::Cidr, "192.0.2.0/24"),
        (RuleClass::Require, RuleKind::Port, "443"),
    ]);
    assert_eq!(
        decide(&ruleset, "192.0.2.9", 443),
        Decision::Never { rule: RuleId(0) }
    );
}

#[test]
fn decisions_report_their_rule_and_class() {
    let ruleset = ruleset(&[
        (RuleClass::Never, RuleKind::Suffix, "intranet.example.com"),
        (RuleClass::Require, RuleKind::Suffix, "example.com"),
    ]);

    let decision = decide(&ruleset, "intranet.example.com", 443);
    assert_eq!(decision.kind(), DecisionKind::Never);
    assert_eq!(decision.rule(), Some(RuleId(0)));
    assert_eq!(decision.class(), Some(RuleClass::Never));

    let decision = decide(&ruleset, "www.example.com", 443);
    assert_eq!(decision.kind(), DecisionKind::Upstream);
    assert_eq!(decision.rule(), Some(RuleId(1)));
    assert_eq!(decision.class(), Some(RuleClass::Require));

    let decision = decide(&ruleset, "example.net", 443);
    assert_eq!(decision.kind(), DecisionKind::Direct);
    assert_eq!(decision.rule(), None);
    assert_eq!(decision.class(), None);
}

#[test]
fn a_later_rule_takes_nothing_from_an_earlier_one() {
    let mut ruleset = ruleset(&[(RuleClass::Prefer, RuleKind::Suffix, "example.com")]);
    let before = decide(&ruleset, "example.com", 443);
    ruleset
        .push(
            RuleClass::Require,
            RuleKind::Suffix,
            RuleValue("example.com".to_owned()),
        )
        .unwrap();
    assert_eq!(decide(&ruleset, "example.com", 443), before);
}

#[test]
fn a_destination_is_decided_whatever_its_case_and_trailing_dot() {
    let ruleset = ruleset(&[(RuleClass::Require, RuleKind::Keyword, "Sabre")]);
    let decided = decide(&ruleset, "sabre-erp.example.com", 443);
    assert_eq!(decided.class(), Some(RuleClass::Require));
    assert_eq!(decide(&ruleset, "SABRE-ERP.Example.com.", 443), decided);
}

#[test]
fn the_worked_example_routes_as_documented() {
    let ruleset = ruleset(&[
        (RuleClass::Never, RuleKind::Cidr, "192.168.7.0/24"),
        (RuleClass::Never, RuleKind::Suffix, "pyramid.local"),
        (RuleClass::Require, RuleKind::Suffix, "corp.dundermifflin.com"),
        (RuleClass::Require, RuleKind::Keyword, "sabre"),
        (RuleClass::Prefer, RuleKind::Suffix, "dundermifflin.com"),
        (RuleClass::Prefer, RuleKind::Suffix, "wuphf.com"),
        (RuleClass::Require, RuleKind::Cidr, "10.15.0.0/16"),
    ]);
    assert_eq!(
        decide(&ruleset, "warehouse.corp.dundermifflin.com", 443),
        Decision::Upstream {
            class: RuleClass::Require,
            rule: RuleId(2),
        }
    );
    assert_eq!(
        decide(&ruleset, "pyramid.local", 9100),
        Decision::Never { rule: RuleId(1) }
    );
    assert_eq!(
        decide(&ruleset, "10.15.4.9", 445),
        Decision::Upstream {
            class: RuleClass::Require,
            rule: RuleId(6),
        }
    );
    assert_eq!(decide(&ruleset, "example.net", 443), Decision::Direct);
}
