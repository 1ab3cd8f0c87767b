use nhop::ipc::{ErrKind, Host, Port, RuleKind, RuleValue};
use nhop::rules::{InvalidRule, Matcher, NormalizedHost};

fn host(host: &str) -> NormalizedHost {
    NormalizedHost::new(&Host(host.to_owned()))
}

fn matcher(kind: RuleKind, value: &str) -> Matcher {
    Matcher::parse(kind, &RuleValue(value.to_owned())).unwrap()
}

fn rejection(kind: RuleKind, value: &str) -> InvalidRule {
    Matcher::parse(kind, &RuleValue(value.to_owned())).unwrap_err()
}

#[test]
fn suffix_matches_the_domain_itself() {
    let rule = matcher(RuleKind::Suffix, "example.com");
    assert!(rule.matches(&host("example.com"), Port(443)));
}

#[test]
fn suffix_matches_a_subdomain() {
    let rule = matcher(RuleKind::Suffix, "example.com");
    assert!(rule.matches(&host("api.internal.example.com"), Port(443)));
}

#[test]
fn suffix_ignores_a_shared_tail() {
    let rule = matcher(RuleKind::Suffix, "example.com");
    assert!(!rule.matches(&host("notexample.com"), Port(443)));
    assert!(!rule.matches(&host("example.com.evil.test"), Port(443)));
    assert!(!rule.matches(&host("com"), Port(443)));
}

#[test]
fn suffix_ignores_case_on_both_sides() {
    let rule = matcher(RuleKind::Suffix, "Example.COM");
    assert!(rule.matches(&host("API.Example.Com"), Port(443)));
}

#[test]
fn suffix_strips_the_trailing_dot() {
    let rule = matcher(RuleKind::Suffix, "example.com.");
    assert!(rule.matches(&host("example.com"), Port(443)));
    assert!(rule.matches(&host("api.example.com."), Port(443)));
}

#[test]
fn cidr_matches_an_address_in_range() {
    let rule = matcher(RuleKind::Cidr, "192.0.2.0/24");
    assert!(rule.matches(&host("192.0.2.17"), Port(80)));
}

#[test]
fn cidr_ignores_an_address_out_of_range() {
    let rule = matcher(RuleKind::Cidr, "192.0.2.0/24");
    assert!(!rule.matches(&host("198.51.100.17"), Port(80)));
}

#[test]
fn cidr_never_matches_a_hostname() {
    let rule = matcher(RuleKind::Cidr, "0.0.0.0/0");
    assert!(!rule.matches(&host("example.com"), Port(80)));
    assert!(!rule.matches(&host("192.0.2.17.example.com"), Port(80)));
}

#[test]
fn cidr_ignores_the_other_address_family() {
    let rule = matcher(RuleKind::Cidr, "192.0.2.0/24");
    assert!(!rule.matches(&host("2001:db8::1"), Port(80)));

    let rule = matcher(RuleKind::Cidr, "2001:db8::/32");
    assert!(rule.matches(&host("2001:DB8::1"), Port(80)));
    assert!(!rule.matches(&host("192.0.2.17"), Port(80)));
}

#[test]
fn port_matches_exact_equality_only() {
    let rule = matcher(RuleKind::Port, "8443");
    assert!(rule.matches(&host("example.com"), Port(8443)));
    assert!(!rule.matches(&host("example.com"), Port(8444)));
    assert!(!rule.matches(&host("example.com"), Port(443)));
}

#[test]
fn keyword_matches_a_substring_ignoring_case() {
    let rule = matcher(RuleKind::Keyword, "Internal");
    assert!(rule.matches(&host("api.INTERNAL.example.com"), Port(443)));
    assert!(!rule.matches(&host("api.example.com"), Port(443)));
}

#[test]
fn keyword_never_matches_the_port() {
    let rule = matcher(RuleKind::Keyword, "8443");
    assert!(!rule.matches(&host("example.com"), Port(8443)));
}

#[test]
fn kind_survives_parsing() {
    let kinds = [
        (RuleKind::Suffix, "example.com"),
        (RuleKind::Cidr, "192.0.2.0/24"),
        (RuleKind::Port, "443"),
        (RuleKind::Keyword, "internal"),
    ];
    for (kind, value) in kinds {
        assert_eq!(matcher(kind, value).kind(), kind);
    }
}

#[test]
fn suffix_rejects_an_empty_value() {
    let failure = rejection(RuleKind::Suffix, ".");
    assert_eq!(failure.err_kind(), ErrKind::InvalidArgs);
    assert!(failure.message().contains("suffix"), "{failure:?}");
    assert!(
        rejection(RuleKind::Suffix, "  ")
            .message()
            .contains("suffix")
    );
}

#[test]
fn suffix_rejects_spellings_that_would_match_nothing() {
    let failure = rejection(RuleKind::Suffix, ".example.com");
    assert_eq!(failure.err_kind(), ErrKind::InvalidArgs);
    assert!(failure.message().contains("suffix"), "{failure:?}");
    assert!(
        rejection(RuleKind::Suffix, "*.example.com")
            .message()
            .contains("suffix")
    );
}

#[test]
fn cidr_rejects_a_value_without_a_prefix_length() {
    let failure = rejection(RuleKind::Cidr, "example.com");
    assert_eq!(failure.err_kind(), ErrKind::InvalidArgs);
    assert!(failure.message().contains("cidr"), "{failure:?}");
    assert!(
        rejection(RuleKind::Cidr, "192.0.2.0/33")
            .message()
            .contains("cidr")
    );
}

#[test]
fn port_rejects_a_range_and_an_out_of_bounds_value() {
    let failure = rejection(RuleKind::Port, "80-90");
    assert_eq!(failure.err_kind(), ErrKind::InvalidArgs);
    assert!(
        failure.message().contains("ranges are not supported"),
        "{failure:?}"
    );
    assert!(
        rejection(RuleKind::Port, "70000")
            .message()
            .contains("port")
    );
}

#[test]
fn keyword_rejects_an_empty_value() {
    let failure = rejection(RuleKind::Keyword, "");
    assert_eq!(failure.err_kind(), ErrKind::InvalidArgs);
    assert!(failure.message().contains("keyword"), "{failure:?}");
}

#[test]
fn normalized_host_lowercases_and_strips_the_trailing_dot() {
    assert_eq!(host("API.Example.COM.").as_str(), "api.example.com");
}

#[test]
fn a_host_keeps_the_address_it_was_written_as() {
    assert_eq!(host("192.0.2.17").address(), nhop::net::IpAddr::parse("192.0.2.17"));
    assert_eq!(host("example.com").address(), None);
    assert!(host("2001:DB8::1").address().is_some());
}

#[test]
fn a_rejection_names_the_kind_the_value_and_what_was_expected() {
    assert_eq!(
        rejection(RuleKind::Port, "80-\"90").message(),
        "invalid port value \"80-\\\"90\": expected a single port between 0 and 65535, ranges are not supported"
    );
    assert_eq!(
        rejection(RuleKind::Cidr, "nonsense").message(),
        "invalid cidr value \"nonsense\": expected a network such as 192.0.2.0/24"
    );
}

#[test]
fn a_name_outside_ascii_is_compared_in_lower_case_too() {
    let rule = matcher(RuleKind::Suffix, "BÜCHER.example");
    assert!(rule.matches(&host("shop.bücher.EXAMPLE"), Port(443)));
}

#[test]
fn a_network_ends_where_its_prefix_says() {
    let rule = matcher(RuleKind::Cidr, "10.15.0.0/15");
    assert!(rule.matches(&host("10.14.255.255"), Port(1)));
    assert!(rule.matches(&host("10.15.0.1"), Port(1)));
    assert!(!rule.matches(&host("10.16.0.0"), Port(1)));
    assert!(matcher(RuleKind::Cidr, "::/0").matches(&host("2001:db8::1"), Port(1)));
    assert!(!matcher(RuleKind::Cidr, "2001:db8::1/128").matches(&host("2001:db8::2"), Port(1)));
}

#[test]
fn a_port_may_carry_a_plus_sign_and_leading_zeros() {
    assert!(matcher(RuleKind::Port, "+0443").matches(&host("example.com"), Port(443)));
    assert_eq!(rejection(RuleKind::Port, "").err_kind(), ErrKind::InvalidArgs);
    assert_eq!(rejection(RuleKind::Port, "+").err_kind(), ErrKind::InvalidArgs);
    assert_eq!(rejection(RuleKind::Port, " 443").err_kind(), ErrKind::InvalidArgs);
}
