use nhop::ipc::{Host, Port, RuleClass, RuleKind, RuleValue};
use nhop::net::SocketAddr;
use nhop::proxy::socks5::{
    answer, chosen, greet, refusal, reply, request, Exchange, Greeting, Reply, Requested,
};
use nhop::proxy::{Loop, UpstreamDown};
use nhop::rules::{Decision, RuleId, Ruleset};

fn greeting_of(bytes: &[u8]) -> Greeting {
    let Exchange::Complete(greeting) = greet(bytes) else {
        panic!("the greeting must be complete");
    };
    greeting
}

fn request_of(bytes: &[u8]) -> Requested {
    let Exchange::Complete(requested) = request(bytes) else {
        panic!("the request must be complete");
    };
    requested
}

fn connect(host: &str, port: u16) -> Requested {
    Requested::Connect {
        host: Host(host.to_owned()),
        port: Port(port),
    }
}

#[test]
fn a_client_offering_no_auth_is_accepted() {
    assert_eq!(greeting_of(&[0x05, 0x01, 0x00]), Greeting::NoAuth);
    assert_eq!(greeting_of(&[0x05, 0x02, 0x02, 0x00]), Greeting::NoAuth);
}

#[test]
fn a_client_offering_only_other_methods_is_rejected() {
    assert_eq!(greeting_of(&[0x05, 0x01, 0x02]), Greeting::Rejected);
    assert_eq!(greeting_of(&[0x05, 0x00]), Greeting::Rejected);
}

#[test]
fn a_client_speaking_another_version_is_rejected() {
    assert_eq!(greeting_of(&[0x04, 0x01, 0x00]), Greeting::Rejected);
}

#[test]
fn a_truncated_greeting_asks_for_what_is_missing() {
    assert_eq!(greet(&[]), Exchange::More(2));
    assert_eq!(greet(&[0x05]), Exchange::More(1));
    assert_eq!(greet(&[0x05, 0x02, 0x00]), Exchange::More(1));
}

#[test]
fn an_ipv4_request_names_the_address() {
    assert_eq!(
        request_of(&[0x05, 0x01, 0x00, 0x01, 127, 0, 0, 1, 0x01, 0xbb]),
        connect("127.0.0.1", 443)
    );
}

#[test]
fn a_domain_request_keeps_the_name_the_client_wrote() {
    let mut bytes = vec![0x05, 0x01, 0x00, 0x03, 11];
    bytes.extend_from_slice(b"example.com");
    bytes.extend_from_slice(&[0x1f, 0x90]);
    assert_eq!(request_of(&bytes), connect("example.com", 8080));
}

#[test]
fn an_ipv6_request_names_the_address() {
    let mut bytes = vec![0x05, 0x01, 0x00, 0x04];
    bytes.extend_from_slice(&[0, 0, 0, 0, 0, 0, 0, 0, 0, 0, 0, 0, 0, 0, 0, 1]);
    bytes.extend_from_slice(&[0x00, 0x50]);
    assert_eq!(request_of(&bytes), connect("::1", 80));
}

#[test]
fn bind_and_udp_associate_are_not_served() {
    assert_eq!(
        request_of(&[0x05, 0x02, 0x00, 0x01, 127, 0, 0, 1, 0x01, 0xbb]),
        Requested::Refused(Reply::CommandNotSupported)
    );
    assert_eq!(
        request_of(&[0x05, 0x03, 0x00, 0x01, 127, 0, 0, 1, 0x01, 0xbb]),
        Requested::Refused(Reply::CommandNotSupported)
    );
}

#[test]
fn an_unknown_address_type_is_not_served() {
    assert_eq!(
        request_of(&[0x05, 0x01, 0x00, 0x02, 0, 0]),
        Requested::Refused(Reply::AddressNotSupported)
    );
}

#[test]
fn a_domain_that_is_not_a_name_is_refused() {
    assert_eq!(
        request_of(&[0x05, 0x01, 0x00, 0x03, 0x01, 0xff, 0x01, 0xbb]),
        Requested::Refused(Reply::Failure)
    );
    assert_eq!(
        request_of(&[0x05, 0x01, 0x00, 0x03, 0x00, 0x01, 0xbb]),
        Requested::Refused(Reply::Failure)
    );
}

#[test]
fn a_request_of_another_version_is_refused() {
    assert_eq!(
        request_of(&[0x04, 0x01, 0x00, 0x01, 127, 0, 0, 1, 0x01, 0xbb]),
        Requested::Refused(Reply::Failure)
    );
}

#[test]
fn a_request_is_read_to_its_end_and_not_past_it() {
    let mut bytes = vec![0x05, 0x01, 0x00, 0x03, 11];
    bytes.extend_from_slice(b"example.com");
    bytes.extend_from_slice(&[0x1f, 0x90]);
    let mut have: Vec<u8> = Vec::new();
    let requested = loop {
        match request(&have) {
            Exchange::More(n) => {
                let from = have.len();
                have.extend_from_slice(&bytes[from..from + n]);
            }
            Exchange::Complete(requested) => break requested,
        }
    };
    assert_eq!(requested, connect("example.com", 8080));
    assert_eq!(have, bytes);
    have.extend_from_slice(b"early");
    assert_eq!(request_of(&have), requested);
    assert_eq!(request(&[0x05, 0x01, 0x00, 0x04]), Exchange::More(18));
}

#[test]
fn the_success_reply_carries_an_opaque_bound_address() {
    assert_eq!(
        answer(Reply::Granted),
        vec![0x05, 0x00, 0x00, 0x01, 0, 0, 0, 0, 0, 0]
    );
}

#[test]
fn every_refusal_keeps_the_reply_shape() {
    assert_eq!(
        answer(Reply::Failure),
        vec![0x05, 0x01, 0x00, 0x01, 0, 0, 0, 0, 0, 0]
    );
    assert_eq!(
        answer(Reply::NotAllowed),
        vec![0x05, 0x02, 0x00, 0x01, 0, 0, 0, 0, 0, 0]
    );
    assert_eq!(
        answer(Reply::HostUnreachable),
        vec![0x05, 0x04, 0x00, 0x01, 0, 0, 0, 0, 0, 0]
    );
    assert_eq!(
        answer(Reply::CommandNotSupported),
        vec![0x05, 0x07, 0x00, 0x01, 0, 0, 0, 0, 0, 0]
    );
    assert_eq!(
        answer(Reply::AddressNotSupported),
        vec![0x05, 0x08, 0x00, 0x01, 0, 0, 0, 0, 0, 0]
    );
}

#[test]
fn the_chosen_method_is_two_bytes() {
    assert_eq!(chosen(Greeting::Rejected), vec![0x05, 0xff]);
    assert_eq!(chosen(Greeting::NoAuth), vec![0x05, 0x00]);
}

#[test]
fn an_upstream_that_is_down_renders_as_host_unreachable() {
    let upstream = SocketAddr::parse("192.0.2.10:1080").unwrap();
    let down = UpstreamDown::new(upstream, RuleId(0));
    assert_eq!(refusal(Some(down)), Reply::HostUnreachable);
}

#[test]
fn any_other_dial_failure_renders_as_a_general_failure() {
    assert_eq!(refusal(None), Reply::Failure);
}

#[test]
fn a_request_is_answered_by_how_its_dial_ended() {
    let own = Loop::Own(SocketAddr::parse("127.0.0.1:7891").unwrap());
    let upstream = SocketAddr::parse("192.0.2.10:1080").unwrap();
    let down = UpstreamDown::new(upstream, RuleId(0));
    assert_eq!(reply(Loop::Elsewhere, Ok(())), Reply::Granted);
    assert_eq!(reply(Loop::Elsewhere, Err(Some(down))), Reply::HostUnreachable);
    assert_eq!(reply(Loop::Elsewhere, Err(None)), Reply::Failure);
    for dialled in [Ok(()), Err(Some(down)), Err(None)] {
        assert_eq!(reply(own, dialled), Reply::NotAllowed);
    }
    assert_eq!(answer(reply(own, Err(None)))[1], 0x02);
}

#[test]
fn an_address_of_a_request_is_matched_by_the_network_it_lies_in() {
    let mut rules = Ruleset::default();
    for network in ["2001:db8::/32", "192.0.2.0/24"] {
        rules
            .push(
                RuleClass::Require,
                RuleKind::Cidr,
                RuleValue(network.to_owned()),
            )
            .unwrap();
    }
    let mut bytes = vec![0x05, 0x01, 0x00, 0x04];
    bytes.extend_from_slice(&[0x20, 0x01, 0x0d, 0xb8, 0, 0, 0, 0, 0, 0, 0, 0, 0, 0, 0, 9]);
    bytes.extend_from_slice(&[0x00, 0x50]);
    let Requested::Connect { host, port } = request_of(&bytes) else {
        panic!("the request must be served");
    };
    assert_eq!(
        rules.decide(&host, port),
        Decision::Upstream {
            class: RuleClass::Require,
            rule: RuleId(0),
        }
    );
    let Requested::Connect { host, port } =
        request_of(&[0x05, 0x01, 0x00, 0x01, 192, 0, 2, 255, 0x01, 0xbb])
    else {
        panic!("the request must be served");
    };
    assert_eq!(
        rules.decide(&host, port),
        Decision::Upstream {
            class: RuleClass::Require,
            rule: RuleId(1),
        }
    );
}
