use nhop::ipc::{Host, Port};
use nhop::net::SocketAddr;
use nhop::proxy::http::{
    behind_the_head, established, head_end, malformed, parse_head, prepare, read_head, refuse,
    refuse_loop, reply, rest_of_body, rewritten, Body, Forward, Head, Method, Reading, Request, Rest,
    HEAD_LIMIT,
};
use nhop::proxy::{DialsItself, Loop, UpstreamDown};
use nhop::rules::RuleId;

fn parse(head: &str) -> Option<Request> {
    parse_head(head.as_bytes())
}

fn request(method: Method, host: &str, port: u16) -> Option<Request> {
    let body = match method {
        Method::Connect => Body::Streamed,
        Method::Absolute => Body::Sized(0),
    };
    carrying(method, host, port, body)
}

fn carrying(method: Method, host: &str, port: u16, body: Body) -> Option<Request> {
    Some(Request {
        method,
        host: Host(host.to_owned()),
        port: Port(port),
        body,
    })
}

#[test]
fn a_connect_request_names_its_authority() {
    assert_eq!(
        parse("CONNECT example.com:443 HTTP/1.1\r\nHost: example.com:443\r\n\r\n"),
        request(Method::Connect, "example.com", 443)
    );
}

#[test]
fn a_connect_request_without_a_port_is_malformed() {
    assert_eq!(parse("CONNECT example.com HTTP/1.1\r\n\r\n"), None);
    assert_eq!(parse("CONNECT example.com:https HTTP/1.1\r\n\r\n"), None);
}

#[test]
fn an_absolute_form_request_takes_its_authority_from_the_target() {
    assert_eq!(
        parse(
            "GET http://example.com/index.html HTTP/1.1\r\nHost: elsewhere.example.net\r\n\r\n"
        ),
        request(Method::Absolute, "example.com", 80)
    );
    assert_eq!(
        parse("GET http://example.com:8080/ HTTP/1.1\r\n\r\n"),
        request(Method::Absolute, "example.com", 8080)
    );
    assert_eq!(
        parse("GET http://example.com HTTP/1.1\r\n\r\n"),
        request(Method::Absolute, "example.com", 80)
    );
}

#[test]
fn an_origin_form_request_falls_back_to_the_host_header() {
    assert_eq!(
        parse("GET /index.html HTTP/1.1\r\nAccept: */*\r\nHost: example.com:8080\r\n\r\n"),
        request(Method::Absolute, "example.com", 8080)
    );
    assert_eq!(
        parse("POST /submit HTTP/1.1\r\nhost:  example.com \r\n\r\n"),
        request(Method::Absolute, "example.com", 80)
    );
}

#[test]
fn an_origin_form_request_without_a_host_header_is_malformed() {
    assert_eq!(
        parse("GET /index.html HTTP/1.1\r\nAccept: */*\r\n\r\n"),
        None
    );
}

#[test]
fn a_malformed_request_line_is_rejected() {
    assert_eq!(parse("GET\r\n\r\n"), None);
    assert_eq!(parse("GET /index.html\r\n\r\n"), None);
    assert_eq!(
        parse("GET / HTTP/1.1 extra\r\nHost: example.com\r\n\r\n"),
        None
    );
    assert_eq!(parse("GET / SPDY/1.1\r\nHost: example.com\r\n\r\n"), None);
    assert_eq!(parse("\r\n\r\n"), None);
}

#[test]
fn a_bracketed_address_keeps_its_colons() {
    assert_eq!(
        parse("CONNECT [2001:db8::1]:443 HTTP/1.1\r\n\r\n"),
        request(Method::Connect, "2001:db8::1", 443)
    );
    assert_eq!(
        parse("GET http://[2001:db8::1]/ HTTP/1.1\r\n\r\n"),
        request(Method::Absolute, "2001:db8::1", 80)
    );
}

#[test]
fn an_empty_authority_is_rejected() {
    assert_eq!(parse("CONNECT :443 HTTP/1.1\r\n\r\n"), None);
    assert_eq!(parse("GET http://:80/ HTTP/1.1\r\n\r\n"), None);
}

#[test]
fn the_head_ends_at_the_first_blank_line() {
    let head = b"GET / HTTP/1.1\r\nHost: example.com\r\n\r\nbody";
    assert_eq!(head_end(head), Some(head.len() - 4));
}

#[test]
fn a_head_that_has_not_ended_is_not_found() {
    assert_eq!(head_end(b"GET / HTTP/1.1\r\n"), None);
    assert_eq!(head_end(b"\r\n\r"), None);
    assert_eq!(head_end(b""), None);
}

#[test]
fn a_terminator_split_across_two_reads_is_still_found() {
    let head = b"GET / HTTP/1.1\r\n\r\n";
    let boundary = head.len() - 2;
    assert_eq!(head_end(&head[..boundary]), None);
    assert_eq!(head_end(head), Some(head.len()));
}

#[test]
fn a_content_length_says_how_much_of_the_rest_is_the_body() {
    assert_eq!(
        parse("POST http://example.com/submit HTTP/1.1\r\nContent-Length: 9\r\n\r\n"),
        carrying(Method::Absolute, "example.com", 80, Body::Sized(9))
    );
    assert_eq!(
        parse("POST http://example.com/submit HTTP/1.1\r\ncontent-length: none\r\n\r\n"),
        carrying(Method::Absolute, "example.com", 80, Body::Sized(0))
    );
}

#[test]
fn a_chunked_body_is_read_until_the_client_stops() {
    assert_eq!(
        parse("POST http://example.com/submit HTTP/1.1\r\nTransfer-Encoding: chunked\r\n\r\n"),
        carrying(Method::Absolute, "example.com", 80, Body::Streamed)
    );
}

#[test]
fn only_the_body_of_this_request_is_forwarded_behind_its_head() {
    let rest = b"a=1&b=2GET http://example.com/next HTTP/1.1\r\n\r\n";
    assert_eq!(
        behind_the_head(rest, Method::Absolute, Body::Sized(7)),
        b"a=1&b=2"
    );
    assert_eq!(behind_the_head(rest, Method::Absolute, Body::Sized(0)), b"");
    assert_eq!(
        behind_the_head(rest, Method::Absolute, Body::Streamed),
        rest
    );
    assert_eq!(behind_the_head(rest, Method::Connect, Body::Sized(0)), rest);
}

#[test]
fn a_body_shorter_than_its_content_length_is_forwarded_whole() {
    let rest = b"a=1";
    assert_eq!(
        behind_the_head(rest, Method::Absolute, Body::Sized(64)),
        rest
    );
}

#[test]
fn the_client_is_read_only_as_far_as_this_requests_body_reaches() {
    assert_eq!(
        rest_of_body(Method::Absolute, Body::Sized(7), b"a=1&b=2"),
        Rest::Bytes(0)
    );
    assert_eq!(
        rest_of_body(Method::Absolute, Body::Sized(64), b"a=1"),
        Rest::Bytes(61)
    );
    assert_eq!(
        rest_of_body(Method::Absolute, Body::Streamed, b""),
        Rest::Streamed
    );
    assert_eq!(
        rest_of_body(Method::Connect, Body::Sized(0), b""),
        Rest::Streamed
    );
}

fn rebuilt(head: &str, host: &str, port: u16) -> String {
    let out = rewritten(head.as_bytes(), &Host(host.to_owned()), Port(port)).unwrap();
    String::from_utf8(out).unwrap()
}

#[test]
fn the_target_becomes_origin_form() {
    let head = "GET http://example.com/a/b?c=1 HTTP/1.1\r\nHost: example.com\r\n\r\n";
    assert!(rebuilt(head, "example.com", 80).starts_with("GET /a/b?c=1 HTTP/1.1\r\n"));

    let bare = "GET http://example.com HTTP/1.1\r\nHost: example.com\r\n\r\n";
    assert!(rebuilt(bare, "example.com", 80).starts_with("GET / HTTP/1.1\r\n"));
}

#[test]
fn the_host_is_regenerated_from_the_target_not_forwarded() {
    let head = "GET http://example.com/x HTTP/1.1\r\nHost: stale.example\r\n\r\n";
    let out = rebuilt(head, "example.com", 80);

    assert!(out.contains("Host: example.com\r\n"), "{out}");
    assert!(!out.contains("stale.example"), "{out}");
}

#[test]
fn a_port_other_than_eighty_is_named_in_the_host() {
    let head = "GET http://example.com:8080/x HTTP/1.1\r\nHost: example.com:8080\r\n\r\n";

    assert!(rebuilt(head, "example.com", 8080).contains("Host: example.com:8080\r\n"));
}

#[test]
fn hop_by_hop_fields_do_not_reach_the_origin() {
    let head = "GET http://example.com/x HTTP/1.1\r\nHost: example.com\r\n\
                Proxy-Connection: Keep-Alive\r\nKeep-Alive: timeout=5\r\n\
                Proxy-Authorization: Basic zzz\r\nTE: trailers\r\nUpgrade: h2c\r\n\
                Accept: */*\r\n\r\n";
    let out = rebuilt(head, "example.com", 80).to_ascii_lowercase();

    for dropped in [
        "proxy-connection",
        "keep-alive",
        "proxy-authorization",
        "te:",
        "upgrade",
    ] {
        assert!(!out.contains(dropped), "{dropped} survived: {out}");
    }
    assert!(out.contains("accept: */*"), "{out}");
}

#[test]
fn the_body_framing_header_survives() {
    let head = "POST http://example.com/x HTTP/1.1\r\nHost: example.com\r\n\
                Transfer-Encoding: chunked\r\n\r\n";

    assert!(rebuilt(head, "example.com", 80).contains("Transfer-Encoding: chunked\r\n"));
}

#[test]
fn the_origin_is_asked_to_close_so_the_answer_ends_without_a_half_close() {
    let head = "GET http://example.com/x HTTP/1.1\r\nHost: example.com\r\n\r\n";
    let out = rebuilt(head, "example.com", 80);

    assert!(out.contains("Connection: close\r\n"), "{out}");
    assert!(out.ends_with("\r\n\r\n"), "{out}");
}

fn text(bytes: Vec<u8>) -> String {
    String::from_utf8(bytes).unwrap()
}

#[test]
fn a_head_is_read_until_it_ends_or_does_not_fit() {
    assert_eq!(read_head(b"GET / HTTP/1.1\r\n", 16), Reading::More);
    assert_eq!(read_head(b"", 0), Reading::Abandoned);
    assert_eq!(
        read_head(b"GET / HTTP/1.1\r\n\r\nab", 20),
        Reading::Ended(Head { end: 18, read: 20 })
    );
    let full = vec![b'x'; HEAD_LIMIT];
    assert_eq!(read_head(&full, 1), Reading::Abandoned);
    let mut last = vec![b'x'; HEAD_LIMIT - 4];
    last.extend_from_slice(b"\r\n\r\n");
    assert_eq!(
        read_head(&last, 4),
        Reading::Ended(Head {
            end: HEAD_LIMIT,
            read: HEAD_LIMIT,
        })
    );
}

#[test]
fn a_request_is_prepared_with_its_own_body_and_no_more() {
    let buffer = b"POST http://example.com/submit HTTP/1.1\r\nContent-Length: 3\r\n\r\na=1GET /";
    let Reading::Ended(head) = read_head(buffer, buffer.len()) else {
        panic!("the head must end");
    };
    let Some(Forward {
        method,
        host,
        port,
        head,
        behind,
        rest,
    }) = prepare(buffer, head)
    else {
        panic!("the request must be well formed");
    };
    assert_eq!(method, Method::Absolute);
    assert_eq!(host, Host("example.com".to_owned()));
    assert_eq!(port, Port(80));
    assert_eq!(
        text(head),
        "POST /submit HTTP/1.1\r\nHost: example.com\r\nContent-Length: 3\r\nConnection: close\r\n\r\n"
    );
    assert_eq!(behind, b"a=1");
    assert_eq!(rest, Rest::Bytes(0));
    assert_eq!(rest.limit(), 0);
    assert_eq!(Rest::Streamed.limit(), u64::MAX);
}

#[test]
fn a_tunnel_forwards_no_head_and_everything_behind_it() {
    let buffer = b"CONNECT example.com:443 HTTP/1.1\r\n\r\nhello";
    let Reading::Ended(head) = read_head(buffer, buffer.len()) else {
        panic!("the head must end");
    };
    let forward = prepare(buffer, head).unwrap();
    assert_eq!(forward.method, Method::Connect);
    assert!(forward.head.is_empty());
    assert_eq!(forward.behind, b"hello");
    assert_eq!(forward.rest, Rest::Streamed);
    assert_eq!(
        text(established()),
        "HTTP/1.1 200 Connection established\r\n\r\n"
    );
}

#[test]
fn a_head_that_is_not_text_is_malformed() {
    assert_eq!(parse_head(b"GET /\xff HTTP/1.1\r\nHost: a\r\n\r\n"), None);
    assert_eq!(rewritten(b"\xff\r\n", &Host("a".to_owned()), Port(80)), None);
    assert_eq!(
        text(malformed()),
        "HTTP/1.1 400 Bad Request\r\nContent-Type: text/plain\r\nContent-Length: 23\r\nConnection: close\r\n\r\nnhop: malformed request"
    );
}

#[test]
fn a_failed_dial_is_answered_with_its_reason() {
    let upstream = SocketAddr::parse("192.0.2.10:1080").unwrap();
    let down = UpstreamDown::new(upstream, RuleId(3));
    let answer = text(refuse(Some(down), &Host("example.com".to_owned()), Port(443)));
    assert!(answer.starts_with("HTTP/1.1 502 Bad Gateway\r\n"), "{answer}");
    assert!(
        answer.ends_with("\r\n\r\nnhop: upstream 192.0.2.10:1080 is down (require rule 3)"),
        "{answer}"
    );
    let answer = text(refuse(None, &Host("example.com".to_owned()), Port(443)));
    assert!(
        answer.ends_with("\r\n\r\nnhop: cannot reach example.com:443"),
        "{answer}"
    );
    let answer = text(refuse_loop(&DialsItself::new(upstream)));
    assert!(
        answer.ends_with("\r\n\r\nnhop: refusing to dial my own listening address 192.0.2.10:1080"),
        "{answer}"
    );
}

#[test]
fn a_rebuilt_head_keeps_the_surviving_lines_in_order() {
    let head = "GET http://example.com/ HTTP/1.0\r\nA: 1\r\nconnection: x\r\nHOST : y\r\nno colon\r\nB:2\r\n\r\n";
    assert_eq!(
        rebuilt(head, "example.com", 8080),
        "GET / HTTP/1.1\r\nHost: example.com:8080\r\nA: 1\r\nB:2\r\nConnection: close\r\n\r\n"
    );
}

#[test]
fn a_request_is_answered_by_its_method_and_how_its_dial_ended() {
    let own = SocketAddr::parse("127.0.0.1:7890").unwrap();
    let upstream = SocketAddr::parse("192.0.2.10:1080").unwrap();
    let down = UpstreamDown::new(upstream, RuleId(3));
    let host = Host("example.com".to_owned());
    let port = Port(443);
    let elsewhere = Loop::Elsewhere;
    assert_eq!(
        reply(elsewhere, Ok(()), Method::Connect, &host, port),
        Some(established())
    );
    assert_eq!(reply(elsewhere, Ok(()), Method::Absolute, &host, port), None);
    for method in [Method::Connect, Method::Absolute] {
        assert_eq!(
            reply(elsewhere, Err(Some(down)), method, &host, port),
            Some(refuse(Some(down), &host, port))
        );
        assert_eq!(
            reply(elsewhere, Err(None), method, &host, port),
            Some(refuse(None, &host, port))
        );
        assert_eq!(
            reply(Loop::Own(own), Err(None), method, &host, port),
            Some(refuse_loop(&DialsItself::new(own)))
        );
    }
}
