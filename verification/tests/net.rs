use nhop::net::{IpAddr, SocketAddr};

fn rendered(text: &str) -> Option<String> {
    Some(IpAddr::parse(text)?.text())
}

fn dialled(text: &str) -> Option<String> {
    Some(SocketAddr::parse(text)?.text())
}

#[test]
fn a_version_four_address_is_four_octets_without_leading_zeros() {
    assert_eq!(IpAddr::parse("127.0.0.1"), Some(IpAddr::V4(0x7f00_0001)));
    assert_eq!(rendered("255.255.255.255"), Some("255.255.255.255".to_owned()));
    for text in [
        "", "1.2.3", "1.2.3.4.5", "256.0.0.1", "01.2.3.4", "1.2.3.", "1..2.3", "+1.2.3.4", "1.2.3.4 ",
    ] {
        assert_eq!(IpAddr::parse(text), None, "{text}");
    }
}

#[test]
fn a_version_six_address_is_written_in_its_shortest_form() {
    let forms = [
        ("::", "::"),
        ("::1", "::1"),
        ("1::", "1::"),
        ("2001:DB8::1", "2001:db8::1"),
        ("2001:0db8:0:0:0:0:0:0001", "2001:db8::1"),
        ("1:2:3:4:5:6:7:8", "1:2:3:4:5:6:7:8"),
        ("1:0:2:3:4:5:6:7", "1:0:2:3:4:5:6:7"),
        ("1:0:0:2:0:0:0:3", "1:0:0:2::3"),
        ("1:0:0:2:3:0:0:4", "1::2:3:0:0:4"),
        ("::ffff:127.0.0.1", "::ffff:127.0.0.1"),
        ("::ffff:7f00:1", "::ffff:127.0.0.1"),
        ("64:ff9b::192.0.2.33", "64:ff9b::c000:221"),
        ("1:2:3:4:5:6:1.2.3.4", "1:2:3:4:5:6:102:304"),
        ("1:2:3:4:5:6:7::", "1:2:3:4:5:6:7:0"),
    ];
    for (text, shortest) in forms {
        assert_eq!(rendered(text), Some(shortest.to_owned()), "{text}");
        assert_eq!(IpAddr::parse(shortest), IpAddr::parse(text), "{text}");
    }
}

#[test]
fn a_text_that_is_no_version_six_address_is_rejected() {
    for text in [
        ":", ":::", "1:2", "1:2:3:4:5:6:7:8:9", "1:2:3:4:5:6:7:8::", "::1::", "12345::", "g::",
        "1.2.3.4::", "::1.2.3.4:5", "1:2:3:4:5:6:7:1.2.3.4", "::01.2.3.4", ":1::2", "1::2:", "fe80::1%1",
        "[::1]",
    ] {
        assert_eq!(IpAddr::parse(text), None, "{text}");
    }
}

#[test]
fn a_socket_address_carries_a_port_and_sometimes_a_zone() {
    assert_eq!(
        SocketAddr::parse("127.0.0.1:7890"),
        Some(SocketAddr {
            ip: IpAddr::V4(0x7f00_0001),
            port: 7890,
            scope: 0,
        })
    );
    assert_eq!(dialled("[::1]:00080"), Some("[::1]:80".to_owned()));
    assert_eq!(dialled("[fe80::1%3]:80"), Some("[fe80::1%3]:80".to_owned()));
    for text in [
        "127.0.0.1", "127.0.0.1:", "127.0.0.1:+80", "127.0.0.1:65536", "[::1]80", "[::1]", "[::1:80",
        "::1:80", "[127.0.0.1]:80", "[::1%]:80", "[::1%4294967296]:80", "", "localhost:80",
    ] {
        assert_eq!(SocketAddr::parse(text), None, "{text}");
    }
}

#[test]
fn mapped_addresses_fold_back_to_version_four() {
    let mapped = IpAddr::parse("::ffff:127.0.0.1").unwrap();
    assert_eq!(mapped.to_canonical(), IpAddr::V4(0x7f00_0001));
    assert!(!mapped.is_loopback());
    assert!(mapped.to_canonical().is_loopback());
    assert!(IpAddr::V6(1).is_loopback());
    assert!(IpAddr::V6(0).is_unspecified());
    assert_eq!(IpAddr::V6(1).to_canonical(), IpAddr::V6(1));
}

#[test]
fn an_address_reads_back_from_its_text() {
    for ip in [
        IpAddr::V4(0),
        IpAddr::V4(0xc0a8_0701),
        IpAddr::V4(u32::MAX),
        IpAddr::V6(0),
        IpAddr::V6(1),
        IpAddr::V6(0xffff_7f00_0001),
        IpAddr::V6(0x2001_0db8_0000_0001_0000_0000_0000_0001),
        IpAddr::V6(0x0001_0002_0003_0004_0005_0006_0007_0000),
        IpAddr::V6(u128::MAX),
    ] {
        assert_eq!(IpAddr::parse(&ip.text()), Some(ip), "{}", ip.text());
        let scope = match ip {
            IpAddr::V4(_) => 0,
            IpAddr::V6(_) => 7,
        };
        let addr = SocketAddr {
            ip,
            port: 65535,
            scope,
        };
        assert_eq!(SocketAddr::parse(&addr.text()), Some(addr), "{}", addr.text());
    }
}
