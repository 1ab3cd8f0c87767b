use nhop::ipc::{HomeNotFound, LoadId, Paths, Timestamp, LOAD_ID_ENV};
use nhop::time::{Duration, SystemTime};

#[test]
fn a_load_id_renders_and_reads_back_as_a_bare_number() {
    assert_eq!(LoadId(7).text(), "7");
    assert_eq!(LoadId::parse("7").unwrap(), LoadId(7));
    assert_eq!(LoadId::parse(" 7\n").unwrap(), LoadId(7));
}

#[test]
fn a_load_id_that_is_not_a_number_is_rejected() {
    let failure = LoadId::parse("seven").unwrap_err();
    assert!(failure.message().contains("seven"), "{failure:?}");
    assert!(LoadId::parse("-1").is_err());
    assert!(LoadId::parse("").is_err());
}

#[test]
fn every_load_id_reads_back_from_its_text() {
    for id in [0, 9, 10, 4_294_967_296, u64::MAX] {
        assert_eq!(LoadId::parse(&LoadId(id).text()), Ok(LoadId(id)));
    }
    assert!(LoadId::parse("18446744073709551616").is_err());
    assert_eq!(LoadId::parse("\u{a0}+07\u{2003}"), Ok(LoadId(7)));
    assert_eq!(LOAD_ID_ENV, "NHOP_LOAD_ID");
    assert_eq!(
        LoadId::parse("se\"ven").unwrap_err().message(),
        "invalid load id \"se\\\"ven\""
    );
}

fn at(secs: i64) -> Timestamp {
    Timestamp(SystemTime { secs, nanos: 0 })
}

#[test]
fn timestamp_renders_rfc3339_seconds() {
    assert_eq!(at(1_770_000_000).text(), "2026-02-02T02:40:00Z");
}

#[test]
fn timestamp_round_trips() {
    let at = at(1_770_000_000);
    assert_eq!(Timestamp::parse(&at.text()), Some(at));
}

#[test]
fn malformed_timestamp_is_rejected() {
    assert_eq!(Timestamp::parse("yesterday"), None);
    assert_eq!(Timestamp::parse("1969-12-31T23:59:59Z"), None);
}

#[test]
fn a_timestamp_is_written_to_the_second_and_read_to_the_nanosecond() {
    let stamped = Timestamp(SystemTime {
        secs: 0,
        nanos: 999_999_999,
    });
    assert_eq!(stamped.text(), "1970-01-01T00:00:00Z");
    assert_eq!(at(253_402_300_799).text(), "9999-12-31T23:59:59Z");
    assert_eq!(
        Timestamp::parse("1970-01-01T00:00:00.25Z"),
        Some(Timestamp(SystemTime {
            secs: 0,
            nanos: 250_000_000,
        }))
    );
}

#[test]
fn a_span_counts_its_whole_milliseconds() {
    let span = Duration {
        secs: 2,
        nanos: 1_999_999,
    };
    assert_eq!(span.millis(), 2001);
    let endless = Duration {
        secs: u64::MAX,
        nanos: 0,
    };
    assert_eq!(endless.millis(), u64::MAX);
}

#[test]
fn an_instant_before_the_first_is_absent() {
    let now = SystemTime { secs: 10, nanos: 1 };
    let span = Duration {
        secs: 11,
        nanos: 2,
    };
    assert_eq!(
        now.checked_sub(span),
        Some(SystemTime {
            secs: -2,
            nanos: 999_999_999,
        })
    );
    let endless = Duration {
        secs: u64::MAX,
        nanos: 0,
    };
    assert_eq!(now.checked_sub(endless), None);
}

#[test]
fn from_home_derives_both_directories() {
    let paths = Paths::from_home("/home/operator");
    assert_eq!(paths.config_dir(), "/home/operator/.config/nhop");
    assert_eq!(paths.init_file(), "/home/operator/.config/nhop/init");
    assert_eq!(
        paths.socket_file(),
        "/home/operator/.local/state/nhop/nhop.sock"
    );
    assert_eq!(
        paths.pid_file(),
        "/home/operator/.local/state/nhop/nhop.pid"
    );
    assert_eq!(
        paths.log_file(),
        "/home/operator/.local/state/nhop/nhop.log"
    );
}

#[test]
fn a_home_that_ends_in_a_slash_gets_no_second_one() {
    let paths = Paths::from_home("/");
    assert_eq!(paths.config_dir(), "/.config/nhop");
    assert_eq!(paths.state_dir(), "/.local/state/nhop");
    assert_eq!(Paths::from_home("").config_dir(), ".config/nhop");
    assert_eq!(HomeNotFound.message(), "cannot determine the home directory");
}
