use certmonitor::certificate::{days_left, format_date, inspect, leaf_result, Leaf};
use certmonitor::check::{check_chain, check_chain_at, conclude, server_name, CheckFailure};
use certmonitor::scan::{exit_code, severity, Severity, Status};
use certmonitor::target::Target;

/// A certificate for `example.com` that ends on 2030-01-02 at 03:04:05 UTC.
const LEAF: [u8; 248] = [
    0x30, 0x81, 0xf5, 0x30, 0x81, 0xa8, 0xa0, 0x03, 0x02, 0x01, 0x02, 0x02, 0x01, 0x07, 0x30, 0x05,
    0x06, 0x03, 0x2b, 0x65, 0x70, 0x30, 0x33, 0x31, 0x0b, 0x30, 0x09, 0x06, 0x03, 0x55, 0x04, 0x06,
    0x13, 0x02, 0x55, 0x53, 0x31, 0x16, 0x30, 0x14, 0x06, 0x03, 0x55, 0x04, 0x0a, 0x0c, 0x0d, 0x4c,
    0x65, 0x74, 0x27, 0x73, 0x20, 0x45, 0x6e, 0x63, 0x72, 0x79, 0x70, 0x74, 0x31, 0x0c, 0x30, 0x0a,
    0x06, 0x03, 0x55, 0x04, 0x03, 0x0c, 0x03, 0x52, 0x31, 0x31, 0x30, 0x1e, 0x17, 0x0d, 0x32, 0x34,
    0x30, 0x31, 0x30, 0x31, 0x30, 0x30, 0x30, 0x30, 0x30, 0x30, 0x5a, 0x17, 0x0d, 0x33, 0x30, 0x30,
    0x31, 0x30, 0x32, 0x30, 0x33, 0x30, 0x34, 0x30, 0x35, 0x5a, 0x30, 0x16, 0x31, 0x14, 0x30, 0x12,
    0x06, 0x03, 0x55, 0x04, 0x03, 0x0c, 0x0b, 0x65, 0x78, 0x61, 0x6d, 0x70, 0x6c, 0x65, 0x2e, 0x63,
    0x6f, 0x6d, 0x30, 0x2a, 0x30, 0x05, 0x06, 0x03, 0x2b, 0x65, 0x70, 0x03, 0x21, 0x00, 0x03, 0xa1,
    0x07, 0xbf, 0xf3, 0xce, 0x10, 0xbe, 0x1d, 0x70, 0xdd, 0x18, 0xe7, 0x4b, 0xc0, 0x99, 0x67, 0xe4,
    0xd6, 0x30, 0x9b, 0xa5, 0x0d, 0x5f, 0x1d, 0xdc, 0x86, 0x64, 0x12, 0x55, 0x31, 0xb8, 0x30, 0x05,
    0x06, 0x03, 0x2b, 0x65, 0x70, 0x03, 0x41, 0x00, 0xc2, 0x96, 0xe8, 0xf1, 0xe4, 0x2c, 0x21, 0xf3,
    0x59, 0xd3, 0x83, 0x05, 0x50, 0x04, 0x0a, 0x03, 0xd3, 0x77, 0xcb, 0x49, 0x8d, 0xfb, 0x8b, 0xfa,
    0x8a, 0x19, 0x9b, 0x61, 0xac, 0x2c, 0x5c, 0x44, 0x5e, 0x36, 0xc1, 0x7b, 0xb6, 0xcf, 0xb6, 0x7e,
    0x52, 0xf5, 0xb6, 0xe1, 0xc0, 0xf8, 0x43, 0x4e, 0x44, 0x82, 0xdb, 0x66, 0x21, 0x67, 0x19, 0xcb,
    0xd2, 0x96, 0x45, 0xe2, 0x54, 0x8d, 0x60, 0x0e,
];

/// The same, but it ends at midnight two hours east of UTC.
const LEAF_WITH_OFFSET: [u8; 252] = [
    0x30, 0x81, 0xf9, 0x30, 0x81, 0xac, 0xa0, 0x03, 0x02, 0x01, 0x02, 0x02, 0x01, 0x07, 0x30, 0x05,
    0x06, 0x03, 0x2b, 0x65, 0x70, 0x30, 0x33, 0x31, 0x0b, 0x30, 0x09, 0x06, 0x03, 0x55, 0x04, 0x06,
    0x13, 0x02, 0x55, 0x53, 0x31, 0x16, 0x30, 0x14, 0x06, 0x03, 0x55, 0x04, 0x0a, 0x0c, 0x0d, 0x4c,
    0x65, 0x74, 0x27, 0x73, 0x20, 0x45, 0x6e, 0x63, 0x72, 0x79, 0x70, 0x74, 0x31, 0x0c, 0x30, 0x0a,
    0x06, 0x03, 0x55, 0x04, 0x03, 0x0c, 0x03, 0x52, 0x31, 0x31, 0x30, 0x22, 0x17, 0x0d, 0x32, 0x34,
    0x30, 0x31, 0x30, 0x31, 0x30, 0x30, 0x30, 0x30, 0x30, 0x30, 0x5a, 0x17, 0x11, 0x33, 0x30, 0x30,
    0x31, 0x30, 0x32, 0x30, 0x30, 0x30, 0x30, 0x30, 0x30, 0x2b, 0x30, 0x32, 0x30, 0x30, 0x30, 0x16,
    0x31, 0x14, 0x30, 0x12, 0x06, 0x03, 0x55, 0x04, 0x03, 0x0c, 0x0b, 0x65, 0x78, 0x61, 0x6d, 0x70,
    0x6c, 0x65, 0x2e, 0x63, 0x6f, 0x6d, 0x30, 0x2a, 0x30, 0x05, 0x06, 0x03, 0x2b, 0x65, 0x70, 0x03,
    0x21, 0x00, 0x03, 0xa1, 0x07, 0xbf, 0xf3, 0xce, 0x10, 0xbe, 0x1d, 0x70, 0xdd, 0x18, 0xe7, 0x4b,
    0xc0, 0x99, 0x67, 0xe4, 0xd6, 0x30, 0x9b, 0xa5, 0x0d, 0x5f, 0x1d, 0xdc, 0x86, 0x64, 0x12, 0x55,
    0x31, 0xb8, 0x30, 0x05, 0x06, 0x03, 0x2b, 0x65, 0x70, 0x03, 0x41, 0x00, 0xc2, 0x96, 0xe8, 0xf1,
    0xe4, 0x2c, 0x21, 0xf3, 0x59, 0xd3, 0x83, 0x05, 0x50, 0x04, 0x0a, 0x03, 0xd3, 0x77, 0xcb, 0x49,
    0x8d, 0xfb, 0x8b, 0xfa, 0x8a, 0x19, 0x9b, 0x61, 0xac, 0x2c, 0x5c, 0x44, 0x5e, 0x36, 0xc1, 0x7b,
    0xb6, 0xcf, 0xb6, 0x7e, 0x52, 0xf5, 0xb6, 0xe1, 0xc0, 0xf8, 0x43, 0x4e, 0x44, 0x82, 0xdb, 0x66,
    0x21, 0x67, 0x19, 0xcb, 0xd2, 0x96, 0x45, 0xe2, 0x54, 0x8d, 0x60, 0x0e,
];

const LEAF_END: i64 = 1_893_553_445;

fn target() -> Target {
    Target { host: "example.com".to_string(), port: 8443 }
}

#[test]
fn days_left_are_full_days() {
    assert_eq!(days_left(86_400, 0), 1);
    assert_eq!(days_left(86_399, 0), 0);
    assert_eq!(days_left(0, 0), 0);
    assert_eq!(days_left(0, 1), -1);
    assert_eq!(days_left(0, 86_399), -1);
    assert_eq!(days_left(0, 86_400), -1);
    assert_eq!(days_left(0, 2 * 86_400 - 1), -1);
    assert_eq!(days_left(0, 2 * 86_400), -2);
    assert_eq!(days_left(0, 3 * 86_400 + 5), -3);
    assert_eq!(days_left(i64::MAX, 0), i64::MAX / 86_400);
    assert_eq!(days_left(i64::MIN, 0), i64::MIN / 86_400);
}

#[test]
fn a_certificate_that_expired_an_hour_ago_is_critical() {
    let r = inspect(&target(), &LEAF, LEAF_END + 3_600).unwrap();
    assert_eq!(r.status, Status::Days(-1));
    for (warn_days, critical_days) in [(30, 7), (30, 0), (0, 0), (-100, -100)] {
        assert_eq!(severity(&r, warn_days, critical_days), Severity::Critical);
        assert_eq!(exit_code(&vec![r.clone()], warn_days, critical_days), 2);
    }
    assert_eq!(r.status.days_text(), "expired 1d ago");
    let r = inspect(&target(), &LEAF, LEAF_END).unwrap();
    assert_eq!(r.status, Status::Days(0));
    assert_eq!(exit_code(&vec![r], 30, 0), 1);
}

#[test]
fn dates_are_padded() {
    for (year, month, day) in [(2030, 1, 2), (1999, 12, 31), (7, 5, 10), (-5, 1, 1), (12345, 10, 9)]
    {
        assert_eq!(
            format_date(year, month, day),
            format!("{:04}-{:02}-{:02}", year, month, day)
        );
    }
    assert_eq!(format_date(2030, 1, 2), "2030-01-02");
    assert_eq!(format_date(0, 0, 255), "0000-00-255");
}

#[test]
fn leaf_result_describes_the_certificate() {
    let leaf = Leaf {
        not_after: 1_000_000,
        year: 1970,
        month: 1,
        day: 12,
        subject: "CN=s".to_string(),
        issuer: "CN=i".to_string(),
    };
    let r = leaf_result(&target(), leaf, 0);
    assert_eq!(r.target.address(), "example.com:8443");
    assert_eq!(r.status, Status::Days(11));
    assert_eq!(r.not_after.as_deref(), Some("1970-01-12"));
    assert_eq!(r.subject.as_deref(), Some("CN=s"));
    assert_eq!(r.issuer.as_deref(), Some("CN=i"));
}

#[test]
fn inspect_reads_a_certificate() {
    let r = inspect(&target(), &LEAF, LEAF_END - 10 * 86_400).unwrap();
    assert_eq!(r.status, Status::Days(10));
    assert_eq!(r.not_after.as_deref(), Some("2030-01-02"));
    assert_eq!(r.subject.as_deref(), Some("CN=example.com"));
    assert_eq!(r.issuer.as_deref(), Some("C=US, O=Let's Encrypt, CN=R11"));
    assert_eq!(
        r.renewal_hint(),
        "run certbot renew (or your ACME client) on the server"
    );
    let r = inspect(&target(), &LEAF, LEAF_END + 86_400).unwrap();
    assert_eq!(r.status, Status::Days(-1));
}

#[test]
fn inspect_keeps_the_time_zone_of_the_date() {
    let end = 1_893_535_200;
    let r = inspect(&target(), &LEAF_WITH_OFFSET, end - 86_400).unwrap();
    assert_eq!(r.status, Status::Days(1));
    let r = inspect(&target(), &LEAF_WITH_OFFSET, end - 86_399).unwrap();
    assert_eq!(r.status, Status::Days(0));
    assert_eq!(r.not_after.as_deref(), Some("2030-01-02"));
}

#[test]
fn inspect_rejects_what_is_no_certificate() {
    let message = inspect(&target(), &LEAF[1..], 0).unwrap_err();
    assert!(!message.is_empty());
    assert!(inspect(&target(), &[], 0).is_err());
    assert!(inspect(&target(), &LEAF[..100], 0).is_err());
}

#[test]
fn check_chain_looks_at_the_first_certificate() {
    let chain = Some(vec![LEAF.to_vec(), vec![1, 2, 3]]);
    let r = check_chain_at(&target(), &chain, LEAF_END - 86_400).unwrap();
    assert_eq!(r.status, Status::Days(1));
    let chain = Some(vec![vec![1, 2, 3], LEAF.to_vec()]);
    let failure = check_chain_at(&target(), &chain, 0).unwrap_err();
    assert!(failure.message().starts_with("failed to parse certificate: "));
}

#[test]
fn check_chain_needs_a_certificate() {
    let r = conclude(&target(), check_chain(&target(), &None));
    assert_eq!(r.status, Status::Error("server presented no certificate".to_string()));
    let r = conclude(&target(), check_chain(&target(), &Some(Vec::new())));
    assert_eq!(r.status, Status::Error("empty certificate chain".to_string()));
    assert_eq!(r.not_after, None);
    assert_eq!(r.subject, None);
    assert_eq!(r.issuer, None);
    assert_eq!(r.target.address(), "example.com:8443");
}

#[test]
fn check_chain_reads_the_clock() {
    let chain = Some(vec![LEAF.to_vec()]);
    let now = std::time::SystemTime::now()
        .duration_since(std::time::UNIX_EPOCH)
        .unwrap()
        .as_secs() as i64;
    let r = conclude(&target(), check_chain(&target(), &chain));
    let expected = (LEAF_END - now) / 86_400;
    match r.status {
        Status::Days(days) => assert!(days == expected || days == expected - 1),
        Status::Error(message) => panic!("{}", message),
    }
}

#[test]
fn failures_are_worded() {
    let e = || "why".to_string();
    assert_eq!(CheckFailure::Lookup(e()).message(), "DNS lookup failed: why");
    assert_eq!(CheckFailure::NoAddress.message(), "DNS lookup returned no addresses");
    assert_eq!(CheckFailure::Connect(e()).message(), "connect failed: why");
    assert_eq!(CheckFailure::ServerName(e()).message(), "invalid hostname for SNI: why");
    assert_eq!(CheckFailure::Session(e()).message(), "failed to start TLS session: why");
    assert_eq!(CheckFailure::Handshake(e()).message(), "TLS handshake failed: why");
    assert_eq!(CheckFailure::NoCertificate.message(), "server presented no certificate");
    assert_eq!(CheckFailure::EmptyChain.message(), "empty certificate chain");
    assert_eq!(CheckFailure::Certificate(e()).message(), "failed to parse certificate: why");
}

#[test]
fn server_name_takes_names_and_addresses() {
    assert_eq!(server_name("example.com").unwrap(), "example.com");
    assert_eq!(server_name("127.0.0.1").unwrap(), "127.0.0.1");
    assert_eq!(server_name("0:0:0:0:0:0:0:1").unwrap(), "::1");
    for host in ["", "[::1]", "a b", "-a.com"] {
        let failure = server_name(host).unwrap_err();
        assert_eq!(failure.message(), "invalid hostname for SNI: invalid dns name");
    }
}
