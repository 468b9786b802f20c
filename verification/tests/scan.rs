use certmonitor::scan::{
    count_severity, exit_code, issuer_hint, rank_results, severity, CertResult, Severity, Status,
};
use certmonitor::target::Target;

fn found(host: &str, status: Status) -> CertResult {
    CertResult {
        target: Target { host: host.to_string(), port: 443 },
        status,
        not_after: None,
        subject: None,
        issuer: None,
    }
}

fn days(host: &str, n: i64) -> CertResult {
    found(host, Status::Days(n))
}

fn failed(host: &str) -> CertResult {
    found(host, Status::Error("connect failed: refused".to_string()))
}

fn issued(subject: &str, issuer: &str) -> CertResult {
    CertResult {
        subject: Some(subject.to_string()),
        issuer: Some(issuer.to_string()),
        ..days("h", 10)
    }
}

#[test]
fn severity_follows_the_thresholds() {
    assert_eq!(severity(&days("h", 30), 30, 7), Severity::Okay);
    assert_eq!(severity(&days("h", 29), 30, 7), Severity::Warning);
    assert_eq!(severity(&days("h", 7), 30, 7), Severity::Warning);
    assert_eq!(severity(&days("h", 6), 30, 7), Severity::Critical);
    assert_eq!(severity(&days("h", -1), -10, -10), Severity::Critical);
    assert_eq!(severity(&days("h", 0), 0, 0), Severity::Okay);
    assert_eq!(severity(&failed("h"), 0, 0), Severity::Critical);
}

#[test]
fn severity_is_ordered_and_labelled() {
    assert!(Severity::Okay < Severity::Warning);
    assert!(Severity::Warning < Severity::Critical);
    assert_eq!(Severity::Okay.label(), "OK");
    assert_eq!(Severity::Warning.label(), "WARNING");
    assert_eq!(Severity::Critical.label(), "CRITICAL");
}

#[test]
fn renewal_hint_starts_with_connectivity() {
    assert_eq!(failed("h").renewal_hint(), "fix connectivity first");
    let result = CertResult { status: Status::Error(String::new()), ..issued("a", "a") };
    assert_eq!(result.renewal_hint(), "fix connectivity first");
}

#[test]
fn renewal_hint_needs_both_names() {
    assert_eq!(days("h", 1).renewal_hint(), "-");
    assert_eq!(CertResult { subject: None, ..issued("a", "b") }.renewal_hint(), "-");
    assert_eq!(CertResult { issuer: None, ..issued("a", "b") }.renewal_hint(), "-");
}

#[test]
fn renewal_hint_knows_issuers() {
    assert_eq!(issued("CN=x", "CN=x").renewal_hint(), "self-signed: regenerate manually");
    let acme = "run certbot renew (or your ACME client) on the server";
    assert_eq!(issued("CN=x", "C=US, O=Let's Encrypt, CN=R11").renewal_hint(), acme);
    assert_eq!(issued("CN=x", "O=LETS ENCRYPT").renewal_hint(), acme);
    assert_eq!(
        issued("CN=x", "O=ZeroSSL, CN=\u{c9}").renewal_hint(),
        "renew via your ACME client (ZeroSSL)"
    );
    assert_eq!(issued("CN=x", "O=DigiCert Inc").renewal_hint(), "renew through the issuing CA");
}

#[test]
fn issuer_hint_expects_lower_case() {
    assert_eq!(issuer_hint("o=zerossl"), "renew via your ACME client (ZeroSSL)");
    assert_eq!(issuer_hint("O=ZeroSSL"), "renew through the issuing CA");
    assert_eq!(issuer_hint(""), "renew through the issuing CA");
}

#[test]
fn days_are_written_short() {
    assert_eq!(Status::Days(0).days_text(), "0d");
    assert_eq!(Status::Days(123).days_text(), "123d");
    assert_eq!(Status::Days(-40).days_text(), "expired 40d ago");
    assert_eq!(Status::Days(i64::MAX).days_text(), "9223372036854775807d");
    assert_eq!(Status::Error("x".to_string()).days_text(), "-");
}

#[test]
fn remark_is_the_failure_or_the_hint() {
    assert_eq!(failed("h").remark(), "connect failed: refused");
    assert_eq!(issued("CN=x", "CN=x").remark(), "self-signed: regenerate manually");
    assert_eq!(days("h", 3).expires(), "-");
    let dated = CertResult { not_after: Some("2030-01-02".to_string()), ..days("h", 3) };
    assert_eq!(dated.clone().expires(), "2030-01-02");
}

#[test]
fn ranking_puts_the_soonest_first_and_failures_last() {
    let results = vec![failed("f1"), days("b", 5), days("a", -3), failed("f2"), days("c", 5)];
    let ranked = rank_results(results);
    let hosts: Vec<&str> = ranked.iter().map(|r| r.target.host.as_str()).collect();
    assert_eq!(hosts, vec!["a", "b", "c", "f1", "f2"]);
    assert!(rank_results(Vec::new()).is_empty());
}

#[test]
fn ranking_is_the_stable_sort() {
    let mut results: Vec<CertResult> = Vec::new();
    for i in 0..60i64 {
        let host = format!("h{}", i);
        if i % 7 == 3 {
            results.push(failed(&host));
        } else {
            results.push(days(&host, (i * 37) % 11 - 4));
        }
    }
    let mut expected = results.clone();
    expected.sort_by_key(|r| match &r.status {
        Status::Days(days) => *days,
        Status::Error(_) => i64::MAX,
    });
    let ranked = rank_results(results);
    for (a, b) in ranked.iter().zip(expected.iter()) {
        assert_eq!(a.target.host, b.target.host);
        assert_eq!(a.status, b.status);
    }
    assert_eq!(ranked.len(), expected.len());
}

#[test]
fn exit_code_is_that_of_the_worst_finding() {
    assert_eq!(exit_code(&Vec::new(), 30, 7), 0);
    assert_eq!(exit_code(&vec![days("a", 100)], 30, 7), 0);
    assert_eq!(exit_code(&vec![days("a", 100), days("b", 20)], 30, 7), 1);
    assert_eq!(exit_code(&vec![days("a", 20), days("b", 1)], 30, 7), 2);
    assert_eq!(exit_code(&vec![days("a", -1)], 30, 7), 2);
    assert_eq!(exit_code(&vec![days("a", 100), failed("b")], 30, 7), 2);
}

#[test]
fn counts_add_up() {
    let results = vec![days("a", 100), failed("b"), days("c", 20), days("d", 1), days("e", 31)];
    assert_eq!(count_severity(&results, 30, 7, Severity::Okay), 2);
    assert_eq!(count_severity(&results, 30, 7, Severity::Warning), 1);
    assert_eq!(count_severity(&results, 30, 7, Severity::Critical), 2);
}

#[test]
fn exit_code_only_grows_and_ignores_the_order() {
    let all = vec![days("a", 40), days("b", 20), days("c", 3), failed("d")];
    let mut last = 0;
    for n in 0..=all.len() {
        let code = exit_code(&all[..n].to_vec(), 30, 7);
        assert!(code >= last);
        last = code;
    }
    assert_eq!(last, 2);
    let one = vec![days("b", 20)];
    assert_eq!(exit_code(&one, 20, 7), 0);
    assert_eq!(exit_code(&one, 21, 7), 1);
    assert_eq!(exit_code(&one, 21, 20), 1);
    assert_eq!(exit_code(&one, 21, 21), 2);
    let mixed = vec![days("a", 40), days("b", 20), days("e", 50)];
    for shift in 0..mixed.len() {
        let mut turned = mixed.clone();
        turned.rotate_left(shift);
        assert_eq!(exit_code(&turned, 30, 7), 1);
    }
}

#[test]
fn renewal_hint_knows_issuers_beside_any_character() {
    let acme = "run certbot renew (or your ACME client) on the server";
    let zerossl = "renew via your ACME client (ZeroSSL)";
    for n in 0..=0x10ffffu32 {
        if let Some(c) = char::from_u32(n) {
            assert_eq!(issued("x", &format!("{c}LET'S Encrypt{c}")).renewal_hint(), acme);
            assert_eq!(issued("x", &format!("{c}ZeroSSL{c}")).renewal_hint(), zerossl);
        }
    }
    assert_eq!(issued("x", "\u{3a3}Lets encrypT\u{3a3} zerossl").renewal_hint(), acme);
}
