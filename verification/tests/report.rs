use certmonitor::report::{render_report, report_rows, status_cell};
use certmonitor::scan::{CertResult, Severity, Status};
use certmonitor::target::Target;

fn finding(host: &str, port: u16, status: Status) -> CertResult {
    CertResult {
        target: Target { host: host.to_string(), port },
        status,
        not_after: None,
        subject: None,
        issuer: None,
    }
}

fn sample() -> Vec<CertResult> {
    vec![
        CertResult {
            not_after: Some("2020-01-01".to_string()),
            subject: Some("CN=a".to_string()),
            issuer: Some("CN=a".to_string()),
            ..finding("a", 443, Status::Days(-12))
        },
        finding("example.com", 8443, Status::Days(20)),
        finding("b\u{e9}", 1, Status::Days(100)),
        finding("c", 2, Status::Error("DNS lookup failed: no".to_string())),
    ]
}

#[test]
fn report_is_aligned() {
    let expected = "STATUS   TARGET           DAYS LEFT       EXPIRES    HINT\n\
                    CRITICAL a:443            expired 12d ago 2020-01-01 self-signed: regenerate manually\n\
                    WARNING  example.com:8443 20d             -          -\n\
                    OK       b\u{e9}:1             100d            -          -\n\
                    CRITICAL c:2              -               -          DNS lookup failed: no\n\
                    \n\
                    4 targets checked: 2 critical, 1 warning, 1 ok\n";
    assert_eq!(render_report(&sample(), 30, 7, false), expected);
}

#[test]
fn report_of_nothing_has_titles() {
    assert_eq!(
        render_report(&Vec::new(), 30, 7, false),
        "STATUS   TARGET DAYS LEFT EXPIRES HINT\n\n0 targets checked: 0 critical, 0 warning, 0 ok\n"
    );
}

#[test]
fn report_width_counts_bytes() {
    let results = vec![finding("\u{e9}\u{e9}\u{e9}\u{e9}", 1, Status::Days(100))];
    let report = render_report(&results, 30, 7, false);
    let target_w = "\u{e9}\u{e9}\u{e9}\u{e9}:1".len();
    assert_eq!(target_w, 10);
    assert!(report.starts_with(&format!("STATUS   {:<target_w$} DAYS LEFT", "TARGET")));
    assert!(report.contains(&format!("OK       {:<target_w$} 100d ", "\u{e9}\u{e9}\u{e9}\u{e9}:1")));
}

#[test]
fn report_is_colored_for_terminals_only() {
    let plain = render_report(&sample(), 30, 7, false);
    let colored = render_report(&sample(), 30, 7, true);
    assert!(!plain.contains('\u{1b}'));
    assert!(colored.contains("\u{1b}[31mCRITICAL\u{1b}[0m a:443 "));
    assert!(colored.contains("\u{1b}[33mWARNING \u{1b}[0m example.com:8443 "));
    assert!(colored.contains("\u{1b}[32mOK      \u{1b}[0m b\u{e9}:1 "));
    let stripped = colored
        .replace("\u{1b}[31m", "")
        .replace("\u{1b}[32m", "")
        .replace("\u{1b}[33m", "")
        .replace("\u{1b}[0m", "");
    assert_eq!(stripped, plain);
}

#[test]
fn rows_hold_the_cells() {
    let rows = report_rows(&sample(), 30, 7);
    assert_eq!(rows.len(), 4);
    assert_eq!(rows[3].severity, Severity::Critical);
    assert_eq!(rows[3].target, "c:2");
    assert_eq!(rows[3].days, "-");
    assert_eq!(rows[3].expires, "-");
    assert_eq!(rows[3].hint, "DNS lookup failed: no");
    assert_eq!(status_cell(Severity::Okay, false), "OK      ");
}
