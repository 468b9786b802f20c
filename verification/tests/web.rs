use certmonitor::scan::{CertResult, Status};
use certmonitor::target::Target;
use certmonitor::web::{html_escape, render_page, render_row};

fn finding(host: &str, status: Status) -> CertResult {
    CertResult {
        target: Target { host: host.to_string(), port: 443 },
        status,
        not_after: None,
        subject: None,
        issuer: None,
    }
}

#[test]
fn escape_replaces_three_characters() {
    assert_eq!(html_escape("a<b>&c"), "a&lt;b&gt;&amp;c");
    assert_eq!(html_escape("&lt;"), "&amp;lt;");
    assert_eq!(html_escape("\"'\u{e9}"), "\"'\u{e9}");
    assert_eq!(html_escape(""), "");
}

#[test]
fn escape_is_three_replacements() {
    for s in ["<<>>&&", "&amp;<x>", "plain", "&<>&<>;lt;gt"] {
        let expected = s.replace('&', "&amp;").replace('<', "&lt;").replace('>', "&gt;");
        assert_eq!(html_escape(s), expected);
    }
}

#[test]
fn row_shows_a_finding() {
    let result = CertResult {
        not_after: Some("2030-01-02".to_string()),
        subject: Some("CN=a".to_string()),
        issuer: Some("O=Let's Encrypt".to_string()),
        ..finding("<a>", Status::Days(20))
    };
    assert_eq!(
        render_row(&result, 30, 7),
        "<tr style=\"color:#9a6700\"><td>WARNING</td><td>&lt;a&gt;:443</td><td>20d</td>\
         <td>2030-01-02</td><td>run certbot renew (or your ACME client) on the server</td></tr>\n"
    );
    assert_eq!(
        render_row(&finding("b", Status::Error("no & no".to_string())), 30, 7),
        "<tr style=\"color:#cf222e\"><td>CRITICAL</td><td>b:443</td><td>-</td>\
         <td>-</td><td>no & no</td></tr>\n"
    );
    assert_eq!(
        render_row(&finding("c", Status::Days(31)), 30, 7),
        "<tr style=\"color:#1a7f37\"><td>OK</td><td>c:443</td><td>31d</td>\
         <td>-</td><td>-</td></tr>\n"
    );
}

#[test]
fn page_is_complete() {
    let results = vec![finding("a", Status::Days(-1)), finding("b", Status::Days(10))];
    let rows: String = results.iter().map(|r| render_row(r, 30, 7)).collect();
    let interval = 300;
    let (critical, warning) = (1, 1);
    let scanned_note = "last scan 12s ago";
    let expected = format!(
        r#"<!doctype html>
<html>
<head>
<meta charset="utf-8">
<meta http-equiv="refresh" content="{interval}">
<title>certmonitor</title>
<style>
  body {{ font-family: monospace; background: #0d1117; color: #e6edf3; padding: 1.5rem; }}
  h1 {{ font-size: 1.1rem; font-weight: normal; }}
  table {{ border-collapse: collapse; width: 100%; }}
  th, td {{ text-align: left; padding: 0.3rem 0.8rem; border-bottom: 1px solid #30363d; }}
  th {{ color: #8b949e; font-weight: normal; }}
</style>
</head>
<body>
<h1>certmonitor — {} targets, {critical} critical, {warning} warning ({scanned_note})</h1>
<table>
<tr><th>Status</th><th>Target</th><th>Days Left</th><th>Expires</th><th>Hint</th></tr>
{rows}</table>
</body>
</html>
"#,
        results.len(),
    );
    assert_eq!(render_page(&results, &Some("12".to_string()), 30, 7, interval), expected);
}

#[test]
fn page_before_the_first_scan() {
    let page = render_page(&Vec::new(), &None, 30, 7, 60);
    assert!(page.contains("0 targets, 0 critical, 0 warning (scanning...)"));
    assert!(page.contains("content=\"60\""));
    assert!(!page.contains("<td>"));
}

#[test]
fn escape_goes_over_joining() {
    for (a, b) in [("a<", "b>&"), ("&am", "p;"), ("", "<"), (">", "")] {
        assert_eq!(html_escape(&format!("{a}{b}")), html_escape(a) + &html_escape(b));
    }
}

#[test]
fn a_host_shows_only_in_its_cell() {
    let page = |host: &str| {
        let results = vec![
            finding("a", Status::Days(-1)),
            finding(host, Status::Days(10)),
            finding("c", Status::Error("no".to_string())),
        ];
        render_page(&results, &None, 30, 7, 300)
    };
    let plain = page("b");
    assert_eq!(plain.matches("<td>b:443</td>").count(), 1);
    assert_eq!(
        page("<i>&</i>"),
        plain.replace("<td>b:443</td>", "<td>&lt;i&gt;&amp;&lt;/i&gt;:443</td>")
    );
}
