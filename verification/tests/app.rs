use certmonitor::app::{detail, status_line, Action, App, Input, Key, RowColor, Session};
use certmonitor::scan::{CertResult, Status};
use certmonitor::target::Target;

const SECOND: u64 = 1_000_000_000;

fn finding(host: &str, status: Status) -> CertResult {
    CertResult {
        target: Target { host: host.to_string(), port: 443 },
        status,
        not_after: None,
        subject: None,
        issuer: None,
    }
}

fn app(n: i64) -> App {
    let mut app = App::new(30, 7);
    app.set_results((0..n).map(|i| finding("h", Status::Days(i))).collect(), 5 * SECOND);
    app
}

#[test]
fn starts_empty() {
    let app = App::new(30, 7);
    assert!(app.results.is_empty());
    assert_eq!(app.selected, None);
    assert_eq!(app.last_scan, None);
    assert_eq!(app.show_detail, None);
    assert_eq!((app.warn_days, app.critical_days), (30, 7));
}

#[test]
fn first_results_select_the_first_row() {
    let mut app = App::new(30, 7);
    app.set_results(Vec::new(), 1);
    assert_eq!(app.selected, None);
    app.set_results(vec![finding("a", Status::Days(1))], 2);
    assert_eq!(app.selected, Some(0));
    assert_eq!(app.last_scan, Some(2));
}

#[test]
fn later_results_keep_the_selection() {
    let mut app = app(3);
    app.move_selection(true);
    app.set_results((0..3).map(|i| finding("x", Status::Days(i))).collect(), 9);
    assert_eq!(app.selected, Some(1));
    assert_eq!(app.results[0].target.host, "x");
}

#[test]
fn selection_wraps_around() {
    let mut app = app(3);
    app.move_selection(false);
    assert_eq!(app.selected, Some(2));
    app.move_selection(true);
    assert_eq!(app.selected, Some(0));
    app.move_selection(true);
    assert_eq!(app.selected, Some(1));
    app.selected = None;
    app.move_selection(true);
    assert_eq!(app.selected, Some(1));
    let mut empty = App::new(30, 7);
    empty.move_selection(true);
    assert_eq!(empty.selected, None);
}

#[test]
fn keys_do_what_the_header_says() {
    let mut app = app(3);
    assert_eq!(app.handle(Input::Press(Key::Down), false), Action::Proceed);
    assert_eq!(app.selected, Some(1));
    assert_eq!(app.handle(Input::Press(Key::Up), false), Action::Proceed);
    assert_eq!(app.selected, Some(0));
    assert_eq!(app.handle(Input::Press(Key::Char('q')), false), Action::Quit);
    assert_eq!(app.handle(Input::Press(Key::Esc), true), Action::Quit);
    assert_eq!(app.handle(Input::Press(Key::Char('r')), false), Action::Scan);
    assert_eq!(app.handle(Input::Press(Key::Char('r')), true), Action::Proceed);
    assert_eq!(app.handle(Input::Press(Key::Char('x')), false), Action::Proceed);
    assert_eq!(app.handle(Input::Press(Key::Other), false), Action::Proceed);
    assert_eq!(app.handle(Input::NoPress, false), Action::Redraw);
    assert_eq!(app.handle(Input::Nothing, false), Action::Proceed);
}

#[test]
fn any_key_closes_the_popup() {
    for key in [Key::Char('q'), Key::Char('r'), Key::Esc, Key::Down, Key::Enter, Key::Other] {
        let mut app = app(3);
        assert_eq!(app.handle(Input::Press(Key::Enter), false), Action::Proceed);
        assert_eq!(app.show_detail, Some(0));
        assert_eq!(app.detailed_result().unwrap().status, Status::Days(0));
        assert_eq!(app.handle(Input::NoPress, false), Action::Redraw);
        assert_eq!(app.show_detail, Some(0));
        assert_eq!(app.handle(Input::Press(key), false), Action::Redraw);
        assert_eq!(app.show_detail, None);
        assert!(app.detailed_result().is_none());
        assert_eq!(app.selected, Some(0));
    }
}

#[test]
fn the_popup_needs_a_finding() {
    let mut app = app(1);
    app.show_detail = Some(4);
    assert!(app.detailed_result().is_none());
}

#[test]
fn scans_fall_due() {
    let app = app(1);
    assert!(app.scan_due(false, Some(10), 15 * SECOND));
    assert!(!app.scan_due(false, Some(10), 15 * SECOND - 1));
    assert!(!app.scan_due(true, Some(10), 15 * SECOND));
    assert!(!app.scan_due(false, None, u64::MAX));
    assert!(!app.scan_due(false, Some(u64::MAX), u64::MAX));
    assert!(app.scan_due(false, Some(0), 0));
    assert!(!App::new(30, 7).scan_due(false, Some(0), 15 * SECOND));
}

#[test]
fn a_round_handles_the_input_first() {
    let due = 100 * SECOND;
    let mut app = app(2);
    assert_eq!(app.step(Input::Nothing, false, Some(10), due), Action::Scan);
    assert_eq!(app.step(Input::Nothing, true, Some(10), due), Action::Redraw);
    assert_eq!(app.step(Input::Nothing, false, Some(10), 6 * SECOND), Action::Redraw);
    assert_eq!(app.step(Input::NoPress, false, Some(10), due), Action::Redraw);
    assert_eq!(app.step(Input::Press(Key::Char('q')), false, Some(10), due), Action::Quit);
    assert_eq!(app.step(Input::Press(Key::Char('r')), false, None, due), Action::Scan);
    assert_eq!(app.step(Input::Press(Key::Down), false, Some(10), due), Action::Scan);
    assert_eq!(app.selected, Some(1));
    assert_eq!(app.step(Input::Press(Key::Enter), false, None, due), Action::Redraw);
    assert_eq!(app.step(Input::Press(Key::Char('q')), false, Some(10), due), Action::Redraw);
    assert_eq!(app.show_detail, None);
}

#[test]
fn rows_are_colored_by_severity() {
    let app = App::new(30, 7);
    assert_eq!(app.row_color(&finding("a", Status::Days(6))), RowColor::Red);
    assert_eq!(app.row_color(&finding("a", Status::Error(String::new()))), RowColor::Red);
    assert_eq!(app.row_color(&finding("a", Status::Days(7))), RowColor::Yellow);
    assert_eq!(app.row_color(&finding("a", Status::Days(30))), RowColor::Green);
}

#[test]
fn rows_hold_five_cells() {
    let mut app = App::new(30, 7);
    let known = CertResult {
        not_after: Some("2030-01-02".to_string()),
        subject: Some("CN=s".to_string()),
        issuer: Some("O=ZeroSSL".to_string()),
        ..finding("a", Status::Days(-2))
    };
    let failed = finding("b", Status::Error("no route".to_string()));
    app.set_results(vec![known, failed, finding("c", Status::Days(50))], 0);
    let rows = app.rows();
    assert_eq!(rows.len(), 3);
    assert_eq!(rows[0].color, RowColor::Red);
    assert_eq!(rows[0].days, "expired 2d ago");
    assert_eq!(rows[0].target, "a:443");
    assert_eq!(rows[0].expires, "2030-01-02");
    assert_eq!(rows[0].issuer, "O=ZeroSSL");
    assert_eq!(rows[0].hint, "renew via your ACME client (ZeroSSL)");
    assert_eq!(rows[1].days, "-");
    assert_eq!(rows[1].expires, "");
    assert_eq!(rows[1].issuer, "no route");
    assert_eq!(rows[1].hint, "fix connectivity first");
    assert_eq!(rows[2].issuer, "");
    assert_eq!(rows[2].color, RowColor::Green);
}

#[test]
fn header_counts_and_shows_progress() {
    let mut app = App::new(30, 7);
    app.set_results(
        vec![
            finding("a", Status::Days(1)),
            finding("b", Status::Days(10)),
            finding("c", Status::Days(11)),
        ],
        0,
    );
    assert_eq!(
        app.header(None, 3),
        "certmonitor — 3 targets, 1 critical, 2 warning   ↑/↓: select, Enter: details, r: rescan, q: quit"
    );
    assert_eq!(
        app.header(Some(2), 3),
        "certmonitor — 3 targets, 1 critical, 2 warning (rescanning 2/3...)   ↑/↓: select, Enter: details, r: rescan, q: quit"
    );
}

#[test]
fn status_line_tells_the_age() {
    assert_eq!(status_line(&None), "");
    assert_eq!(status_line(&Some("12".to_string())), "Last scan: 12s ago");
}

#[test]
fn popup_describes_a_certificate() {
    let result = CertResult {
        not_after: Some("2030-01-02".to_string()),
        subject: Some("CN=s".to_string()),
        issuer: Some("CN=s".to_string()),
        ..finding("a", Status::Days(9))
    };
    assert_eq!(
        detail(&result),
        "a:443\n\n9 days left\nExpires:  2030-01-02\nSubject:  CN=s\nIssuer:   CN=s\n\n\
         Hint: self-signed: regenerate manually\n\nany key: close"
    );
    assert_eq!(
        detail(&finding("a", Status::Days(-9))),
        "a:443\n\nExpired 9 days ago\nExpires:  -\nSubject:  -\nIssuer:   -\n\nHint: -\n\nany key: close"
    );
}

#[test]
fn popup_describes_a_failure() {
    assert_eq!(
        detail(&finding("a", Status::Error("no route".to_string()))),
        "a:443\n\nCheck failed\nError: no route\n\nany key: close"
    );
}

#[test]
fn moves_go_round() {
    for n in 1..=6usize {
        for start in 0..n {
            for forward in [true, false] {
                let mut app = app(n as i64);
                app.selected = Some(start);
                let mut seen = Vec::new();
                for _ in 0..n {
                    seen.push(app.selected.unwrap());
                    app.move_selection(forward);
                }
                assert_eq!(app.selected, Some(start));
                seen.sort();
                assert_eq!(seen, (0..n).collect::<Vec<usize>>());
            }
        }
    }
}

#[test]
fn a_session_runs_one_scan_at_a_time() {
    let r = Input::Press(Key::Char('r'));
    let mut session = Session::new(app(2));
    assert!(!session.scanning);
    assert_eq!(session.step(r, Some(10), 6 * SECOND), Action::Scan);
    assert!(session.scanning);
    assert_eq!(session.step(r, Some(10), 7 * SECOND), Action::Redraw);
    assert_eq!(session.step(Input::Nothing, Some(10), 99 * SECOND), Action::Redraw);
    session.finish_scan(vec![finding("new", Status::Days(1))], 100 * SECOND);
    assert!(!session.scanning);
    assert_eq!(session.app.results.len(), 1);
    assert_eq!(session.app.results[0].target.host, "new");
    assert_eq!(session.app.last_scan, Some(100 * SECOND));
    assert_eq!(session.step(Input::Nothing, Some(10), 109 * SECOND), Action::Redraw);
    assert_eq!(session.step(Input::Nothing, Some(10), 110 * SECOND), Action::Scan);
    assert!(session.scanning);
    assert_eq!(session.step(Input::Press(Key::Esc), Some(10), 111 * SECOND), Action::Quit);
}

#[test]
fn scans_started_and_finished_differ_by_one_at_most() {
    let inputs = [
        Input::Nothing,
        Input::NoPress,
        Input::Press(Key::Char('r')),
        Input::Press(Key::Enter),
        Input::Press(Key::Down),
        Input::Press(Key::Char('x')),
    ];
    let mut session = Session::new(app(3));
    let (mut started, mut finished, mut state) = (0u64, 0u64, 7u64);
    for now in 5..2000 {
        state = state.wrapping_mul(6364136223846793005).wrapping_add(1442695040888963407);
        if session.scanning && (state >> 40) % 3 == 0 {
            finished += 1;
            session.finish_scan(vec![finding("h", Status::Days(finished as i64))], now * SECOND);
            assert_eq!(session.app.results[0].status, Status::Days(finished as i64));
        }
        let input = inputs[(state >> 33) as usize % inputs.len()];
        if session.step(input, Some(20), now * SECOND) == Action::Scan {
            started += 1;
        }
        assert_eq!(started - finished, session.scanning as u64);
    }
    assert!(finished > 50);
}
