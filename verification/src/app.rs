//! The terminal interface: its state, what a key does to it, and what it shows.
use vstd::prelude::*;
use vstd::string::*;
use crate::scan;
use crate::scan::{CertResult, CertView, Severity, Status, StatusView};
use crate::text;

verus! {

/// The state of the terminal interface.
#[derive(Debug)]
pub struct App {
    pub results: Vec<CertResult>,
    /// The selected row of the table, if there is one.
    pub selected: Option<usize>,
    pub warn_days: i64,
    pub critical_days: i64,
    /// When the last scan ended, in nanoseconds on a clock that only runs forward.
    pub last_scan: Option<u64>,
    /// The finding that the detail popup shows, while it is open.
    pub show_detail: Option<usize>,
}

/// The colors of the table.
#[derive(Debug, Clone, Copy, PartialEq, Eq, Structural)]
pub enum RowColor {
    Red,
    Yellow,
    Green,
}

/// A key of the keyboard, as far as the interface tells them apart.
#[derive(Debug, Clone, Copy, PartialEq, Eq, Structural)]
pub enum Key {
    Char(char),
    Esc,
    Up,
    Down,
    Enter,
    Other,
}

/// What the terminal reported while the interface waited.
#[derive(Debug, Clone, Copy, PartialEq, Eq, Structural)]
pub enum Input {
    /// No key event.
    Nothing,
    /// A key event other than a press: a release or a repetition.
    NoPress,
    Press(Key),
}

/// What the interface does next.
#[derive(Debug, Clone, Copy, PartialEq, Eq, Structural)]
pub enum Action {
    /// End the program.
    Quit,
    /// Start a scan.
    Scan,
    /// Draw again at once.
    Redraw,
    /// See whether a scan is due, then draw again.
    Proceed,
}

/// Nanoseconds in a second.
pub const NANOS_PER_SECOND: u128 = 1_000_000_000;

/// The row below `i` in a table of `len` rows, or the one above it; the ends are joined.
pub open spec fn neighbour(i: int, len: int, forward: bool) -> int {
    if forward {
        (i + 1) % len
    } else {
        (i + len - 1) % len
    }
}

/// The color of a severity.
pub open spec fn color_of(severity: Severity) -> RowColor {
    match severity {
        Severity::Critical => RowColor::Red,
        Severity::Warning => RowColor::Yellow,
        Severity::Okay => RowColor::Green,
    }
}

impl App {
    /// Whether the selection can be moved without leaving the range of the index.
    pub open spec fn movable(self) -> bool {
        self.selected matches Some(i) ==> i + self.results@.len() <= usize::MAX
    }

    /// Whether the selection, if there is one, is a row of the table.
    pub open spec fn selection_in_table(self) -> bool {
        self.selected matches Some(i) ==> i < self.results@.len()
    }

    /// The state after a scan that ended at the time `now`.
    pub open spec fn with_results(self, results: Vec<CertResult>, now: u64) -> App {
        App {
            results,
            last_scan: Some(now),
            selected: if self.selected is None && results@.len() > 0 {
                Some(0usize)
            } else {
                self.selected
            },
            ..self
        }
    }

    /// The state after the selection has moved.
    pub open spec fn moved(self, forward: bool) -> App {
        if self.results@.len() == 0 {
            self
        } else {
            let i = match self.selected {
                Some(i) => i as int,
                None => 0,
            };
            App {
                selected: Some(neighbour(i, self.results@.len() as int, forward) as usize),
                ..self
            }
        }
    }

    /// The state after the selection has moved `n` times.
    pub open spec fn moved_times(self, forward: bool, n: nat) -> App
        decreases n,
    {
        if n == 0 {
            self
        } else {
            self.moved_times(forward, (n - 1) as nat).moved(forward)
        }
    }

    /// Whether fewer moves than there are rows select the row.
    pub open spec fn comes_to(self, forward: bool, row: usize) -> bool {
        exists|n: nat|
            n < self.results@.len() && (#[trigger] self.moved_times(forward, n)).selected == Some(
                row,
            )
    }

    /// What an input does: the next state and action. `scanning` tells whether a scan is running.
    ///
    /// While the popup is open any key closes it, and does nothing else.
    pub open spec fn after(self, input: Input, scanning: bool) -> (App, Action) {
        match input {
            Input::Nothing => (self, Action::Proceed),
            Input::NoPress => (self, Action::Redraw),
            Input::Press(key) => if self.show_detail is Some {
                (App { show_detail: None, ..self }, Action::Redraw)
            } else {
                match key {
                    Key::Char(c) => if c == 'q' {
                        (self, Action::Quit)
                    } else if c == 'r' && !scanning {
                        (self, Action::Scan)
                    } else {
                        (self, Action::Proceed)
                    },
                    Key::Esc => (self, Action::Quit),
                    Key::Down => (self.moved(true), Action::Proceed),
                    Key::Up => (self.moved(false), Action::Proceed),
                    Key::Enter => (App { show_detail: self.selected, ..self }, Action::Proceed),
                    Key::Other => (self, Action::Proceed),
                }
            },
        }
    }

    /// Whether a scan is due at the time `now`: none is running, scans are to be repeated, and the
    /// last one ended `interval` seconds ago or earlier.
    pub open spec fn due(self, scanning: bool, interval: Option<u64>, now: u64) -> bool {
        &&& !scanning
        &&& interval is Some
        &&& self.last_scan is Some
        &&& (if now >= self.last_scan->Some_0 {
            now - self.last_scan->Some_0
        } else {
            0
        }) >= interval->Some_0 * NANOS_PER_SECOND
    }

    /// What one round of the interface does: the input is handled, and where that leaves it at
    /// that, a scan starts if one is due at the time `now`.
    pub open spec fn stepped(
        self,
        input: Input,
        scanning: bool,
        interval: Option<u64>,
        now: u64,
    ) -> (App, Action) {
        let (next, action) = self.after(input, scanning);
        if action == Action::Proceed {
            (next, if next.due(scanning, interval, now) { Action::Scan } else { Action::Redraw })
        } else {
            (next, action)
        }
    }

    /// The finding that the popup shows, if it is open.
    pub open spec fn detailed(self) -> Option<CertResult> {
        match self.show_detail {
            Some(i) => if i < self.results@.len() {
                Some(self.results@[i as int])
            } else {
                None
            },
            None => None,
        }
    }

    /// Starts the interface, with no findings yet.
    pub fn new(warn_days: i64, critical_days: i64) -> (r: App)
        ensures
            r.results@.len() == 0,
            r.selected is None,
            r.warn_days == warn_days,
            r.critical_days == critical_days,
            r.last_scan is None,
            r.show_detail is None,
    {
        App {
            results: Vec::new(),
            selected: None,
            warn_days,
            critical_days,
            last_scan: None,
            show_detail: None,
        }
    }

    /// Takes over the findings of a scan that ended at the time `now`, and selects the first one
    /// where none is selected.
    pub fn set_results(&mut self, results: Vec<CertResult>, now: u64)
        ensures
            *final(self) == old(self).with_results(results, now),
    {
        self.results = results;
        self.last_scan = Some(now);
        if self.selected.is_none() && self.results.len() > 0 {
            self.selected = Some(0);
        }
    }

    /// Moves the selection one row down (`forward`) or up, from one end of the table to the other.
    pub fn move_selection(&mut self, forward: bool)
        requires
            old(self).movable(),
        ensures
            *final(self) == old(self).moved(forward),
    {
        let len: usize = self.results.len();
        if len == 0 {
            return;
        }
        let i: usize = match self.selected {
            Some(i) => i,
            None => 0,
        };
        let next: usize = if forward {
            (i + 1) % len
        } else {
            (i + len - 1) % len
        };
        self.selected = Some(next);
    }

    /// Picks the color of a finding's row.
    pub fn row_color(&self, result: &CertResult) -> (r: RowColor)
        ensures
            r == color_of(scan::severity_of(*result, self.warn_days, self.critical_days)),
    {
        match scan::severity(result, self.warn_days, self.critical_days) {
            Severity::Critical => RowColor::Red,
            Severity::Warning => RowColor::Yellow,
            Severity::Okay => RowColor::Green,
        }
    }

    /// Handles an input and tells what to do next. `scanning` tells whether a scan is running.
    pub fn handle(&mut self, input: Input, scanning: bool) -> (r: Action)
        requires
            old(self).movable(),
        ensures
            (*final(self), r) == old(self).after(input, scanning),
    {
        let key: Key = match input {
            Input::Nothing => {
                return Action::Proceed;
            },
            Input::NoPress => {
                return Action::Redraw;
            },
            Input::Press(key) => key,
        };
        if self.show_detail.is_some() {
            self.show_detail = None;
            return Action::Redraw;
        }
        match key {
            Key::Char(c) => {
                if c == 'q' {
                    return Action::Quit;
                }
                if c == 'r' && !scanning {
                    return Action::Scan;
                }
            },
            Key::Esc => {
                return Action::Quit;
            },
            Key::Down => self.move_selection(true),
            Key::Up => self.move_selection(false),
            Key::Enter => {
                self.show_detail = self.selected;
            },
            Key::Other => {},
        }
        Action::Proceed
    }

    /// Tells whether a scan is due at the time `now`.
    pub fn scan_due(&self, scanning: bool, interval: Option<u64>, now: u64) -> (r: bool)
        ensures
            r == self.due(scanning, interval, now),
    {
        if scanning {
            return false;
        }
        match (interval, self.last_scan) {
            (Some(seconds), Some(last)) => {
                let elapsed: u64 = if now >= last {
                    now - last
                } else {
                    0
                };
                let wanted: u128 = seconds as u128 * NANOS_PER_SECOND;
                elapsed as u128 >= wanted
            },
            _ => false,
        }
    }

    /// Runs one round of the interface after its screen was drawn: handles the input, and tells
    /// whether to quit, to start a scan, or just to draw again.
    pub fn step(&mut self, input: Input, scanning: bool, interval: Option<u64>, now: u64) -> (r:
        Action)
        requires
            old(self).movable(),
        ensures
            (*final(self), r) == old(self).stepped(input, scanning, interval, now),
            r != Action::Proceed,
    {
        match self.handle(input, scanning) {
            Action::Quit => Action::Quit,
            Action::Scan => Action::Scan,
            Action::Redraw => Action::Redraw,
            Action::Proceed => {
                if self.scan_due(scanning, interval, now) {
                    Action::Scan
                } else {
                    Action::Redraw
                }
            },
        }
    }
}

/// The terminal interface together with its scans in the background, of which one can be running.
#[derive(Debug)]
pub struct Session {
    pub app: App,
    /// Whether a scan is running.
    pub scanning: bool,
}

impl Session {
    /// The session after its scan ended at the time `now`.
    pub open spec fn with_results(self, results: Vec<CertResult>, now: u64) -> Session {
        Session { app: self.app.with_results(results, now), scanning: false }
    }

    /// What one round does: the next state and action. Where the action is to scan, a scan is
    /// running from there on.
    pub open spec fn stepped(self, input: Input, interval: Option<u64>, now: u64) -> (
        Session,
        Action,
    ) {
        let (app, action) = self.app.stepped(input, self.scanning, interval, now);
        (Session { app, scanning: self.scanning || action == Action::Scan }, action)
    }

    /// Starts a session, with no scan running.
    pub fn new(app: App) -> (r: Session)
        ensures
            r == (Session { app, scanning: false }),
    {
        Session { app, scanning: false }
    }

    /// Takes over the findings of the running scan, which ended at the time `now`.
    pub fn finish_scan(&mut self, results: Vec<CertResult>, now: u64)
        requires
            old(self).scanning,
        ensures
            *final(self) == old(self).with_results(results, now),
    {
        self.app.set_results(results, now);
        self.scanning = false;
    }

    /// Handles the input of one round, and tells whether to quit, to start a scan, or just to draw
    /// again. A scan that it tells to start counts as running.
    pub fn step(&mut self, input: Input, interval: Option<u64>, now: u64) -> (r: Action)
        requires
            old(self).app.movable(),
        ensures
            (*final(self), r) == old(self).stepped(input, interval, now),
            r != Action::Proceed,
    {
        let action: Action = self.app.step(input, self.scanning, interval, now);
        if action == Action::Scan {
            self.scanning = true;
        }
        action
    }
}

/// What can happen to a session.
pub enum Event {
    /// The running scan ended with these findings, at this time.
    Finished(Vec<CertResult>, u64),
    /// The table was drawn, which can move the selection.
    Drawn(Option<usize>),
    /// A round began with this input, at this time.
    Round(Input, u64),
}

/// How far a session has come.
pub struct History {
    pub session: Session,
    /// The number of scans that were started.
    pub started: nat,
    /// The findings that were taken over, one entry for each scan.
    pub taken: Seq<Vec<CertResult>>,
    /// Whether the session has ended.
    pub over: bool,
}

impl History {
    /// A session at its start.
    pub open spec fn start(session: Session) -> History {
        History { session, started: 0, taken: Seq::empty(), over: false }
    }

    /// Whether the event can come next: nothing comes after the end, and a scan that ends was
    /// running.
    pub open spec fn allows(self, event: Event) -> bool {
        !self.over && (event is Finished ==> self.session.scanning)
    }

    /// What an event makes of the history.
    pub open spec fn extended(self, event: Event, interval: Option<u64>) -> History {
        match event {
            Event::Finished(results, now) => History {
                session: self.session.with_results(results, now),
                taken: self.taken.push(results),
                ..self
            },
            Event::Drawn(selected) => History {
                session: Session { app: App { selected, ..self.session.app }, ..self.session },
                ..self
            },
            Event::Round(input, now) => {
                let (session, action) = self.session.stepped(input, interval, now);
                History {
                    session,
                    started: if action == Action::Scan {
                        self.started + 1
                    } else {
                        self.started
                    },
                    over: action == Action::Quit,
                    ..self
                }
            },
        }
    }
}

/// The history of a session through a sequence of events.
pub open spec fn history(session: Session, events: Seq<Event>, interval: Option<u64>) -> History
    decreases events.len(),
{
    if events.len() == 0 {
        History::start(session)
    } else {
        history(session, events.drop_last(), interval).extended(events.last(), interval)
    }
}

/// Whether the events can come in this order.
pub open spec fn can_happen(session: Session, events: Seq<Event>, interval: Option<u64>) -> bool
    decreases events.len(),
{
    events.len() > 0 ==> {
        &&& can_happen(session, events.drop_last(), interval)
        &&& history(session, events.drop_last(), interval).allows(events.last())
    }
}

/// The findings of the scans that ended, in the order in which they did.
pub open spec fn finished_scans(events: Seq<Event>) -> Seq<Vec<CertResult>>
    decreases events.len(),
{
    if events.len() == 0 {
        Seq::empty()
    } else {
        match events.last() {
            Event::Finished(results, _) => finished_scans(events.drop_last()).push(results),
            _ => finished_scans(events.drop_last()),
        }
    }
}

/// A row of the table.
#[derive(Debug)]
pub struct TableRow {
    pub color: RowColor,
    pub days: String,
    pub target: String,
    pub expires: String,
    pub issuer: String,
    pub hint: String,
}

/// A [`TableRow`] with its cells as sequences of characters.
pub struct TableRowView {
    pub color: RowColor,
    pub days: Seq<char>,
    pub target: Seq<char>,
    pub expires: Seq<char>,
    pub issuer: Seq<char>,
    pub hint: Seq<char>,
}

impl View for TableRow {
    type V = TableRowView;

    open spec fn view(&self) -> TableRowView {
        TableRowView {
            color: self.color,
            days: self.days@,
            target: self.target@,
            expires: self.expires@,
            issuer: self.issuer@,
            hint: self.hint@,
        }
    }
}

/// The issuer column: the issuer, else why the check failed, else nothing.
pub open spec fn issuer_cell(result: CertView) -> Seq<char> {
    match (result.issuer, result.status) {
        (Some(issuer), _) => issuer,
        (None, StatusView::Error(message)) => message,
        (None, StatusView::Days(_)) => Seq::empty(),
    }
}

/// The row of the table for a finding.
pub open spec fn table_row_of(
    result: CertResult,
    warn_days: i64,
    critical_days: i64,
) -> TableRowView {
    TableRowView {
        color: color_of(scan::severity_of(result, warn_days, critical_days)),
        days: result@.status.days_text(),
        target: result@.target.address(),
        expires: match result@.not_after {
            Some(day) => day,
            None => Seq::empty(),
        },
        issuer: issuer_cell(result@),
        hint: result@.renewal_hint(),
    }
}

/// The rows of the table.
pub open spec fn table_rows_of(results: Seq<CertResult>, warn_days: i64, critical_days: i64) -> Seq<
    TableRowView,
> {
    results.map_values(|r: CertResult| table_row_of(r, warn_days, critical_days))
}

/// The views of the rows.
pub open spec fn table_row_views(rows: Seq<TableRow>) -> Seq<TableRowView> {
    rows.map_values(|r: TableRow| r@)
}

/// What the header says of a running scan: the targets checked so far, of all.
pub open spec fn progress_text(progress: Option<u64>, total: nat) -> Seq<char> {
    match progress {
        Some(n) => " (rescanning "@ + text::decimal(n as nat) + "/"@ + text::decimal(total)
            + "...)"@,
        None => Seq::empty(),
    }
}

/// The keys that the header explains.
pub const KEY_HELP: &'static str = "   ↑/↓: select, Enter: details, r: rescan, q: quit";

/// The header of the screen.
pub open spec fn header_text(
    results: Seq<CertResult>,
    warn_days: i64,
    critical_days: i64,
    progress: Option<u64>,
    total: nat,
) -> Seq<char> {
    "certmonitor — "@ + text::decimal(results.len()) + " targets, "@ + text::decimal(
        scan::severity_count(results, warn_days, critical_days, Severity::Critical),
    ) + " critical, "@ + text::decimal(
        scan::severity_count(results, warn_days, critical_days, Severity::Warning),
    ) + " warning"@ + progress_text(progress, total) + KEY_HELP@
}

/// The status line, which tells the age of the findings in seconds as text.
pub open spec fn status_line_text(age: Option<Seq<char>>) -> Seq<char> {
    match age {
        Some(seconds) => "Last scan: "@ + seconds + "s ago"@,
        None => Seq::empty(),
    }
}

/// The days left, in the long form of the popup.
pub open spec fn days_line_text(status: StatusView) -> Seq<char> {
    match status {
        StatusView::Days(days) => if days < 0 {
            "Expired "@ + text::decimal(-days as nat) + " days ago"@
        } else {
            text::decimal(days as nat) + " days left"@
        },
        StatusView::Error(_) => "Check failed"@,
    }
}

/// A text of the certificate, or `-`.
pub open spec fn known_text(s: Option<Seq<char>>) -> Seq<char> {
    match s {
        Some(s) => s,
        None => "-"@,
    }
}

/// The body of the popup for a finding.
pub open spec fn detail_text(result: CertView) -> Seq<char> {
    result.target.address() + "\n\n"@ + days_line_text(result.status) + (match result.status {
        StatusView::Error(message) => "\nError: "@ + message,
        StatusView::Days(_) => "\nExpires:  "@ + known_text(result.not_after) + "\nSubject:  "@
            + known_text(result.subject) + "\nIssuer:   "@ + known_text(result.issuer)
            + "\n\nHint: "@ + result.renewal_hint(),
    }) + "\n\nany key: close"@
}

fn copy_or(s: &Option<String>, other: &str) -> (r: String)
    ensures
        r@ == (match scan::optional_view(*s) {
            Some(s) => s,
            None => other@,
        }),
{
    match s {
        Some(s) => s.clone(),
        None => other.to_owned(),
    }
}

/// Prepares the row of the table for a finding.
fn table_row(result: &CertResult, app: &App) -> (r: TableRow)
    requires
        result@.status.countable(),
    ensures
        r@ == table_row_of(*result, app.warn_days, app.critical_days),
{
    proof {
        reveal_strlit("");
        assert(""@ =~= Seq::<char>::empty());
    }
    TableRow {
        color: app.row_color(result),
        days: result.status.days_text(),
        target: result.target.address(),
        expires: copy_or(&result.not_after, ""),
        issuer: match (&result.issuer, &result.status) {
            (Some(issuer), _) => issuer.clone(),
            (None, Status::Error(message)) => message.clone(),
            (None, Status::Days(_)) => String::new(),
        },
        hint: result.renewal_hint().to_owned(),
    }
}

/// Writes the status line.
pub fn status_line(age: &Option<String>) -> (r: String)
    ensures
        r@ == status_line_text(scan::optional_view(*age)),
{
    match age {
        Some(seconds) => {
            let mut out: String = "Last scan: ".to_owned();
            out.append(seconds.as_str());
            out.append("s ago");
            out
        },
        None => String::new(),
    }
}

/// Writes the days left in the long form of the popup.
fn days_line(status: &Status) -> (r: String)
    requires
        status@.countable(),
    ensures
        r@ == days_line_text(status@),
{
    match status {
        Status::Days(days) => {
            let days: i64 = *days;
            if days < 0 {
                let mut out: String = "Expired ".to_owned();
                text::push_decimal(&mut out, (-days) as u64);
                out.append(" days ago");
                out
            } else {
                let mut out: String = String::new();
                text::push_decimal(&mut out, days as u64);
                out.append(" days left");
                assert(out@ =~= days_line_text(status@));
                out
            }
        },
        Status::Error(_) => "Check failed".to_owned(),
    }
}

/// Writes the body of the popup for a finding.
pub fn detail(result: &CertResult) -> (r: String)
    requires
        result@.status.countable(),
    ensures
        r@ == detail_text(result@),
{
    let mut out: String = result.target.address();
    out.append("\n\n");
    let line: String = days_line(&result.status);
    out.append(line.as_str());
    let ghost before = out@;
    match &result.status {
        Status::Error(message) => {
            out.append("\nError: ");
            out.append(message.as_str());
            assert(out@ =~= before + ("\nError: "@ + message@));
        },
        Status::Days(_) => {
            let day: String = copy_or(&result.not_after, "-");
            let subject: String = copy_or(&result.subject, "-");
            let issuer: String = copy_or(&result.issuer, "-");
            out.append("\nExpires:  ");
            out.append(day.as_str());
            out.append("\nSubject:  ");
            out.append(subject.as_str());
            out.append("\nIssuer:   ");
            out.append(issuer.as_str());
            out.append("\n\nHint: ");
            out.append(result.renewal_hint());
            assert(out@ =~= before + ("\nExpires:  "@ + day@ + "\nSubject:  "@ + subject@
                + "\nIssuer:   "@ + issuer@ + "\n\nHint: "@ + result@.renewal_hint()));
        },
    }
    out.append("\n\nany key: close");
    out
}

impl App {
    /// Prepares the rows of the table.
    pub fn rows(&self) -> (r: Vec<TableRow>)
        requires
            scan::all_countable(self.results@),
        ensures
            table_row_views(r@) == table_rows_of(
                self.results@,
                self.warn_days,
                self.critical_days,
            ),
    {
        let mut rows: Vec<TableRow> = Vec::new();
        let mut i: usize = 0;
        while i < self.results.len()
            invariant
                i <= self.results@.len(),
                scan::all_countable(self.results@),
                rows@.len() == i,
                forall|j: int|
                    0 <= j < i ==> (#[trigger] rows@[j])@ == table_row_of(
                        self.results@[j],
                        self.warn_days,
                        self.critical_days,
                    ),
            decreases self.results@.len() - i,
        {
            assert(self.results@[i as int]@.status.countable());
            let row: TableRow = table_row(&self.results[i], self);
            rows.push(row);
            i = i + 1;
        }
        assert(table_row_views(rows@) =~= table_rows_of(
            self.results@,
            self.warn_days,
            self.critical_days,
        ));
        rows
    }

    /// Writes the header of the screen. `progress` is the number of targets that a running scan
    /// has checked so far, of `total`.
    pub fn header(&self, progress: Option<u64>, total: usize) -> (r: String)
        ensures
            r@ == header_text(
                self.results@,
                self.warn_days,
                self.critical_days,
                progress,
                total as nat,
            ),
    {
        let critical: usize = scan::count_severity(
            &self.results,
            self.warn_days,
            self.critical_days,
            Severity::Critical,
        );
        let warning: usize = scan::count_severity(
            &self.results,
            self.warn_days,
            self.critical_days,
            Severity::Warning,
        );
        let mut note: String = String::new();
        if let Some(n) = progress {
            note.append(" (rescanning ");
            text::push_decimal(&mut note, n);
            note.append("/");
            text::push_decimal(&mut note, total as u64);
            note.append("...)");
        }
        assert(note@ =~= progress_text(progress, total as nat));
        let mut out: String = "certmonitor — ".to_owned();
        text::push_decimal(&mut out, self.results.len() as u64);
        out.append(" targets, ");
        text::push_decimal(&mut out, critical as u64);
        out.append(" critical, ");
        text::push_decimal(&mut out, warning as u64);
        out.append(" warning");
        out.append(note.as_str());
        out.append(KEY_HELP);
        out
    }

    /// The finding that the popup shows, if it is open.
    pub fn detailed_result(&self) -> (r: Option<&CertResult>)
        ensures
            self.detailed() == (match r {
                Some(result) => Some(*result),
                None => None,
            }),
    {
        match self.show_detail {
            Some(i) => {
                if i < self.results.len() {
                    Some(&self.results[i])
                } else {
                    None
                }
            },
            None => None,
        }
    }
}

proof fn lemma_neighbour(i: int, len: int)
    requires
        0 <= i < len,
    ensures
        neighbour(i, len, true) == (if i + 1 < len {
            i + 1
        } else {
            0
        }),
        neighbour(i, len, false) == (if i > 0 {
            i - 1
        } else {
            len - 1
        }),
{
    if i + 1 < len {
        vstd::arithmetic::div_mod::lemma_small_mod((i + 1) as nat, len as nat);
    } else {
        vstd::arithmetic::div_mod::lemma_mod_self_0(len);
    }
    if i > 0 {
        vstd::arithmetic::div_mod::lemma_mod_add_multiples_vanish(i - 1, len);
        vstd::arithmetic::div_mod::lemma_small_mod((i - 1) as nat, len as nat);
    } else {
        vstd::arithmetic::div_mod::lemma_small_mod((len - 1) as nat, len as nat);
    }
}

/// Moving the selection ends on a row of the table, from wherever it starts.
pub proof fn law_moving_stays_in_table(app: App, forward: bool)
    requires
        app.results@.len() > 0,
    ensures
        app.moved(forward).selected is Some,
        app.moved(forward).selection_in_table(),
{
    assert(app.results.len() == app.results@.len());
}

/// Moving the selection there and back again leaves it where it was.
pub proof fn law_moving_there_and_back(app: App, forward: bool)
    requires
        app.selected is Some,
        app.selection_in_table(),
    ensures
        app.moved(forward).moved(!forward) == app,
{
    let i = app.selected->Some_0 as int;
    let len = app.results.len() as int;
    assert(len == app.results@.len());
    lemma_neighbour(i, len);
    lemma_neighbour(neighbour(i, len, forward), len);
}

/// The row that `n` moves from the row `i` end on, in a table of `len` rows, where `n <= len`.
spec fn row_after(i: int, len: int, forward: bool, n: int) -> int {
    if forward {
        if i + n < len {
            i + n
        } else {
            i + n - len
        }
    } else {
        if n <= i {
            i - n
        } else {
            i - n + len
        }
    }
}

proof fn lemma_moves(app: App, forward: bool, n: nat)
    requires
        app.selected is Some,
        app.selection_in_table(),
        n <= app.results@.len(),
    ensures
        app.moved_times(forward, n) == (App {
            selected: Some(
                row_after(
                    app.selected->Some_0 as int,
                    app.results@.len() as int,
                    forward,
                    n as int,
                ) as usize,
            ),
            ..app
        }),
    decreases n,
{
    let i = app.selected->Some_0 as int;
    let len = app.results.len() as int;
    assert(len == app.results@.len());
    if n > 0 {
        lemma_moves(app, forward, (n - 1) as nat);
        lemma_neighbour(row_after(i, len, forward, n - 1), len);
    }
}

/// As many moves as there are rows select every row once, and end where they started.
pub proof fn law_moves_go_round(app: App, forward: bool)
    requires
        app.selected is Some,
        app.selection_in_table(),
    ensures
        app.moved_times(forward, app.results@.len()) == app,
        forall|m: nat, n: nat|
            m < n < app.results@.len() ==> (#[trigger] app.moved_times(forward, m)).selected != (
            #[trigger] app.moved_times(forward, n)).selected,
        forall|row: usize| row < app.results@.len() ==> #[trigger] app.comes_to(forward, row),
{
    let i = app.selected->Some_0 as int;
    let len = app.results.len() as int;
    assert(len == app.results@.len());
    lemma_moves(app, forward, len as nat);
    assert forall|m: nat, n: nat| m < n < app.results@.len() implies (#[trigger] app.moved_times(
        forward,
        m,
    )).selected != (#[trigger] app.moved_times(forward, n)).selected by {
        lemma_moves(app, forward, m);
        lemma_moves(app, forward, n);
    }
    assert forall|row: usize| row < app.results@.len() implies #[trigger] app.comes_to(
        forward,
        row,
    ) by {
        let distance = if forward {
            row - i
        } else {
            i - row
        };
        let n = (if distance >= 0 {
            distance
        } else {
            distance + len
        }) as nat;
        lemma_moves(app, forward, n);
        assert(app.moved_times(forward, n).selected == Some(row));
    }
}

/// A scan of the same targets leaves the selection on a row of the table, and on the same one
/// where there was a selection; where there was none, the first row is selected.
pub proof fn law_rescan_keeps_selection(app: App, results: Vec<CertResult>, now: u64)
    requires
        app.selection_in_table(),
        app.results@.len() <= results@.len(),
    ensures
        app.with_results(results, now).selection_in_table(),
        app.selected is Some ==> app.with_results(results, now).selected == app.selected,
        app.selected is None && results@.len() > 0 ==> app.with_results(results, now).selected
            == Some(0usize),
{
}

/// While the popup is open a key only closes it: it does not quit, move the selection or start a
/// scan.
pub proof fn law_popup_takes_any_key(app: App, key: Key, scanning: bool)
    requires
        app.show_detail is Some,
    ensures
        app.after(Input::Press(key), scanning) == (
            App { show_detail: None, ..app },
            Action::Redraw,
        ),
{
}

/// No second scan starts while one is running.
pub proof fn law_one_scan_at_a_time(app: App, input: Input, interval: Option<u64>, now: u64)
    ensures
        app.stepped(input, true, interval, now).1 != Action::Scan,
{
}

/// The interface ends only on `q` or `Esc`, and never while the popup is open.
pub proof fn law_quit_keys(
    app: App,
    input: Input,
    scanning: bool,
    interval: Option<u64>,
    now: u64,
)
    ensures
        app.stepped(input, scanning, interval, now).1 == Action::Quit <==> (app.show_detail is None
            && (input == Input::Press(Key::Char('q')) || input == Input::Press(Key::Esc))),
{
}

/// Without an interval a scan starts only on the key `r`.
pub proof fn law_manual_rescan(app: App, input: Input, scanning: bool, now: u64)
    ensures
        app.stepped(input, scanning, None, now).1 == Action::Scan <==> (app.show_detail is None
            && !scanning && input == Input::Press(Key::Char('r'))),
{
}

/// With an interval a scan starts once that many seconds have passed since the last one, while
/// no key is pressed.
pub proof fn law_automatic_rescan(app: App, interval: u64, last: u64, now: u64)
    requires
        app.last_scan == Some(last),
        last <= now,
    ensures
        app.stepped(Input::Nothing, false, Some(interval), now).1 == Action::Scan <==> now - last
            >= interval * 1_000_000_000,
{
}

/// At every moment of a session at most one of the scans that it started is unfinished, and that
/// one is the scan that is running.
pub proof fn law_scans_started_and_finished(app: App, events: Seq<Event>, interval: Option<u64>)
    requires
        can_happen(Session { app, scanning: false }, events, interval),
    ensures
        ({
            let past = history(Session { app, scanning: false }, events, interval);
            past.started - finished_scans(events).len() == (if past.session.scanning {
                1int
            } else {
                0
            })
        }),
    decreases events.len(),
{
    if events.len() > 0 {
        law_scans_started_and_finished(app, events.drop_last(), interval);
    }
}

/// The findings of every scan that ended are taken over, once and in order, and the table holds
/// those of the last one.
pub proof fn law_finished_scans_are_taken_over(
    app: App,
    events: Seq<Event>,
    interval: Option<u64>,
)
    requires
        can_happen(Session { app, scanning: false }, events, interval),
    ensures
        ({
            let past = history(Session { app, scanning: false }, events, interval);
            &&& past.taken == finished_scans(events)
            &&& past.session.app.results == (if past.taken.len() > 0 {
                past.taken.last()
            } else {
                app.results
            })
        }),
    decreases events.len(),
{
    if events.len() > 0 {
        law_finished_scans_are_taken_over(app, events.drop_last(), interval);
    }
}

/// At any moment of a session the key `r` starts one scan if none is running and no popup is open.
/// While a scan is running nothing starts another one.
pub proof fn law_when_scans_start(
    app: App,
    events: Seq<Event>,
    interval: Option<u64>,
    event: Event,
    now: u64,
)
    ensures
        ({
            let past = history(Session { app, scanning: false }, events, interval);
            let next = history(Session { app, scanning: false }, events.push(event), interval);
            &&& past.session.scanning ==> next.started == past.started
            &&& event == Event::Round(Input::Press(Key::Char('r')), now) && !past.session.scanning
                && past.session.app.show_detail is None ==> next.started == past.started + 1
                && next.session.scanning
        }),
{
    assert(events.push(event).drop_last() =~= events);
}

/// Where no popup is open, `Enter` opens one for the selected row and changes nothing else: the
/// popup shows the finding of that row.
pub proof fn law_enter_shows_the_selected(app: App, scanning: bool, row: usize)
    requires
        app.show_detail is None,
    ensures
        ({
            let next = app.after(Input::Press(Key::Enter), scanning).0;
            &&& next.show_detail == app.selected
            &&& next == (App { show_detail: next.show_detail, ..app })
            &&& app.selected == Some(row) && row < app.results@.len() ==> next.detailed() == Some(
                app.results@[row as int],
            )
        }),
        app.after(Input::Press(Key::Enter), scanning).1 == Action::Proceed,
{
}

/// The popup shows the finding that it was opened for, as long as there is one; a closed popup
/// shows nothing.
pub proof fn law_popup_shows_its_finding(app: App, row: usize)
    ensures
        app.show_detail is None ==> app.detailed() is None,
        app.show_detail == Some(row) && row < app.results@.len() ==> app.detailed() == Some(
            app.results@[row as int],
        ),
        app.show_detail == Some(row) && row >= app.results@.len() ==> app.detailed() is None,
{
}

/// `Down` selects the next row and `Up` the one before, and from one end of the table they go to
/// the other. Where nothing is selected they start from the first row, and in an empty table they
/// do nothing. Nothing else changes.
pub proof fn law_arrows_move_the_selection(app: App, scanning: bool, row: usize)
    requires
        app.show_detail is None,
    ensures
        ({
            let len = app.results@.len();
            let down = app.after(Input::Press(Key::Down), scanning).0;
            let up = app.after(Input::Press(Key::Up), scanning).0;
            &&& len == 0 ==> down == app && up == app
            &&& down == (App { selected: down.selected, ..app })
            &&& up == (App { selected: up.selected, ..app })
            &&& row < len && (app.selected == Some(row) || app.selected is None && row == 0) ==> {
                &&& row + 1 < len ==> down.selected == Some((row + 1) as usize)
                &&& row + 1 == len ==> down.selected == Some(0usize)
                &&& row > 0 ==> up.selected == Some((row - 1) as usize)
                &&& row == 0 ==> up.selected == Some((len - 1) as usize)
            }
            &&& len > 0 && app.selected == Some(row) ==> {
                &&& down.selected == Some(((row + 1) % len as int) as usize)
                &&& up.selected == Some(((row + len - 1) % len as int) as usize)
            }
        }),
        app.after(Input::Press(Key::Down), scanning).1 == Action::Proceed,
        app.after(Input::Press(Key::Up), scanning).1 == Action::Proceed,
{
    let len = app.results.len() as int;
    assert(len == app.results@.len());
    if row < len {
        lemma_neighbour(row as int, len);
    }
}

/// What the other inputs do, where no popup is open: `q` and `Esc` quit, `r` asks for a scan where
/// none is running, and all others do nothing. None of them changes anything.
pub proof fn law_keys_without_a_popup(app: App, key: Key, scanning: bool)
    requires
        app.show_detail is None,
        key != Key::Enter,
        key != Key::Down,
        key != Key::Up,
    ensures
        app.after(Input::Press(key), scanning).0 == app,
        app.after(Input::Press(key), scanning).1 == (if key == Key::Char('q') || key == Key::Esc {
            Action::Quit
        } else if key == Key::Char('r') && !scanning {
            Action::Scan
        } else {
            Action::Proceed
        }),
{
}

/// Without a key press nothing changes. A key that is held or released only leads to drawing
/// again.
pub proof fn law_no_press_changes_nothing(app: App, scanning: bool)
    ensures
        app.after(Input::Nothing, scanning) == (app, Action::Proceed),
        app.after(Input::NoPress, scanning) == (app, Action::Redraw),
{
}

/// A scan is due where none is running, scans are to be repeated, and `interval` seconds or more
/// have passed since the last one ended.
pub proof fn law_when_scans_are_due(app: App, scanning: bool, interval: u64, last: u64, now: u64)
    ensures
        app.due(true, Some(interval), now) == false,
        app.due(scanning, None, now) == false,
        app.last_scan is None ==> !app.due(scanning, Some(interval), now),
        app.last_scan == Some(last) ==> (app.due(false, Some(interval), now) <==> now >= last
            + interval * 1_000_000_000 || interval == 0),
{
}

/// A round changes what its input changes. It quits where the input says so, and it starts a scan
/// where the input asks for one or where one is due and the input leaves it at that.
pub proof fn law_rounds(
    app: App,
    input: Input,
    scanning: bool,
    interval: Option<u64>,
    now: u64,
)
    ensures
        ({
            let (handled, asked) = app.after(input, scanning);
            let (next, action) = app.stepped(input, scanning, interval, now);
            &&& next == handled
            &&& action == Action::Quit <==> asked == Action::Quit
            &&& action == Action::Scan <==> asked == Action::Scan || asked == Action::Proceed
                && app.due(scanning, interval, now)
            &&& action != Action::Proceed
        }),
{
}

/// A finished scan replaces the findings and sets the time of the last scan. It selects the first
/// row where nothing is selected and there is a row, and changes nothing else.
pub proof fn law_new_findings(app: App, results: Vec<CertResult>, now: u64)
    ensures
        ({
            let next = app.with_results(results, now);
            &&& next.results == results
            &&& next.last_scan == Some(now)
            &&& next.selected == (if app.selected is None && results@.len() > 0 {
                Some(0usize)
            } else {
                app.selected
            })
            &&& next == (App {
                results: next.results,
                last_scan: next.last_scan,
                selected: next.selected,
                ..app
            })
        }),
{
}

/// A session does what its interface does, and knows of its scans: one runs from the round that
/// starts it to its end.
pub proof fn law_sessions(
    session: Session,
    input: Input,
    interval: Option<u64>,
    results: Vec<CertResult>,
    now: u64,
)
    ensures
        ({
            let (next, action) = session.stepped(input, interval, now);
            &&& (next.app, action) == session.app.stepped(input, session.scanning, interval, now)
            &&& next.scanning <==> session.scanning || action == Action::Scan
        }),
        session.with_results(results, now).app == session.app.with_results(results, now),
        !session.with_results(results, now).scanning,
{
}

/// A row is red where its finding is critical, yellow where it is a warning, and green else.
pub proof fn law_row_colors(severity: Severity)
    ensures
        color_of(severity) == RowColor::Red <==> severity == Severity::Critical,
        color_of(severity) == RowColor::Yellow <==> severity == Severity::Warning,
        color_of(severity) == RowColor::Green <==> severity == Severity::Okay,
{
}

/// The rows of the table are the findings, each in its own place: the days left, the address, the
/// day of expiry if it is known, the issuer or else why the check failed, and the advice.
pub proof fn law_table_rows_are_the_findings(
    results: Seq<CertResult>,
    warn_days: i64,
    critical_days: i64,
    i: int,
)
    requires
        0 <= i < results.len(),
    ensures
        ({
            let rows = table_rows_of(results, warn_days, critical_days);
            let result = results[i]@;
            &&& rows.len() == results.len()
            &&& rows[i].color == color_of(result.status.severity(warn_days, critical_days))
            &&& rows[i].days == result.status.days_text()
            &&& rows[i].target == result.target.host + ":"@ + text::decimal(
                result.target.port as nat,
            )
            &&& rows[i].hint == result.renewal_hint()
            &&& result.not_after is None ==> rows[i].expires.len() == 0
            &&& result.not_after matches Some(day) ==> rows[i].expires == day
            &&& result.issuer matches Some(issuer) ==> rows[i].issuer == issuer
            &&& result.issuer is None ==> (match result.status {
                StatusView::Error(message) => rows[i].issuer == message,
                StatusView::Days(_) => rows[i].issuer.len() == 0,
            })
        }),
{
}

/// Prepared rows are seen cell by cell, as they are.
pub proof fn law_table_rows_are_seen(rows: Seq<TableRow>, i: int)
    requires
        0 <= i < rows.len(),
    ensures
        table_row_views(rows).len() == rows.len(),
        table_row_views(rows)[i].color == rows[i].color,
        table_row_views(rows)[i].days == rows[i].days@,
        table_row_views(rows)[i].target == rows[i].target@,
        table_row_views(rows)[i].expires == rows[i].expires@,
        table_row_views(rows)[i].issuer == rows[i].issuer@,
        table_row_views(rows)[i].hint == rows[i].hint@,
{
}

/// The header counts the findings: all of them, those that are critical and those that are
/// warnings. While a scan is running it tells how many of the targets are checked.
pub proof fn law_header_counts(
    results: Seq<CertResult>,
    warn_days: i64,
    critical_days: i64,
    checked: u64,
    total: nat,
    critical: nat,
    warning: nat,
)
    requires
        critical == results.filter(
            |r: CertResult| r@.status.severity(warn_days, critical_days) == Severity::Critical,
        ).len(),
        warning == results.filter(
            |r: CertResult| r@.status.severity(warn_days, critical_days) == Severity::Warning,
        ).len(),
    ensures
        ({
            let counts = "certmonitor — "@ + text::decimal(results.len()) + " targets, "@
                + text::decimal(critical) + " critical, "@ + text::decimal(warning) + " warning"@;
            let keys = "   ↑/↓: select, Enter: details, r: rescan, q: quit"@;
            &&& header_text(results, warn_days, critical_days, None, total) == counts + keys
            &&& header_text(results, warn_days, critical_days, Some(checked), total) == counts
                + " (rescanning "@ + text::decimal(checked as nat) + "/"@ + text::decimal(total)
                + "...)"@ + keys
        }),
{
    let (w, c) = (warn_days, critical_days);
    assert((|r: CertResult| scan::severity_of(r, w, c) == Severity::Critical) =~= (|r: CertResult|
        r@.status.severity(w, c) == Severity::Critical));
    assert((|r: CertResult| scan::severity_of(r, w, c) == Severity::Warning) =~= (|r: CertResult|
        r@.status.severity(w, c) == Severity::Warning));
    assert(scan::severity_count(results, w, c, Severity::Critical) == critical);
    assert(scan::severity_count(results, w, c, Severity::Warning) == warning);
    let counts = "certmonitor — "@ + text::decimal(results.len()) + " targets, "@ + text::decimal(
        critical,
    ) + " critical, "@ + text::decimal(warning) + " warning"@;
    let keys = KEY_HELP@;
    let (checked_text, total_text) = (text::decimal(checked as nat), text::decimal(total));
    assert(counts + Seq::<char>::empty() =~= counts);
    assert(counts + (" (rescanning "@ + checked_text + "/"@ + total_text + "...)"@) =~= counts
        + " (rescanning "@ + checked_text + "/"@ + total_text + "...)"@);
}

/// The status line tells how many seconds ago the last scan was, and is empty before the first.
pub proof fn law_status_line(seconds: Seq<char>)
    ensures
        status_line_text(Some(seconds)) == "Last scan: "@ + seconds + "s ago"@,
        status_line_text(None).len() == 0,
{
}

/// The popup of a certificate tells its target, the days left or the days since it expired, the
/// day of expiry, the two names and the advice; what is not known is a dash.
pub proof fn law_popup_of_a_certificate(result: CertView, days: i64)
    requires
        result.status == StatusView::Days(days),
    ensures
        ({
            let known = |s: Option<Seq<char>>|
                match s {
                    Some(s) => s,
                    None => "-"@,
                };
            detail_text(result) == result.target.host + ":"@ + text::decimal(
                result.target.port as nat,
            ) + "\n\n"@ + (if days < 0 {
                "Expired "@ + text::decimal((-days) as nat) + " days ago"@
            } else {
                text::decimal(days as nat) + " days left"@
            }) + ("\nExpires:  "@ + known(result.not_after) + "\nSubject:  "@ + known(
                result.subject,
            ) + "\nIssuer:   "@ + known(result.issuer) + "\n\nHint: "@ + result.renewal_hint())
                + "\n\nany key: close"@
        }),
{
}

/// The popup of a failed check tells its target and why it failed.
pub proof fn law_popup_of_a_failure(result: CertView, message: Seq<char>)
    requires
        result.status == StatusView::Error(message),
    ensures
        detail_text(result) == result.target.host + ":"@ + text::decimal(result.target.port as nat)
            + "\n\n"@ + "Check failed"@ + ("\nError: "@ + message) + "\n\nany key: close"@,
{
}

} // verus!
