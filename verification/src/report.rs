//! The plain text report of one scan.
use vstd::prelude::*;
use vstd::string::*;
use vstd::utf8::*;
use crate::scan;
use crate::scan::{CertResult, Severity};
use crate::text;

verus! {

/// A line of the report, before its columns are aligned.
#[derive(Debug)]
pub struct ReportRow {
    pub severity: Severity,
    pub target: String,
    pub days: String,
    pub expires: String,
    pub hint: String,
}

/// A [`ReportRow`] with its cells as sequences of characters.
pub struct RowView {
    pub severity: Severity,
    pub target: Seq<char>,
    pub days: Seq<char>,
    pub expires: Seq<char>,
    pub hint: Seq<char>,
}

impl View for ReportRow {
    type V = RowView;

    open spec fn view(&self) -> RowView {
        RowView {
            severity: self.severity,
            target: self.target@,
            days: self.days@,
            expires: self.expires@,
            hint: self.hint@,
        }
    }
}

/// The line of the report for a finding.
pub open spec fn row_of(result: CertResult, warn_days: i64, critical_days: i64) -> RowView {
    RowView {
        severity: scan::severity_of(result, warn_days, critical_days),
        target: result@.target.address(),
        days: result@.status.days_text(),
        expires: result@.expires(),
        hint: result@.remark(),
    }
}

/// The lines of the report.
pub open spec fn rows_of(results: Seq<CertResult>, warn_days: i64, critical_days: i64) -> Seq<
    RowView,
> {
    results.map_values(|r: CertResult| row_of(r, warn_days, critical_days))
}

/// The widths of the three columns that are aligned.
pub struct Widths {
    pub target: usize,
    pub days: usize,
    pub expires: usize,
}

/// The larger of two numbers.
pub open spec fn larger(a: usize, b: usize) -> usize {
    if a < b {
        b
    } else {
        a
    }
}

/// The widths that the columns need: that of the widest cell in bytes, and no less than that of
/// the column's title.
pub open spec fn widths_of(rows: Seq<RowView>) -> Widths
    decreases rows.len(),
{
    if rows.len() == 0 {
        Widths { target: 6, days: 9, expires: 7 }
    } else {
        let before = widths_of(rows.drop_last());
        let row = rows.last();
        Widths {
            target: larger(before.target, text::byte_len(row.target)),
            days: larger(before.days, text::byte_len(row.days)),
            expires: larger(before.expires, text::byte_len(row.expires)),
        }
    }
}

/// One line of the report, with its columns aligned.
pub open spec fn line_text(
    status: Seq<char>,
    target: Seq<char>,
    days: Seq<char>,
    expires: Seq<char>,
    hint: Seq<char>,
    widths: Widths,
) -> Seq<char> {
    status + " "@ + text::padded(target, widths.target as int) + " "@ + text::padded(
        days,
        widths.days as int,
    ) + " "@ + text::padded(expires, widths.expires as int) + " "@ + hint + "\n"@
}

/// The width of the status column.
pub const STATUS_WIDTH: usize = 8;

/// The escape sequence that switches a terminal to the color of a severity.
pub open spec fn color_code(severity: Severity) -> Seq<char> {
    match severity {
        Severity::Okay => "\x1b[32m"@,
        Severity::Warning => "\x1b[33m"@,
        Severity::Critical => "\x1b[31m"@,
    }
}

/// The status column of a line, in color where `colorize` is set.
pub open spec fn status_text(severity: Severity, colorize: bool) -> Seq<char> {
    let label = text::padded(severity.label_text(), STATUS_WIDTH as int);
    if colorize {
        color_code(severity) + label + "\x1b[0m"@
    } else {
        label
    }
}

/// The line of the report for a row.
pub open spec fn row_line(row: RowView, widths: Widths, colorize: bool) -> Seq<char> {
    line_text(
        status_text(row.severity, colorize),
        row.target,
        row.days,
        row.expires,
        row.hint,
        widths,
    )
}

/// The lines of the report as text, one after the other.
pub open spec fn body_text(rows: Seq<RowView>, widths: Widths, colorize: bool) -> Seq<char>
    decreases rows.len(),
{
    if rows.len() == 0 {
        Seq::empty()
    } else {
        body_text(rows.drop_last(), widths, colorize) + row_line(rows.last(), widths, colorize)
    }
}

/// The titles of the columns.
pub open spec fn title_text(widths: Widths) -> Seq<char> {
    line_text(
        text::padded("STATUS"@, STATUS_WIDTH as int),
        "TARGET"@,
        "DAYS LEFT"@,
        "EXPIRES"@,
        "HINT"@,
        widths,
    )
}

/// The closing line of the report, which counts the findings by severity.
pub open spec fn summary_text(results: Seq<CertResult>, warn_days: i64, critical_days: i64) -> Seq<
    char,
> {
    "\n"@ + text::decimal(results.len()) + " targets checked: "@ + text::decimal(
        scan::severity_count(results, warn_days, critical_days, Severity::Critical),
    ) + " critical, "@ + text::decimal(
        scan::severity_count(results, warn_days, critical_days, Severity::Warning),
    ) + " warning, "@ + text::decimal(
        scan::severity_count(results, warn_days, critical_days, Severity::Okay),
    ) + " ok\n"@
}

/// The whole report.
pub open spec fn report_text(
    results: Seq<CertResult>,
    warn_days: i64,
    critical_days: i64,
    colorize: bool,
) -> Seq<char> {
    let rows = rows_of(results, warn_days, critical_days);
    let widths = widths_of(rows);
    title_text(widths) + body_text(rows, widths, colorize) + summary_text(
        results,
        warn_days,
        critical_days,
    )
}

/// The views of the rows.
pub open spec fn row_views(rows: Seq<ReportRow>) -> Seq<RowView> {
    rows.map_values(|r: ReportRow| r@)
}

/// Prepares the lines of the report.
pub fn report_rows(results: &Vec<CertResult>, warn_days: i64, critical_days: i64) -> (r: Vec<
    ReportRow,
>)
    requires
        scan::all_countable(results@),
    ensures
        row_views(r@) == rows_of(results@, warn_days, critical_days),
{
    let mut rows: Vec<ReportRow> = Vec::new();
    let mut i: usize = 0;
    while i < results.len()
        invariant
            i <= results@.len(),
            scan::all_countable(results@),
            rows@.len() == i,
            forall|j: int|
                0 <= j < i ==> (#[trigger] rows@[j])@ == row_of(
                    results@[j],
                    warn_days,
                    critical_days,
                ),
        decreases results@.len() - i,
    {
        let result: &CertResult = &results[i];
        assert(results@[i as int]@.status.countable());
        let row: ReportRow = ReportRow {
            severity: scan::severity(result, warn_days, critical_days),
            target: result.target.address(),
            days: result.status.days_text(),
            expires: result.expires(),
            hint: result.remark(),
        };
        rows.push(row);
        i = i + 1;
    }
    assert(row_views(rows@) =~= rows_of(results@, warn_days, critical_days));
    rows
}

fn larger_of(a: usize, b: usize) -> (r: usize)
    ensures
        r == larger(a, b),
{
    if a < b {
        b
    } else {
        a
    }
}

/// Finds the widths that the columns need.
pub fn column_widths(rows: &Vec<ReportRow>) -> (r: Widths)
    ensures
        r == widths_of(row_views(rows@)),
{
    let mut widths: Widths = Widths { target: 6, days: 9, expires: 7 };
    let mut i: usize = 0;
    while i < rows.len()
        invariant
            i <= rows@.len(),
            widths == widths_of(row_views(rows@).take(i as int)),
        decreases rows@.len() - i,
    {
        let row: &ReportRow = &rows[i];
        proof {
            let now = row_views(rows@).take(i + 1);
            assert(now.drop_last() =~= row_views(rows@).take(i as int));
            assert(now.last() == rows@[i as int]@);
        }
        widths = Widths {
            target: larger_of(widths.target, row.target.as_str().len()),
            days: larger_of(widths.days, row.days.as_str().len()),
            expires: larger_of(widths.expires, row.expires.as_str().len()),
        };
        i = i + 1;
    }
    assert(row_views(rows@).take(i as int) =~= row_views(rows@));
    widths
}

fn push_line(
    out: &mut String,
    status: &str,
    target: &str,
    days: &str,
    expires: &str,
    hint: &str,
    widths: &Widths,
)
    ensures
        final(out)@ == old(out)@ + line_text(status@, target@, days@, expires@, hint@, *widths),
{
    out.append(status);
    out.append(" ");
    text::push_padded(out, target, widths.target);
    out.append(" ");
    text::push_padded(out, days, widths.days);
    out.append(" ");
    text::push_padded(out, expires, widths.expires);
    out.append(" ");
    out.append(hint);
    out.append("\n");
    assert(out@ =~= old(out)@ + line_text(status@, target@, days@, expires@, hint@, *widths));
}

/// Writes the status column of a line.
pub fn status_cell(severity: Severity, colorize: bool) -> (r: String)
    ensures
        r@ == status_text(severity, colorize),
{
    let mut out: String = String::new();
    if colorize {
        match severity {
            Severity::Okay => out.append("\x1b[32m"),
            Severity::Warning => out.append("\x1b[33m"),
            Severity::Critical => out.append("\x1b[31m"),
        }
    }
    text::push_padded(&mut out, severity.label(), STATUS_WIDTH);
    if colorize {
        out.append("\x1b[0m");
    }
    assert(out@ =~= status_text(severity, colorize));
    out
}

/// Writes the closing line of the report.
pub fn summary_line(results: &Vec<CertResult>, warn_days: i64, critical_days: i64) -> (r: String)
    ensures
        r@ == summary_text(results@, warn_days, critical_days),
{
    let critical: usize = scan::count_severity(
        results,
        warn_days,
        critical_days,
        Severity::Critical,
    );
    let warning: usize = scan::count_severity(results, warn_days, critical_days, Severity::Warning);
    proof {
        scan::law_counts_add_up(results@, warn_days, critical_days);
    }
    let mut out: String = "\n".to_owned();
    text::push_decimal(&mut out, results.len() as u64);
    out.append(" targets checked: ");
    text::push_decimal(&mut out, critical as u64);
    out.append(" critical, ");
    text::push_decimal(&mut out, warning as u64);
    out.append(" warning, ");
    text::push_decimal(&mut out, (results.len() - critical - warning) as u64);
    out.append(" ok\n");
    out
}

/// Renders the report of a scan: a line for each finding under the titles of the columns, and a
/// summary. `colorize` puts the status column in color, for a terminal.
pub fn render_report(
    results: &Vec<CertResult>,
    warn_days: i64,
    critical_days: i64,
    colorize: bool,
) -> (r: String)
    requires
        scan::all_countable(results@),
    ensures
        r@ == report_text(results@, warn_days, critical_days, colorize),
{
    let rows: Vec<ReportRow> = report_rows(results, warn_days, critical_days);
    let widths: Widths = column_widths(&rows);
    let ghost views = row_views(rows@);
    let mut out: String = String::new();
    let mut titles: String = String::new();
    text::push_padded(&mut titles, "STATUS", STATUS_WIDTH);
    assert(titles@ =~= text::padded("STATUS"@, STATUS_WIDTH as int));
    push_line(&mut out, titles.as_str(), "TARGET", "DAYS LEFT", "EXPIRES", "HINT", &widths);
    assert(out@ =~= title_text(widths) + body_text(views.take(0), widths, colorize));
    let mut i: usize = 0;
    while i < rows.len()
        invariant
            i <= rows@.len(),
            views == row_views(rows@),
            out@ == title_text(widths) + body_text(views.take(i as int), widths, colorize),
        decreases rows@.len() - i,
    {
        let row: &ReportRow = &rows[i];
        let ghost before = out@;
        proof {
            assert(views.take(i + 1).drop_last() =~= views.take(i as int));
            assert(views.take(i + 1).last() == rows@[i as int]@);
        }
        let status: String = status_cell(row.severity, colorize);
        push_line(
            &mut out,
            status.as_str(),
            row.target.as_str(),
            row.days.as_str(),
            row.expires.as_str(),
            row.hint.as_str(),
            &widths,
        );
        i = i + 1;
        assert(out@ =~= title_text(widths) + body_text(views.take(i as int), widths, colorize));
    }
    assert(views.take(i as int) =~= views);
    let summary: String = summary_line(results, warn_days, critical_days);
    out.append(summary.as_str());
    out
}

/// In every report the cells of a column are padded to the same number of characters, those of
/// the titles too, so the columns start at the same place on every line.
pub proof fn law_columns_are_aligned(rows: Seq<RowView>, i: int)
    requires
        0 <= i < rows.len(),
        encode_utf8(rows[i].target).len() <= usize::MAX,
        encode_utf8(rows[i].days).len() <= usize::MAX,
        encode_utf8(rows[i].expires).len() <= usize::MAX,
    ensures
        text::padded(rows[i].target, widths_of(rows).target as int).len() == widths_of(rows).target,
        text::padded(rows[i].days, widths_of(rows).days as int).len() == widths_of(rows).days,
        text::padded(rows[i].expires, widths_of(rows).expires as int).len() == widths_of(
            rows,
        ).expires,
        text::padded("TARGET"@, widths_of(rows).target as int).len() == widths_of(rows).target,
        text::padded("DAYS LEFT"@, widths_of(rows).days as int).len() == widths_of(rows).days,
        text::padded("EXPIRES"@, widths_of(rows).expires as int).len() == widths_of(rows).expires,
        text::padded(rows[i].severity.label_text(), STATUS_WIDTH as int).len() == STATUS_WIDTH,
        text::padded("STATUS"@, STATUS_WIDTH as int).len() == STATUS_WIDTH,
{
    reveal_strlit("TARGET");
    reveal_strlit("DAYS LEFT");
    reveal_strlit("EXPIRES");
    reveal_strlit("STATUS");
    reveal_strlit("OK");
    reveal_strlit("WARNING");
    reveal_strlit("CRITICAL");
    lemma_widths_cover(rows, i);
    text::lemma_byte_len_covers(rows[i].target);
    text::lemma_byte_len_covers(rows[i].days);
    text::lemma_byte_len_covers(rows[i].expires);
}

proof fn lemma_widths_cover(rows: Seq<RowView>, i: int)
    requires
        0 <= i < rows.len(),
    ensures
        widths_of(rows).target >= 6,
        widths_of(rows).days >= 9,
        widths_of(rows).expires >= 7,
        widths_of(rows).target >= text::byte_len(rows[i].target),
        widths_of(rows).days >= text::byte_len(rows[i].days),
        widths_of(rows).expires >= text::byte_len(rows[i].expires),
    decreases rows.len(),
{
    if i < rows.len() - 1 {
        lemma_widths_cover(rows.drop_last(), i);
    } else if rows.len() > 1 {
        lemma_widths_cover(rows.drop_last(), 0);
    } else {
        assert(widths_of(rows.drop_last()) == (Widths { target: 6, days: 9, expires: 7 }));
    }
}

proof fn lemma_line_in_body(rows: Seq<RowView>, widths: Widths, colorize: bool, i: int) -> (at: int)
    requires
        0 <= i < rows.len(),
    ensures
        text::occurs_at(
            body_text(rows, widths, colorize),
            row_line(rows[i], widths, colorize),
            at,
        ),
    decreases rows.len(),
{
    let body = body_text(rows, widths, colorize);
    let before = body_text(rows.drop_last(), widths, colorize);
    let line = row_line(rows[i], widths, colorize);
    if i == rows.len() - 1 {
        let at = before.len() as int;
        assert(body.subrange(at, at + line.len()) =~= line);
        at
    } else {
        let at = lemma_line_in_body(rows.drop_last(), widths, colorize, i);
        assert(body.subrange(at, at + line.len()) =~= before.subrange(at, at + line.len()));
        at
    }
}

/// The report has a line for every finding of the scan.
pub proof fn law_report_lists_every_finding(
    results: Seq<CertResult>,
    warn_days: i64,
    critical_days: i64,
    colorize: bool,
    i: int,
)
    requires
        0 <= i < results.len(),
    ensures
        text::has_substring(
            report_text(results, warn_days, critical_days, colorize),
            row_line(
                row_of(results[i], warn_days, critical_days),
                widths_of(rows_of(results, warn_days, critical_days)),
                colorize,
            ),
        ),
{
    let rows = rows_of(results, warn_days, critical_days);
    let widths = widths_of(rows);
    let report = report_text(results, warn_days, critical_days, colorize);
    let body = body_text(rows, widths, colorize);
    let line = row_line(rows[i], widths, colorize);
    let at = lemma_line_in_body(rows, widths, colorize, i);
    let start = title_text(widths).len() as int;
    assert(report.subrange(start + at, start + at + line.len()) =~= body.subrange(
        at,
        at + line.len(),
    ));
    assert(text::occurs_at(report, line, start + at));
}

/// Whether the text is free of the character that starts a terminal escape sequence.
pub open spec fn free_of_escapes(s: Seq<char>) -> bool {
    forall|i: int| 0 <= i < s.len() ==> #[trigger] s[i] != '\x1b'
}

proof fn lemma_decimal_is_free(n: nat)
    ensures
        free_of_escapes(text::decimal(n)),
{
    text::law_decimal_round_trip(n);
    let digits = text::decimal(n);
    assert forall|i: int| 0 <= i < digits.len() implies #[trigger] digits[i] != '\x1b' by {
        assert(text::is_digit(digits[i]));
    }
}

proof fn lemma_line_is_free(
    status: Seq<char>,
    target: Seq<char>,
    days: Seq<char>,
    expires: Seq<char>,
    hint: Seq<char>,
    widths: Widths,
)
    requires
        free_of_escapes(status),
        free_of_escapes(target),
        free_of_escapes(days),
        free_of_escapes(expires),
        free_of_escapes(hint),
    ensures
        free_of_escapes(line_text(status, target, days, expires, hint, widths)),
{
    reveal_strlit(" ");
    reveal_strlit("\n");
}

/// Whether the cells of a row are free of the character that starts a terminal escape sequence.
spec fn row_is_free(row: RowView) -> bool {
    &&& free_of_escapes(row.target)
    &&& free_of_escapes(row.days)
    &&& free_of_escapes(row.expires)
    &&& free_of_escapes(row.hint)
}

proof fn lemma_label_is_free(severity: Severity)
    ensures
        free_of_escapes(text::padded(severity.label_text(), STATUS_WIDTH as int)),
{
    reveal_strlit("OK");
    reveal_strlit("WARNING");
    reveal_strlit("CRITICAL");
}

proof fn lemma_body_is_free(rows: Seq<RowView>, widths: Widths)
    requires
        forall|i: int| 0 <= i < rows.len() ==> row_is_free(#[trigger] rows[i]),
    ensures
        free_of_escapes(body_text(rows, widths, false)),
    decreases rows.len(),
{
    if rows.len() > 0 {
        let row = rows.last();
        assert(row == rows[rows.len() - 1]);
        assert(row_is_free(row));
        assert forall|i: int| 0 <= i < rows.drop_last().len() implies row_is_free(
            #[trigger] rows.drop_last()[i],
        ) by {
            assert(rows.drop_last()[i] == rows[i]);
        }
        lemma_body_is_free(rows.drop_last(), widths);
        lemma_label_is_free(row.severity);
        lemma_line_is_free(
            status_text(row.severity, false),
            row.target,
            row.days,
            row.expires,
            row.hint,
            widths,
        );
    }
}

/// Whether the hosts, dates and remarks of the findings are free of the character that starts a
/// terminal escape sequence.
pub open spec fn findings_are_free(results: Seq<CertResult>) -> bool {
    forall|i: int|
        0 <= i < results.len() ==> {
            let result = #[trigger] results[i]@;
            &&& free_of_escapes(result.target.host)
            &&& free_of_escapes(result.expires())
            &&& free_of_escapes(result.remark())
        }
}

proof fn lemma_rows_are_free(results: Seq<CertResult>, warn_days: i64, critical_days: i64)
    requires
        findings_are_free(results),
    ensures
        forall|i: int|
            0 <= i < results.len() ==> row_is_free(
                #[trigger] rows_of(results, warn_days, critical_days)[i],
            ),
{
    let rows = rows_of(results, warn_days, critical_days);
    assert forall|i: int| 0 <= i < rows.len() implies row_is_free(#[trigger] rows[i]) by {
        let result = results[i]@;
        assert(rows[i] == row_of(results[i], warn_days, critical_days));
        lemma_decimal_is_free(result.target.port as nat);
        reveal_strlit(":");
        assert(free_of_escapes(result.target.address()));
        match result.status {
            scan::StatusView::Days(days) => {
                lemma_decimal_is_free((if days < 0 { -days } else { days as int }) as nat);
            },
            scan::StatusView::Error(_) => {},
        }
        reveal_strlit("expired ");
        reveal_strlit("d ago");
        reveal_strlit("d");
        reveal_strlit("-");
        assert(free_of_escapes(result.status.days_text()));
    }
}

proof fn lemma_title_is_free(widths: Widths)
    ensures
        free_of_escapes(title_text(widths)),
{
    reveal_strlit("STATUS");
    reveal_strlit("TARGET");
    reveal_strlit("DAYS LEFT");
    reveal_strlit("EXPIRES");
    reveal_strlit("HINT");
    lemma_line_is_free(
        text::padded("STATUS"@, STATUS_WIDTH as int),
        "TARGET"@,
        "DAYS LEFT"@,
        "EXPIRES"@,
        "HINT"@,
        widths,
    );
}

proof fn lemma_summary_is_free(results: Seq<CertResult>, warn_days: i64, critical_days: i64)
    ensures
        free_of_escapes(summary_text(results, warn_days, critical_days)),
{
    reveal_strlit("\n");
    reveal_strlit(" targets checked: ");
    reveal_strlit(" critical, ");
    reveal_strlit(" warning, ");
    reveal_strlit(" ok\n");
    lemma_decimal_is_free(results.len());
    lemma_decimal_is_free(
        scan::severity_count(results, warn_days, critical_days, Severity::Critical),
    );
    lemma_decimal_is_free(
        scan::severity_count(results, warn_days, critical_days, Severity::Warning),
    );
    lemma_decimal_is_free(scan::severity_count(results, warn_days, critical_days, Severity::Okay));
}

/// A report without color brings no terminal escape sequences of its own: there are none in it
/// where there are none in the hosts, dates and remarks.
pub proof fn law_plain_report_has_no_escapes(
    results: Seq<CertResult>,
    warn_days: i64,
    critical_days: i64,
)
    requires
        findings_are_free(results),
    ensures
        free_of_escapes(report_text(results, warn_days, critical_days, false)),
{
    let rows = rows_of(results, warn_days, critical_days);
    let widths = widths_of(rows);
    lemma_rows_are_free(results, warn_days, critical_days);
    lemma_body_is_free(rows, widths);
    lemma_title_is_free(widths);
    lemma_summary_is_free(results, warn_days, critical_days);
}

/// The text without the escape sequences that set the color of a severity or end it.
pub open spec fn uncolored(s: Seq<char>) -> Seq<char>
    decreases s.len(),
{
    if s.len() == 0 {
        Seq::empty()
    } else if s.len() >= 5 && (text::occurs_at(s, color_code(Severity::Okay), 0)
        || text::occurs_at(s, color_code(Severity::Warning), 0) || text::occurs_at(
        s,
        color_code(Severity::Critical),
        0,
    )) {
        uncolored(s.skip(5))
    } else if s.len() >= 4 && text::occurs_at(s, "\x1b[0m"@, 0) {
        uncolored(s.skip(4))
    } else {
        seq![s[0]] + uncolored(s.drop_first())
    }
}

proof fn lemma_codes()
    ensures
        forall|severity: Severity|
            {
                let code = #[trigger] color_code(severity);
                code.len() == 5 && code[0] == '\x1b' && code[2] == '3'
            },
        "\x1b[0m"@.len() == 4,
        "\x1b[0m"@[0] == '\x1b',
        "\x1b[0m"@[2] == '0',
{
    reveal_strlit("\x1b[32m");
    reveal_strlit("\x1b[33m");
    reveal_strlit("\x1b[31m");
    reveal_strlit("\x1b[0m");
}

proof fn lemma_start_of(s: Seq<char>, pattern: Seq<char>, i: int)
    requires
        text::occurs_at(s, pattern, 0),
        0 <= i < pattern.len(),
    ensures
        s[i] == pattern[i],
{
    assert(s.subrange(0, pattern.len() as int)[i] == s[i]);
}

proof fn lemma_uncolored_keeps(a: Seq<char>, b: Seq<char>)
    requires
        free_of_escapes(a),
    ensures
        uncolored(a + b) == a + uncolored(b),
    decreases a.len(),
{
    if a.len() == 0 {
        assert(a + b =~= b);
        assert(a + uncolored(b) =~= uncolored(b));
    } else {
        let s = a + b;
        lemma_codes();
        assert(s[0] == a[0]);
        assert forall|severity: Severity|
            !text::occurs_at(s, #[trigger] color_code(severity), 0) by {
            if text::occurs_at(s, color_code(severity), 0) {
                lemma_start_of(s, color_code(severity), 0);
            }
        }
        if text::occurs_at(s, "\x1b[0m"@, 0) {
            lemma_start_of(s, "\x1b[0m"@, 0);
        }
        assert(s.drop_first() =~= a.drop_first() + b);
        lemma_uncolored_keeps(a.drop_first(), b);
        assert(seq![a[0]] + (a.drop_first() + uncolored(b)) =~= a + uncolored(b));
    }
}

proof fn lemma_uncolored_skips(severity: Severity, b: Seq<char>)
    ensures
        uncolored(color_code(severity) + b) == uncolored(b),
        uncolored("\x1b[0m"@ + b) == uncolored(b),
{
    lemma_codes();
    let colored = color_code(severity) + b;
    assert(colored.subrange(0, 5) =~= color_code(severity));
    assert(text::occurs_at(colored, color_code(severity), 0));
    assert(colored.skip(5) =~= b);
    let reset = "\x1b[0m"@ + b;
    assert(reset.subrange(0, 4) =~= "\x1b[0m"@);
    assert(reset[2] == '0');
    assert forall|severity: Severity|
        !text::occurs_at(reset, #[trigger] color_code(severity), 0) by {
        if text::occurs_at(reset, color_code(severity), 0) {
            lemma_start_of(reset, color_code(severity), 2);
        }
    }
    assert(reset.skip(4) =~= b);
}

proof fn lemma_line_starts_with_status(
    status: Seq<char>,
    target: Seq<char>,
    days: Seq<char>,
    expires: Seq<char>,
    hint: Seq<char>,
    widths: Widths,
)
    ensures
        line_text(status, target, days, expires, hint, widths) == status + line_text(
            Seq::empty(),
            target,
            days,
            expires,
            hint,
            widths,
        ),
{
    assert(line_text(status, target, days, expires, hint, widths) =~= status + line_text(
        Seq::empty(),
        target,
        days,
        expires,
        hint,
        widths,
    ));
}

proof fn lemma_uncolored_cells(
    severity: Severity,
    label: Seq<char>,
    cells: Seq<char>,
    tail: Seq<char>,
)
    requires
        free_of_escapes(label),
        free_of_escapes(cells),
    ensures
        uncolored(color_code(severity) + label + "\x1b[0m"@ + cells + tail) == label + cells
            + uncolored(tail),
{
    let code = color_code(severity);
    let reset = "\x1b[0m"@;
    assert(code + label + reset + cells + tail =~= code + (label + (reset + (cells + tail))));
    lemma_uncolored_skips(severity, label + (reset + (cells + tail)));
    lemma_uncolored_keeps(label, reset + (cells + tail));
    lemma_uncolored_skips(severity, cells + tail);
    lemma_uncolored_keeps(cells, tail);
    assert(label + (cells + uncolored(tail)) =~= label + cells + uncolored(tail));
}

proof fn lemma_uncolored_line(row: RowView, widths: Widths, tail: Seq<char>)
    requires
        row_is_free(row),
    ensures
        uncolored(row_line(row, widths, true) + tail) == row_line(row, widths, false) + uncolored(
            tail,
        ),
{
    let label = text::padded(row.severity.label_text(), STATUS_WIDTH as int);
    let none = Seq::<char>::empty();
    let (target, days, expires, hint) = (row.target, row.days, row.expires, row.hint);
    let cells = line_text(none, target, days, expires, hint, widths);
    let colored = status_text(row.severity, true);
    lemma_label_is_free(row.severity);
    lemma_line_is_free(none, target, days, expires, hint, widths);
    lemma_line_starts_with_status(colored, target, days, expires, hint, widths);
    lemma_line_starts_with_status(label, target, days, expires, hint, widths);
    lemma_uncolored_cells(row.severity, label, cells, tail);
}

proof fn lemma_uncolored_body(rows: Seq<RowView>, widths: Widths, tail: Seq<char>)
    requires
        forall|i: int| 0 <= i < rows.len() ==> row_is_free(#[trigger] rows[i]),
    ensures
        uncolored(body_text(rows, widths, true) + tail) == body_text(rows, widths, false)
            + uncolored(tail),
    decreases rows.len(),
{
    if rows.len() == 0 {
        assert(body_text(rows, widths, true) + tail =~= tail);
        assert(body_text(rows, widths, false) + uncolored(tail) =~= uncolored(tail));
    } else {
        let before = rows.drop_last();
        let row = rows.last();
        assert(row == rows[rows.len() - 1]);
        assert forall|i: int| 0 <= i < before.len() implies row_is_free(#[trigger] before[i]) by {
            assert(before[i] == rows[i]);
        }
        let line = row_line(row, widths, true);
        assert(body_text(rows, widths, true) + tail =~= body_text(before, widths, true) + (line
            + tail));
        lemma_uncolored_body(before, widths, line + tail);
        lemma_uncolored_line(row, widths, tail);
        assert(body_text(before, widths, false) + (row_line(row, widths, false) + uncolored(tail))
            =~= body_text(rows, widths, false) + uncolored(tail));
    }
}

/// Color changes nothing else: without its color codes the colored report is the plain one, where
/// there are no escape sequences in the hosts, dates and remarks.
pub proof fn law_colored_report_reads_as_plain(
    results: Seq<CertResult>,
    warn_days: i64,
    critical_days: i64,
)
    requires
        findings_are_free(results),
    ensures
        uncolored(report_text(results, warn_days, critical_days, true)) == report_text(
            results,
            warn_days,
            critical_days,
            false,
        ),
{
    let rows = rows_of(results, warn_days, critical_days);
    let widths = widths_of(rows);
    let title = title_text(widths);
    let summary = summary_text(results, warn_days, critical_days);
    let none = Seq::<char>::empty();
    lemma_rows_are_free(results, warn_days, critical_days);
    lemma_title_is_free(widths);
    lemma_summary_is_free(results, warn_days, critical_days);
    assert(report_text(results, warn_days, critical_days, true) =~= title + (body_text(
        rows,
        widths,
        true,
    ) + summary));
    lemma_uncolored_keeps(title, body_text(rows, widths, true) + summary);
    lemma_uncolored_body(rows, widths, summary);
    lemma_uncolored_keeps(summary, none);
    assert(summary + none =~= summary);
    assert(uncolored(none) =~= none);
    assert(title + (body_text(rows, widths, false) + summary) =~= report_text(
        results,
        warn_days,
        critical_days,
        false,
    ));
}

/// The lines of a report are its findings, each in its own place.
pub proof fn law_rows_are_the_findings(
    results: Seq<CertResult>,
    warn_days: i64,
    critical_days: i64,
    i: int,
)
    requires
        0 <= i < results.len(),
    ensures
        ({
            let rows = rows_of(results, warn_days, critical_days);
            let result = results[i]@;
            &&& rows.len() == results.len()
            &&& rows[i].severity == result.status.severity(warn_days, critical_days)
            &&& rows[i].target == result.target.host + ":"@ + text::decimal(
                result.target.port as nat,
            )
            &&& rows[i].days == result.status.days_text()
            &&& rows[i].expires == (match result.not_after {
                Some(day) => day,
                None => "-"@,
            })
            &&& rows[i].hint == (match result.status {
                scan::StatusView::Error(message) => message,
                scan::StatusView::Days(_) => result.renewal_hint(),
            })
        }),
{
}

/// Prepared lines are seen cell by cell, as they are.
pub proof fn law_rows_are_seen(rows: Seq<ReportRow>, i: int)
    requires
        0 <= i < rows.len(),
    ensures
        row_views(rows).len() == rows.len(),
        row_views(rows)[i].severity == rows[i].severity,
        row_views(rows)[i].target == rows[i].target@,
        row_views(rows)[i].days == rows[i].days@,
        row_views(rows)[i].expires == rows[i].expires@,
        row_views(rows)[i].hint == rows[i].hint@,
{
}

proof fn lemma_widths_are_needed(rows: Seq<RowView>)
    ensures
        widths_of(rows).target == 6 || exists|i: int|
            0 <= i < rows.len() && text::byte_len((#[trigger] rows[i]).target) == widths_of(
                rows,
            ).target,
        widths_of(rows).days == 9 || exists|i: int|
            0 <= i < rows.len() && text::byte_len((#[trigger] rows[i]).days) == widths_of(
                rows,
            ).days,
        widths_of(rows).expires == 7 || exists|i: int|
            0 <= i < rows.len() && text::byte_len((#[trigger] rows[i]).expires) == widths_of(
                rows,
            ).expires,
    decreases rows.len(),
{
    if rows.len() > 0 {
        let rest = rows.drop_last();
        lemma_widths_are_needed(rest);
        let before = widths_of(rest);
        let last = rows[rows.len() - 1];
        if widths_of(rows).target == before.target && before.target != 6 {
            let i = choose|i: int|
                0 <= i < rest.len() && text::byte_len((#[trigger] rest[i]).target) == before.target;
            assert(rows[i] == rest[i]);
        }
        if widths_of(rows).days == before.days && before.days != 9 {
            let i = choose|i: int|
                0 <= i < rest.len() && text::byte_len((#[trigger] rest[i]).days) == before.days;
            assert(rows[i] == rest[i]);
        }
        if widths_of(rows).expires == before.expires && before.expires != 7 {
            let i = choose|i: int|
                0 <= i < rest.len() && text::byte_len((#[trigger] rest[i]).expires)
                    == before.expires;
            assert(rows[i] == rest[i]);
        }
        assert(last == rows.last());
    }
}

/// A column is as wide as its title or its widest cell in bytes, whichever is wider, and no wider.
pub proof fn law_widths(rows: Seq<RowView>, i: int)
    ensures
        widths_of(rows).target >= 6,
        widths_of(rows).days >= 9,
        widths_of(rows).expires >= 7,
        0 <= i < rows.len() ==> {
            &&& widths_of(rows).target >= text::byte_len(rows[i].target)
            &&& widths_of(rows).days >= text::byte_len(rows[i].days)
            &&& widths_of(rows).expires >= text::byte_len(rows[i].expires)
        },
        widths_of(rows).target == 6 || exists|i: int|
            0 <= i < rows.len() && text::byte_len((#[trigger] rows[i]).target) == widths_of(
                rows,
            ).target,
        widths_of(rows).days == 9 || exists|i: int|
            0 <= i < rows.len() && text::byte_len((#[trigger] rows[i]).days) == widths_of(
                rows,
            ).days,
        widths_of(rows).expires == 7 || exists|i: int|
            0 <= i < rows.len() && text::byte_len((#[trigger] rows[i]).expires) == widths_of(
                rows,
            ).expires,
{
    lemma_widths_are_needed(rows);
    if rows.len() > 0 {
        lemma_widths_cover(
            rows,
            if 0 <= i < rows.len() {
                i
            } else {
                0
            },
        );
    }
}

/// A line holds the status, the target, the days left, the day of expiry and the remark, in this
/// order and with a space between them. All but the first and the last are padded to the width of
/// their column.
pub proof fn law_line_cells(
    status: Seq<char>,
    target: Seq<char>,
    days: Seq<char>,
    expires: Seq<char>,
    hint: Seq<char>,
    widths: Widths,
)
    ensures
        line_text(status, target, days, expires, hint, widths) == status + seq![' ']
            + text::padded(target, widths.target as int) + seq![' '] + text::padded(
            days,
            widths.days as int,
        ) + seq![' '] + text::padded(expires, widths.expires as int) + seq![' '] + hint
            + seq!['\n'],
{
    reveal_strlit(" ");
    reveal_strlit("\n");
    assert(" "@ =~= seq![' ']);
    assert("\n"@ =~= seq!['\n']);
}

/// The status column is eight characters wide. In color it is green, yellow or red by severity,
/// and the color ends behind it.
pub proof fn law_status_column()
    ensures
        status_text(Severity::Okay, false) == "OK      "@,
        status_text(Severity::Warning, false) == "WARNING "@,
        status_text(Severity::Critical, false) == "CRITICAL"@,
        status_text(Severity::Okay, true) == "\x1b[32m"@ + "OK      "@ + "\x1b[0m"@,
        status_text(Severity::Warning, true) == "\x1b[33m"@ + "WARNING "@ + "\x1b[0m"@,
        status_text(Severity::Critical, true) == "\x1b[31m"@ + "CRITICAL"@ + "\x1b[0m"@,
{
    reveal_strlit("OK");
    reveal_strlit("OK      ");
    reveal_strlit("WARNING");
    reveal_strlit("WARNING ");
    reveal_strlit("CRITICAL");
    assert(status_text(Severity::Okay, false) =~= "OK      "@);
    assert(status_text(Severity::Warning, false) =~= "WARNING "@);
    assert(status_text(Severity::Critical, false) =~= "CRITICAL"@);
}

/// The report is made of its titles, a line for each finding in their order, and the summary.
pub proof fn law_report_parts(
    results: Seq<CertResult>,
    warn_days: i64,
    critical_days: i64,
    colorize: bool,
)
    ensures
        ({
            let rows = rows_of(results, warn_days, critical_days);
            let widths = widths_of(rows);
            report_text(results, warn_days, critical_days, colorize) == line_text(
                "STATUS  "@,
                "TARGET"@,
                "DAYS LEFT"@,
                "EXPIRES"@,
                "HINT"@,
                widths,
            ) + body_text(rows, widths, colorize) + summary_text(results, warn_days, critical_days)
        }),
{
    reveal_strlit("STATUS");
    reveal_strlit("STATUS  ");
    assert(text::padded("STATUS"@, 8) =~= "STATUS  "@);
}

/// The lines of two lists of rows follow each other, and a single row has one line, which holds
/// its own cells.
pub proof fn law_body_lines(
    a: Seq<RowView>,
    b: Seq<RowView>,
    row: RowView,
    widths: Widths,
    colorize: bool,
)
    ensures
        body_text(a + b, widths, colorize) == body_text(a, widths, colorize) + body_text(
            b,
            widths,
            colorize,
        ),
        body_text(seq![row], widths, colorize) == line_text(
            status_text(row.severity, colorize),
            row.target,
            row.days,
            row.expires,
            row.hint,
            widths,
        ),
        row_line(row, widths, colorize) == body_text(seq![row], widths, colorize),
    decreases b.len(),
{
    let none = Seq::<char>::empty();
    assert(seq![row].drop_last() =~= Seq::<RowView>::empty());
    assert(body_text(seq![row].drop_last(), widths, colorize) =~= none);
    assert(none + row_line(row, widths, colorize) =~= row_line(row, widths, colorize));
    if b.len() == 0 {
        assert(a + b =~= a);
        assert(body_text(a, widths, colorize) + body_text(b, widths, colorize) =~= body_text(
            a,
            widths,
            colorize,
        ));
    } else {
        law_body_lines(a, b.drop_last(), row, widths, colorize);
        assert((a + b).drop_last() =~= a + b.drop_last());
        assert((a + b).last() == b.last());
        assert(body_text(a + b, widths, colorize) =~= body_text(a, widths, colorize) + body_text(
            b,
            widths,
            colorize,
        ));
    }
}

/// The summary counts the findings: all of them, those that are critical, those that are warnings,
/// and those that are neither.
pub proof fn law_summary_counts(
    results: Seq<CertResult>,
    warn_days: i64,
    critical_days: i64,
    critical: nat,
    warning: nat,
)
    requires
        critical == results.filter(
            |r: CertResult| r@.status.severity(warn_days, critical_days) == Severity::Critical,
        ).len(),
        warning == results.filter(
            |r: CertResult| r@.status.severity(warn_days, critical_days) == Severity::Warning,
        ).len(),
    ensures
        critical + warning <= results.len(),
        summary_text(results, warn_days, critical_days) == "\n"@ + text::decimal(results.len())
            + " targets checked: "@ + text::decimal(critical) + " critical, "@ + text::decimal(
            warning,
        ) + " warning, "@ + text::decimal((results.len() - critical - warning) as nat)
            + " ok\n"@,
{
    scan::law_counts_add_up(results, warn_days, critical_days);
    let (w, c) = (warn_days, critical_days);
    assert((|r: CertResult| scan::severity_of(r, w, c) == Severity::Critical) =~= (|r: CertResult|
        r@.status.severity(w, c) == Severity::Critical));
    assert((|r: CertResult| scan::severity_of(r, w, c) == Severity::Warning) =~= (|r: CertResult|
        r@.status.severity(w, c) == Severity::Warning));
    assert(scan::severity_count(results, w, c, Severity::Critical) == critical);
    assert(scan::severity_count(results, w, c, Severity::Warning) == warning);
}

} // verus!
