//! The page that web mode serves.
use vstd::prelude::*;
use vstd::string::*;
use crate::scan;
use crate::scan::{CertResult, Severity};
use crate::text;

verus! {

/// A character as HTML text.
pub open spec fn escaped_char(c: char) -> Seq<char> {
    if c == '&' {
        "&amp;"@
    } else if c == '<' {
        "&lt;"@
    } else if c == '>' {
        "&gt;"@
    } else {
        seq![c]
    }
}

/// A text as HTML text.
pub open spec fn escaped(s: Seq<char>) -> Seq<char>
    decreases s.len(),
{
    if s.len() == 0 {
        Seq::empty()
    } else {
        escaped_char(s[0]) + escaped(s.drop_first())
    }
}

/// Writes a text as HTML text.
pub fn html_escape(s: &str) -> (r: String)
    ensures
        r@ == escaped(s@),
{
    let chars: Vec<char> = text::to_chars(s);
    let mut out: String = String::new();
    let mut i: usize = 0;
    assert(chars@.skip(0) =~= s@);
    assert(out@ + escaped(s@) =~= escaped(s@));
    while i < chars.len()
        invariant
            chars@ == s@,
            i <= chars@.len(),
            out@ + escaped(chars@.skip(i as int)) == escaped(s@),
        decreases chars@.len() - i,
    {
        let c: char = chars[i];
        let ghost before = out@;
        let ghost rest = chars@.skip(i as int);
        if c == '&' {
            out.append("&amp;");
        } else if c == '<' {
            out.append("&lt;");
        } else if c == '>' {
            out.append("&gt;");
        } else {
            out.push(c);
        }
        assert(rest[0] == c);
        assert(rest.drop_first() =~= chars@.skip(i + 1));
        assert(out@ =~= before + escaped_char(c));
        assert(out@ + escaped(chars@.skip(i + 1)) =~= before + escaped(rest));
        i = i + 1;
    }
    assert(chars@.skip(i as int) =~= Seq::<char>::empty());
    assert(out@ =~= escaped(s@));
    out
}

/// The color of a row by its severity.
pub open spec fn row_color_text(severity: Severity) -> Seq<char> {
    match severity {
        Severity::Okay => "#1a7f37"@,
        Severity::Warning => "#9a6700"@,
        Severity::Critical => "#cf222e"@,
    }
}

/// The row of the table for a finding.
pub open spec fn row_text(result: CertResult, warn_days: i64, critical_days: i64) -> Seq<char> {
    let severity = scan::severity_of(result, warn_days, critical_days);
    "<tr style=\"color:"@ + row_color_text(severity) + "\"><td>"@ + severity.label_text()
        + "</td><td>"@ + escaped(result@.target.address()) + "</td><td>"@
        + result@.status.days_text() + "</td><td>"@ + result@.expires() + "</td><td>"@
        + result@.remark() + "</td></tr>\n"@
}

/// The rows of the table, one after the other.
pub open spec fn table_text(results: Seq<CertResult>, warn_days: i64, critical_days: i64) -> Seq<
    char,
>
    decreases results.len(),
{
    if results.len() == 0 {
        Seq::empty()
    } else {
        table_text(results.drop_last(), warn_days, critical_days) + row_text(
            results.last(),
            warn_days,
            critical_days,
        )
    }
}

/// What the page says about the age of the findings, in seconds as text.
pub open spec fn scan_note_text(age: Option<Seq<char>>) -> Seq<char> {
    match age {
        Some(seconds) => "last scan "@ + seconds + "s ago"@,
        None => "scanning..."@,
    }
}

/// The page up to the number of seconds after which it is to be loaded again.
pub const PAGE_START: &'static str = r#"<!doctype html>
<html>
<head>
<meta charset="utf-8">
<meta http-equiv="refresh" content=""#;

/// The page from there to the number of targets.
pub const PAGE_STYLE: &'static str = r#"">
<title>certmonitor</title>
<style>
  body { font-family: monospace; background: #0d1117; color: #e6edf3; padding: 1.5rem; }
  h1 { font-size: 1.1rem; font-weight: normal; }
  table { border-collapse: collapse; width: 100%; }
  th, td { text-align: left; padding: 0.3rem 0.8rem; border-bottom: 1px solid #30363d; }
  th { color: #8b949e; font-weight: normal; }
</style>
</head>
<body>
<h1>certmonitor — "#;

/// The page from the heading to the rows of the table.
pub const PAGE_TABLE: &'static str = r#")</h1>
<table>
<tr><th>Status</th><th>Target</th><th>Days Left</th><th>Expires</th><th>Hint</th></tr>
"#;

/// The page behind the rows of the table.
pub const PAGE_END: &'static str = r#"</table>
</body>
</html>
"#;

/// The page up to the rows of the table.
pub open spec fn page_head(
    results: Seq<CertResult>,
    age: Option<Seq<char>>,
    warn_days: i64,
    critical_days: i64,
    interval: u64,
) -> Seq<char> {
    PAGE_START@ + text::decimal(interval as nat) + PAGE_STYLE@ + text::decimal(results.len())
        + " targets, "@ + text::decimal(
        scan::severity_count(results, warn_days, critical_days, Severity::Critical),
    ) + " critical, "@ + text::decimal(
        scan::severity_count(results, warn_days, critical_days, Severity::Warning),
    ) + " warning ("@ + scan_note_text(age) + PAGE_TABLE@
}

/// The whole page.
pub open spec fn page_text(
    results: Seq<CertResult>,
    age: Option<Seq<char>>,
    warn_days: i64,
    critical_days: i64,
    interval: u64,
) -> Seq<char> {
    page_head(results, age, warn_days, critical_days, interval) + table_text(
        results,
        warn_days,
        critical_days,
    ) + PAGE_END@
}

/// Picks the color of a row.
pub fn row_color(severity: Severity) -> (r: &'static str)
    ensures
        r@ == row_color_text(severity),
{
    match severity {
        Severity::Okay => "#1a7f37",
        Severity::Warning => "#9a6700",
        Severity::Critical => "#cf222e",
    }
}

/// Writes the row of the table for a finding.
pub fn render_row(result: &CertResult, warn_days: i64, critical_days: i64) -> (r: String)
    requires
        result@.status.countable(),
    ensures
        r@ == row_text(*result, warn_days, critical_days),
{
    let severity: Severity = scan::severity(result, warn_days, critical_days);
    let address: String = result.target.address();
    let address: String = html_escape(address.as_str());
    let days: String = result.status.days_text();
    let expires: String = result.expires();
    let remark: String = result.remark();
    let mut out: String = "<tr style=\"color:".to_owned();
    out.append(row_color(severity));
    out.append("\"><td>");
    out.append(severity.label());
    out.append("</td><td>");
    out.append(address.as_str());
    out.append("</td><td>");
    out.append(days.as_str());
    out.append("</td><td>");
    out.append(expires.as_str());
    out.append("</td><td>");
    out.append(remark.as_str());
    out.append("</td></tr>\n");
    out
}

/// Writes the rows of the table.
pub fn render_rows(results: &Vec<CertResult>, warn_days: i64, critical_days: i64) -> (r: String)
    requires
        scan::all_countable(results@),
    ensures
        r@ == table_text(results@, warn_days, critical_days),
{
    let mut out: String = String::new();
    let mut i: usize = 0;
    while i < results.len()
        invariant
            i <= results@.len(),
            scan::all_countable(results@),
            out@ == table_text(results@.take(i as int), warn_days, critical_days),
        decreases results@.len() - i,
    {
        assert(results@[i as int]@.status.countable());
        assert(results@.take(i + 1).drop_last() =~= results@.take(i as int));
        let row: String = render_row(&results[i], warn_days, critical_days);
        out.append(row.as_str());
        i = i + 1;
    }
    assert(results@.take(i as int) =~= results@);
    out
}

/// Says how old the findings are, in seconds as text; before the first scan there are none.
pub fn scan_note(age: &Option<String>) -> (r: String)
    ensures
        r@ == scan_note_text(scan::optional_view(*age)),
{
    match age {
        Some(seconds) => {
            let mut out: String = "last scan ".to_owned();
            out.append(seconds.as_str());
            out.append("s ago");
            out
        },
        None => "scanning...".to_owned(),
    }
}

/// Renders the page: the findings in a table, and the order to load it again after `interval`
/// seconds.
pub fn render_page(
    results: &Vec<CertResult>,
    age: &Option<String>,
    warn_days: i64,
    critical_days: i64,
    interval: u64,
) -> (r: String)
    requires
        scan::all_countable(results@),
    ensures
        r@ == page_text(
            results@,
            scan::optional_view(*age),
            warn_days,
            critical_days,
            interval,
        ),
{
    let note: String = scan_note(age);
    let rows: String = render_rows(results, warn_days, critical_days);
    let critical: usize = scan::count_severity(
        results,
        warn_days,
        critical_days,
        Severity::Critical,
    );
    let warning: usize = scan::count_severity(results, warn_days, critical_days, Severity::Warning);
    let mut out: String = PAGE_START.to_owned();
    text::push_decimal(&mut out, interval);
    out.append(PAGE_STYLE);
    text::push_decimal(&mut out, results.len() as u64);
    out.append(" targets, ");
    text::push_decimal(&mut out, critical as u64);
    out.append(" critical, ");
    text::push_decimal(&mut out, warning as u64);
    out.append(" warning (");
    out.append(note.as_str());
    out.append(PAGE_TABLE);
    out.append(rows.as_str());
    out.append(PAGE_END);
    out
}

/// Every occurrence of `c` replaced by `by`.
pub open spec fn replaced(s: Seq<char>, c: char, by: Seq<char>) -> Seq<char>
    decreases s.len(),
{
    if s.len() == 0 {
        Seq::empty()
    } else {
        (if s[0] == c {
            by
        } else {
            seq![s[0]]
        }) + replaced(s.drop_first(), c, by)
    }
}

/// Whether the text starts with `prefix`.
pub open spec fn starts_with(s: Seq<char>, prefix: Seq<char>) -> bool {
    prefix.len() <= s.len() && s.take(prefix.len() as int) == prefix
}

/// The text that HTML text stands for, as far as the three entities of [`escaped_char`] go.
pub open spec fn unescaped(s: Seq<char>) -> Seq<char>
    decreases s.len(),
{
    if s.len() == 0 {
        Seq::empty()
    } else if starts_with(s, seq!['&', 'a', 'm', 'p', ';']) {
        seq!['&'] + unescaped(s.skip(5))
    } else if starts_with(s, seq!['&', 'l', 't', ';']) {
        seq!['<'] + unescaped(s.skip(4))
    } else if starts_with(s, seq!['&', 'g', 't', ';']) {
        seq!['>'] + unescaped(s.skip(4))
    } else {
        seq![s[0]] + unescaped(s.drop_first())
    }
}

proof fn lemma_entities()
    ensures
        "&amp;"@ == seq!['&', 'a', 'm', 'p', ';'],
        "&lt;"@ == seq!['&', 'l', 't', ';'],
        "&gt;"@ == seq!['&', 'g', 't', ';'],
{
    reveal_strlit("&amp;");
    reveal_strlit("&lt;");
    reveal_strlit("&gt;");
    assert("&amp;"@ =~= seq!['&', 'a', 'm', 'p', ';']);
    assert("&lt;"@ =~= seq!['&', 'l', 't', ';']);
    assert("&gt;"@ =~= seq!['&', 'g', 't', ';']);
}

/// Escaped text opens and closes no tags: it has no `<` and no `>`.
pub proof fn law_escaped_text_has_no_tags(s: Seq<char>)
    ensures
        !escaped(s).contains('<'),
        !escaped(s).contains('>'),
    decreases s.len(),
{
    if s.len() > 0 {
        lemma_entities();
        law_escaped_text_has_no_tags(s.drop_first());
        let head = escaped_char(s[0]);
        let rest = escaped(s.drop_first());
        assert forall|i: int| 0 <= i < escaped(s).len() implies escaped(s)[i] != '<' && escaped(
            s,
        )[i] != '>' by {
            if i < head.len() {
                assert(escaped(s)[i] == head[i]);
            } else {
                assert(escaped(s)[i] == rest[i - head.len()]);
                assert(rest.contains(rest[i - head.len()]));
            }
        }
    }
}

/// Escaping goes over joining: two texts can be escaped one by one.
pub proof fn law_escape_goes_over_joining(a: Seq<char>, b: Seq<char>)
    ensures
        escaped(a + b) == escaped(a) + escaped(b),
    decreases a.len(),
{
    if a.len() == 0 {
        assert(a + b =~= b);
        assert(escaped(a) + escaped(b) =~= escaped(b));
    } else {
        law_escape_goes_over_joining(a.drop_first(), b);
        assert((a + b).drop_first() =~= a.drop_first() + b);
        assert(escaped(a + b) =~= escaped(a) + escaped(b));
    }
}

/// A browser shows what was escaped: reading the entities back gives the text.
pub proof fn law_escape_round_trip(s: Seq<char>)
    ensures
        unescaped(escaped(s)) == s,
    decreases s.len(),
{
    if s.len() > 0 {
        lemma_entities();
        law_escape_round_trip(s.drop_first());
        let head = escaped_char(s[0]);
        let rest = escaped(s.drop_first());
        let all = escaped(s);
        let n = head.len() as int;
        assert(all.take(n) =~= head);
        assert(all.skip(n) =~= rest);
        assert(all[0] == head[0]);
        if s[0] == '&' {
        } else if s[0] == '<' {
            assert(all[1] == 'l');
            assert(!starts_with(all, seq!['&', 'a', 'm', 'p', ';'])) by {
                assert(seq!['&', 'a', 'm', 'p', ';'][1] == 'a');
                assert(all.len() >= 5 ==> all.take(5)[1] == 'l');
            }
        } else if s[0] == '>' {
            assert(all[1] == 'g');
            assert(!starts_with(all, seq!['&', 'a', 'm', 'p', ';'])) by {
                assert(seq!['&', 'a', 'm', 'p', ';'][1] == 'a');
                assert(all.len() >= 5 ==> all.take(5)[1] == 'g');
            }
            assert(!starts_with(all, seq!['&', 'l', 't', ';'])) by {
                assert(seq!['&', 'l', 't', ';'][1] == 'l');
                assert(all.take(4)[1] == 'g');
            }
        } else {
            assert(all[0] == s[0]);
            assert(seq!['&', 'a', 'm', 'p', ';'][0] == '&');
            assert(seq!['&', 'l', 't', ';'][0] == '&');
            assert(seq!['&', 'g', 't', ';'][0] == '&');
            assert(all.len() >= 5 ==> all.take(5)[0] == s[0]);
            assert(all.len() >= 4 ==> all.take(4)[0] == s[0]);
            assert(all.drop_first() =~= rest);
        }
        assert(seq![s[0]] + s.drop_first() =~= s);
    }
}

proof fn lemma_replaced_concat(a: Seq<char>, b: Seq<char>, c: char, by: Seq<char>)
    ensures
        replaced(a + b, c, by) == replaced(a, c, by) + replaced(b, c, by),
    decreases a.len(),
{
    if a.len() == 0 {
        assert(a + b =~= b);
        assert(replaced(a, c, by) + replaced(b, c, by) =~= replaced(b, c, by));
    } else {
        lemma_replaced_concat(a.drop_first(), b, c, by);
        assert((a + b).drop_first() =~= a.drop_first() + b);
        assert(replaced(a + b, c, by) =~= replaced(a, c, by) + replaced(b, c, by));
    }
}

proof fn lemma_replaced_absent(s: Seq<char>, c: char, by: Seq<char>)
    requires
        forall|i: int| 0 <= i < s.len() ==> #[trigger] s[i] != c,
    ensures
        replaced(s, c, by) == s,
    decreases s.len(),
{
    if s.len() > 0 {
        lemma_replaced_absent(s.drop_first(), c, by);
        assert(seq![s[0]] + s.drop_first() =~= s);
    }
}

proof fn lemma_replaced_single(c: char, what: char, by: Seq<char>)
    ensures
        replaced(seq![c], what, by) == (if c == what {
            by
        } else {
            seq![c]
        }),
{
    assert(seq![c].drop_first() =~= Seq::<char>::empty());
    assert(replaced(seq![c].drop_first(), what, by) =~= Seq::<char>::empty());
    assert(replaced(seq![c], what, by) =~= (if c == what {
        by
    } else {
        seq![c]
    }));
}

/// Escaping is the same as replacing `&`, then `<`, then `>` in the whole text.
pub proof fn law_escape_is_three_replacements(s: Seq<char>)
    ensures
        escaped(s) == replaced(
            replaced(replaced(s, '&', "&amp;"@), '<', "&lt;"@),
            '>',
            "&gt;"@,
        ),
    decreases s.len(),
{
    let amp = "&amp;"@;
    let lt = "&lt;"@;
    let gt = "&gt;"@;
    if s.len() > 0 {
        lemma_entities();
        let head = seq![s[0]];
        let rest = s.drop_first();
        law_escape_is_three_replacements(rest);
        assert(s =~= head + rest);
        lemma_replaced_concat(head, rest, '&', amp);
        lemma_replaced_single(s[0], '&', amp);
        let head1 = replaced(head, '&', amp);
        let rest1 = replaced(rest, '&', amp);
        lemma_replaced_concat(head1, rest1, '<', lt);
        if s[0] == '&' {
            lemma_replaced_absent(head1, '<', lt);
        } else {
            lemma_replaced_single(s[0], '<', lt);
        }
        let head2 = replaced(head1, '<', lt);
        let rest2 = replaced(rest1, '<', lt);
        lemma_replaced_concat(head2, rest2, '>', gt);
        if s[0] == '&' || s[0] == '<' {
            lemma_replaced_absent(head2, '>', gt);
        } else {
            lemma_replaced_single(s[0], '>', gt);
        }
        assert(replaced(head2, '>', gt) =~= escaped_char(s[0]));
    }
}

proof fn lemma_row_in_table(
    results: Seq<CertResult>,
    warn_days: i64,
    critical_days: i64,
    i: int,
) -> (at: int)
    requires
        0 <= i < results.len(),
    ensures
        text::occurs_at(
            table_text(results, warn_days, critical_days),
            row_text(results[i], warn_days, critical_days),
            at,
        ),
    decreases results.len(),
{
    let table = table_text(results, warn_days, critical_days);
    let before = table_text(results.drop_last(), warn_days, critical_days);
    let row = row_text(results[i], warn_days, critical_days);
    if i == results.len() - 1 {
        let at = before.len() as int;
        assert(table.subrange(at, at + row.len()) =~= row);
        at
    } else {
        let at = lemma_row_in_table(results.drop_last(), warn_days, critical_days, i);
        assert(table.subrange(at, at + row.len()) =~= before.subrange(at, at + row.len()));
        at
    }
}

/// The page shows every finding of the scan.
pub proof fn law_page_shows_every_finding(
    results: Seq<CertResult>,
    age: Option<Seq<char>>,
    warn_days: i64,
    critical_days: i64,
    interval: u64,
    i: int,
)
    requires
        0 <= i < results.len(),
    ensures
        text::has_substring(
            page_text(results, age, warn_days, critical_days, interval),
            row_text(results[i], warn_days, critical_days),
        ),
{
    let page = page_text(results, age, warn_days, critical_days, interval);
    let table = table_text(results, warn_days, critical_days);
    let row = row_text(results[i], warn_days, critical_days);
    let at = lemma_row_in_table(results, warn_days, critical_days, i);
    let start = page.len() - PAGE_END@.len() - table.len();
    assert(page.subrange(start, start + table.len()) =~= table);
    assert(page.subrange(start + at, start + at + row.len()) =~= table.subrange(
        at,
        at + row.len(),
    ));
    assert(text::occurs_at(page, row, start + at));
}

/// The row of a finding up to what its address cell holds.
pub open spec fn row_head(result: CertResult, warn_days: i64, critical_days: i64) -> Seq<char> {
    let severity = scan::severity_of(result, warn_days, critical_days);
    "<tr style=\"color:"@ + row_color_text(severity) + "\"><td>"@ + severity.label_text()
        + "</td><td>"@
}

/// The row of a finding from the end of its address cell on.
pub open spec fn row_tail(result: CertResult) -> Seq<char> {
    "</td><td>"@ + result@.status.days_text() + "</td><td>"@ + result@.expires() + "</td><td>"@
        + result@.remark() + "</td></tr>\n"@
}

/// The page where the address cell of the row `k` holds `cell`.
pub open spec fn page_around(
    results: Seq<CertResult>,
    age: Option<Seq<char>>,
    warn_days: i64,
    critical_days: i64,
    interval: u64,
    k: int,
    cell: Seq<char>,
) -> Seq<char> {
    page_head(results, age, warn_days, critical_days, interval) + table_text(
        results.take(k),
        warn_days,
        critical_days,
    ) + row_head(results[k], warn_days, critical_days) + cell + row_tail(results[k]) + table_text(
        results.skip(k + 1),
        warn_days,
        critical_days,
    ) + PAGE_END@
}

proof fn lemma_table_concat(
    a: Seq<CertResult>,
    b: Seq<CertResult>,
    warn_days: i64,
    critical_days: i64,
)
    ensures
        table_text(a + b, warn_days, critical_days) == table_text(a, warn_days, critical_days)
            + table_text(b, warn_days, critical_days),
    decreases b.len(),
{
    if b.len() == 0 {
        assert(a + b =~= a);
        assert(table_text(a, warn_days, critical_days) + table_text(b, warn_days, critical_days)
            =~= table_text(a, warn_days, critical_days));
    } else {
        lemma_table_concat(a, b.drop_last(), warn_days, critical_days);
        assert((a + b).drop_last() =~= a + b.drop_last());
        assert((a + b).last() == b.last());
        assert(table_text(a + b, warn_days, critical_days) =~= table_text(
            a,
            warn_days,
            critical_days,
        ) + table_text(b, warn_days, critical_days));
    }
}

proof fn lemma_page_around(
    results: Seq<CertResult>,
    age: Option<Seq<char>>,
    warn_days: i64,
    critical_days: i64,
    interval: u64,
    k: int,
)
    requires
        0 <= k < results.len(),
    ensures
        page_text(results, age, warn_days, critical_days, interval) == page_around(
            results,
            age,
            warn_days,
            critical_days,
            interval,
            k,
            escaped(results[k]@.target.address()),
        ),
{
    let (w, c) = (warn_days, critical_days);
    let before = results.take(k);
    let row = seq![results[k]];
    let after = results.skip(k + 1);
    assert(results =~= before + row + after);
    lemma_table_concat(before + row, after, w, c);
    lemma_table_concat(before, row, w, c);
    assert(row.drop_last() =~= Seq::<CertResult>::empty());
    assert(table_text(row.drop_last(), w, c) =~= Seq::<char>::empty());
    assert(table_text(row, w, c) =~= row_text(results[k], w, c));
    assert(row_text(results[k], w, c) =~= row_head(results[k], w, c) + escaped(
        results[k]@.target.address(),
    ) + row_tail(results[k]));
    let head = page_head(results, age, w, c, interval);
    lemma_joined(
        head,
        table_text(before, w, c),
        row_head(results[k], w, c),
        escaped(results[k]@.target.address()),
        row_tail(results[k]),
        table_text(after, w, c),
        PAGE_END@,
    );
}

proof fn lemma_joined(
    head: Seq<char>,
    before: Seq<char>,
    row_head: Seq<char>,
    cell: Seq<char>,
    row_tail: Seq<char>,
    after: Seq<char>,
    end: Seq<char>,
)
    ensures
        head + (before + (row_head + cell + row_tail) + after) + end == head + before + row_head
            + cell + row_tail + after + end,
{
}

/// A host shows only in the address cell of its row: two pages whose findings differ in the host
/// of one of them are the same but for what that cell holds, which is the escaped address.
pub proof fn law_host_shows_only_in_its_cell(
    results: Seq<CertResult>,
    other: CertResult,
    age: Option<Seq<char>>,
    warn_days: i64,
    critical_days: i64,
    interval: u64,
    k: int,
)
    requires
        0 <= k < results.len(),
        other@.status == results[k]@.status,
        other@.not_after == results[k]@.not_after,
        other@.subject == results[k]@.subject,
        other@.issuer == results[k]@.issuer,
        other@.target.port == results[k]@.target.port,
    ensures
        page_text(results, age, warn_days, critical_days, interval) == page_around(
            results,
            age,
            warn_days,
            critical_days,
            interval,
            k,
            escaped(results[k]@.target.address()),
        ),
        page_text(results.update(k, other), age, warn_days, critical_days, interval) == page_around(
            results,
            age,
            warn_days,
            critical_days,
            interval,
            k,
            escaped(other@.target.address()),
        ),
{
    let (w, c) = (warn_days, critical_days);
    let changed = results.update(k, other);
    lemma_page_around(results, age, w, c, interval, k);
    lemma_page_around(changed, age, w, c, interval, k);
    assert forall|i: int| 0 <= i < results.len() implies scan::severity_of(
        #[trigger] results[i],
        w,
        c,
    ) == scan::severity_of(changed[i], w, c) by {}
    scan::lemma_counts_follow_severities(results, changed, w, c, Severity::Critical);
    scan::lemma_counts_follow_severities(results, changed, w, c, Severity::Warning);
    assert(changed.take(k) =~= results.take(k));
    assert(changed.skip(k + 1) =~= results.skip(k + 1));
    assert(row_tail(changed[k]) == row_tail(results[k]));
}

/// The heading of a page counts the findings: all of them, those that are critical and those that
/// are warnings.
pub proof fn law_heading_counts(
    results: Seq<CertResult>,
    age: Option<Seq<char>>,
    warn_days: i64,
    critical_days: i64,
    interval: u64,
    critical: nat,
    warning: nat,
)
    requires
        critical == results.filter(
            |r: CertResult| r@.status.severity(warn_days, critical_days) == Severity::Critical,
        ).len(),
        warning == results.filter(
            |r: CertResult| r@.status.severity(warn_days, critical_days) == Severity::Warning,
        ).len(),
    ensures
        text::has_substring(
            page_text(results, age, warn_days, critical_days, interval),
            text::decimal(results.len()) + " targets, "@ + text::decimal(critical) + " critical, "@
                + text::decimal(warning) + " warning ("@ + scan_note_text(age) + ")"@,
        ),
{
    let (w, c) = (warn_days, critical_days);
    assert((|r: CertResult| scan::severity_of(r, w, c) == Severity::Critical) =~= (|r: CertResult|
        r@.status.severity(w, c) == Severity::Critical));
    assert((|r: CertResult| scan::severity_of(r, w, c) == Severity::Warning) =~= (|r: CertResult|
        r@.status.severity(w, c) == Severity::Warning));
    assert(scan::severity_count(results, w, c, Severity::Critical) == critical);
    assert(scan::severity_count(results, w, c, Severity::Warning) == warning);
    let start = PAGE_START@ + text::decimal(interval as nat) + PAGE_STYLE@;
    let counts = text::decimal(results.len()) + " targets, "@ + text::decimal(critical)
        + " critical, "@ + text::decimal(warning) + " warning ("@ + scan_note_text(age);
    let rest = table_text(results, w, c) + PAGE_END@;
    let heading = counts + ")"@;
    let page = page_text(results, age, w, c, interval);
    assert(PAGE_TABLE@ =~= ")"@ + PAGE_TABLE@.skip(1)) by {
        reveal_strlit(")");
        reveal_strlit(
            r#")</h1>
<table>
<tr><th>Status</th><th>Target</th><th>Days Left</th><th>Expires</th><th>Hint</th></tr>
"#,
        );
    }
    let tail = PAGE_TABLE@.skip(1) + rest;
    assert(page_head(results, age, w, c, interval) =~= start + counts + PAGE_TABLE@);
    assert(page =~= start + heading + tail);
    let at = start.len() as int;
    assert(page.subrange(at, at + heading.len()) =~= heading);
    assert(text::occurs_at(page, heading, at));
}

/// The page asks to be loaded again after `interval` seconds.
pub proof fn law_page_refreshes(
    results: Seq<CertResult>,
    age: Option<Seq<char>>,
    warn_days: i64,
    critical_days: i64,
    interval: u64,
)
    ensures
        text::has_substring(
            page_text(results, age, warn_days, critical_days, interval),
            "http-equiv=\"refresh\" content=\""@ + text::decimal(interval as nat) + "\">"@,
        ),
{
    let order = "http-equiv=\"refresh\" content=\""@;
    let number = text::decimal(interval as nat);
    let end = "\">"@;
    let page = page_text(results, age, warn_days, critical_days, interval);
    let at = PAGE_START@.len() - order.len();
    assert(0 <= at && PAGE_START@.skip(at) =~= order && PAGE_STYLE@.len() >= 2 && PAGE_STYLE@.take(
        2,
    ) =~= end) by {
        reveal_strlit("http-equiv=\"refresh\" content=\"");
        reveal_strlit("\">");
        reveal_strlit(
            r#"<!doctype html>
<html>
<head>
<meta charset="utf-8">
<meta http-equiv="refresh" content=""#,
        );
        reveal_strlit(
            r#"">
<title>certmonitor</title>
<style>
  body { font-family: monospace; background: #0d1117; color: #e6edf3; padding: 1.5rem; }
  h1 { font-size: 1.1rem; font-weight: normal; }
  table { border-collapse: collapse; width: 100%; }
  th, td { text-align: left; padding: 0.3rem 0.8rem; border-bottom: 1px solid #30363d; }
  th { color: #8b949e; font-weight: normal; }
</style>
</head>
<body>
<h1>certmonitor — "#,
        );
    }
    let wanted = order + number + end;
    let known = PAGE_START@ + number + PAGE_STYLE@;
    assert(end.len() == 2);
    assert(known.subrange(at, at + wanted.len()) =~= wanted) by {
        assert forall|i: int|
            0 <= i < wanted.len() implies known[at + i] == #[trigger] wanted[i] by {
            if i < order.len() {
                assert(PAGE_START@.skip(at)[i] == PAGE_START@[at + i]);
            } else if i >= order.len() + number.len() {
                assert(PAGE_STYLE@.take(2)[i - order.len() - number.len()] == end[i - order.len()
                    - number.len()]);
            }
        }
    }
    assert(page.len() >= known.len() && page.take(known.len() as int) =~= known);
    assert(page.subrange(at, at + wanted.len()) =~= known.subrange(at, at + wanted.len()));
    assert(text::occurs_at(page, wanted, at));
}

/// The table of a page is its titles, the rows of all findings in their order, and nothing else.
pub proof fn law_page_holds_the_table(
    results: Seq<CertResult>,
    age: Option<Seq<char>>,
    warn_days: i64,
    critical_days: i64,
    interval: u64,
)
    ensures
        ({
            let page = page_text(results, age, warn_days, critical_days, interval);
            let table = PAGE_TABLE@ + table_text(results, warn_days, critical_days) + PAGE_END@;
            page.len() >= table.len() && page.skip(page.len() - table.len()) == table
        }),
{
    let page = page_text(results, age, warn_days, critical_days, interval);
    let table = PAGE_TABLE@ + table_text(results, warn_days, critical_days) + PAGE_END@;
    assert(page.skip(page.len() - table.len()) =~= table);
}

/// The rows of two lists of findings follow each other, and a single finding has one row.
pub proof fn law_table_rows(
    a: Seq<CertResult>,
    b: Seq<CertResult>,
    result: CertResult,
    warn_days: i64,
    critical_days: i64,
)
    ensures
        table_text(a + b, warn_days, critical_days) == table_text(a, warn_days, critical_days)
            + table_text(b, warn_days, critical_days),
        table_text(seq![result], warn_days, critical_days) == row_text(
            result,
            warn_days,
            critical_days,
        ),
{
    lemma_table_concat(a, b, warn_days, critical_days);
    assert(seq![result].drop_last() =~= Seq::<CertResult>::empty());
    assert(table_text(seq![result].drop_last(), warn_days, critical_days) =~= Seq::<char>::empty());
    assert(table_text(seq![result], warn_days, critical_days) =~= row_text(
        result,
        warn_days,
        critical_days,
    ));
}

/// A row starts with its color and its label, which follow from the severity, and then holds the
/// escaped address, the days left, the day of expiry and the remark.
pub proof fn law_row_cells(result: CertResult, warn_days: i64, critical_days: i64)
    ensures
        ({
            let cells = "</td><td>"@ + escaped(
                result@.target.host + ":"@ + text::decimal(result@.target.port as nat),
            ) + "</td><td>"@ + result@.status.days_text() + "</td><td>"@ + result@.expires()
                + "</td><td>"@ + result@.remark() + "</td></tr>\n"@;
            let row = row_text(result, warn_days, critical_days);
            match result@.status.severity(warn_days, critical_days) {
                Severity::Okay => row == "<tr style=\"color:"@ + "#1a7f37"@ + "\"><td>"@ + "OK"@
                    + cells,
                Severity::Warning => row == "<tr style=\"color:"@ + "#9a6700"@ + "\"><td>"@
                    + "WARNING"@ + cells,
                Severity::Critical => row == "<tr style=\"color:"@ + "#cf222e"@ + "\"><td>"@
                    + "CRITICAL"@ + cells,
            }
        }),
{
    let severity = scan::severity_of(result, warn_days, critical_days);
    let address = escaped(result@.target.address());
    let cells = "</td><td>"@ + address + "</td><td>"@ + result@.status.days_text() + "</td><td>"@
        + result@.expires() + "</td><td>"@ + result@.remark() + "</td></tr>\n"@;
    let start = "<tr style=\"color:"@ + row_color_text(severity) + "\"><td>"@
        + severity.label_text();
    assert(row_text(result, warn_days, critical_days) =~= start + cells);
}

/// The page says how many seconds ago the last scan was, or that the first one is running.
pub proof fn law_scan_note(seconds: Seq<char>)
    ensures
        scan_note_text(Some(seconds)) == "last scan "@ + seconds + "s ago"@,
        scan_note_text(None) == "scanning..."@,
{
}

/// Three characters are escaped, each by its own entity, and all others stand for themselves.
pub proof fn law_escaped_characters(c: char)
    ensures
        escaped(seq!['&']) == "&amp;"@,
        escaped(seq!['<']) == "&lt;"@,
        escaped(seq!['>']) == "&gt;"@,
        c != '&' && c != '<' && c != '>' ==> escaped(seq![c]) == seq![c],
        escaped(Seq::empty()) == Seq::<char>::empty(),
{
    assert forall|d: char| #[trigger] escaped(seq![d]) == escaped_char(d) by {
        assert(seq![d].drop_first() =~= Seq::<char>::empty());
        assert(escaped(seq![d].drop_first()) =~= Seq::<char>::empty());
        assert(escaped(seq![d]) =~= escaped_char(d));
    }
}

} // verus!
