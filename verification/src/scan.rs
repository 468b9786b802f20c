//! What a check of one target found, and how the findings are judged, described and ranked.
use vstd::prelude::*;
use vstd::string::*;
use vstd::utf8::*;
use crate::target::{Target, TargetView};
use crate::text;

verus! {

/// The outcome of a check.
#[derive(Debug, PartialEq)]
pub enum Status {
    /// Days until the certificate expires (negative means already expired).
    Days(i64),
    /// The connection, the TLS handshake or the reading of the certificate failed.
    Error(String),
}

/// A [`Status`] with its message as a sequence of characters.
pub enum StatusView {
    Days(i64),
    Error(Seq<char>),
}

impl View for Status {
    type V = StatusView;

    open spec fn view(&self) -> StatusView {
        match *self {
            Status::Days(days) => StatusView::Days(days),
            Status::Error(message) => StatusView::Error(message@),
        }
    }
}

impl Clone for Status {
    fn clone(&self) -> (r: Self)
        ensures
            r == *self,
    {
        match self {
            Status::Days(days) => Status::Days(*days),
            Status::Error(message) => Status::Error(message.clone()),
        }
    }
}

/// What the check of a target found.
#[derive(Debug)]
pub struct CertResult {
    pub target: Target,
    pub status: Status,
    pub not_after: Option<String>,
    pub subject: Option<String>,
    pub issuer: Option<String>,
}

/// A [`CertResult`] with its texts as sequences of characters.
pub struct CertView {
    pub target: TargetView,
    pub status: StatusView,
    pub not_after: Option<Seq<char>>,
    pub subject: Option<Seq<char>>,
    pub issuer: Option<Seq<char>>,
}

/// The characters of an optional string.
pub open spec fn optional_view(s: Option<String>) -> Option<Seq<char>> {
    match s {
        Some(s) => Some(s@),
        None => None,
    }
}

fn copied(s: &Option<String>) -> (r: Option<String>)
    ensures
        r == *s,
{
    match s {
        Some(s) => Some(s.clone()),
        None => None,
    }
}

impl Clone for CertResult {
    fn clone(&self) -> (r: Self)
        ensures
            r == *self,
    {
        CertResult {
            target: self.target.clone(),
            status: self.status.clone(),
            not_after: copied(&self.not_after),
            subject: copied(&self.subject),
            issuer: copied(&self.issuer),
        }
    }
}

impl View for CertResult {
    type V = CertView;

    open spec fn view(&self) -> CertView {
        CertView {
            target: self.target@,
            status: self.status@,
            not_after: optional_view(self.not_after),
            subject: optional_view(self.subject),
            issuer: optional_view(self.issuer),
        }
    }
}

/// How urgent a finding is.
#[derive(Debug, Clone, Copy, PartialEq, Eq, PartialOrd, Ord, Structural)]
pub enum Severity {
    Okay,
    Warning,
    Critical,
}

impl StatusView {
    /// Whether the days of an expired certificate can be counted as a positive number.
    pub open spec fn countable(self) -> bool {
        self != StatusView::Days(i64::MIN)
    }

    /// The severity of the status: critical where the check failed, and where the certificate has
    /// expired or has fewer than `critical_days` left; a warning where it has fewer than
    /// `warn_days` left.
    pub open spec fn severity(self, warn_days: i64, critical_days: i64) -> Severity {
        match self {
            StatusView::Error(_) => Severity::Critical,
            StatusView::Days(days) => if days < 0 || days < critical_days {
                Severity::Critical
            } else if days < warn_days {
                Severity::Warning
            } else {
                Severity::Okay
            },
        }
    }

    /// The days left, in the short form of the tables.
    pub open spec fn days_text(self) -> Seq<char> {
        match self {
            StatusView::Days(days) => if days < 0 {
                "expired "@ + text::decimal(-days as nat) + "d ago"@
            } else {
                text::decimal(days as nat) + "d"@
            },
            StatusView::Error(_) => "-"@,
        }
    }

    /// Where the status stands in the ranking: by days left, failed checks at the end.
    pub open spec fn rank(self) -> i64 {
        match self {
            StatusView::Days(days) => days,
            StatusView::Error(_) => i64::MAX,
        }
    }
}

/// The advice that follows from an issuer's name in lower case.
pub open spec fn issuer_hint_text(lower: Seq<char>) -> Seq<char> {
    if text::has_substring(lower, "let's encrypt"@) || text::has_substring(lower, "lets encrypt"@) {
        "run certbot renew (or your ACME client) on the server"@
    } else if text::has_substring(lower, "zerossl"@) {
        "renew via your ACME client (ZeroSSL)"@
    } else {
        "renew through the issuing CA"@
    }
}

/// Whether the issuer calls itself Let's Encrypt, in letters of any case.
pub open spec fn names_lets_encrypt(issuer: Seq<char>) -> bool {
    ||| text::has_substring(text::ascii_lowercase(issuer), "let's encrypt"@)
    ||| text::has_substring(text::ascii_lowercase(issuer), "lets encrypt"@)
}

/// Whether the issuer calls itself ZeroSSL, in letters of any case.
pub open spec fn names_zerossl(issuer: Seq<char>) -> bool {
    text::has_substring(text::ascii_lowercase(issuer), "zerossl"@)
}

impl CertView {
    /// The issuer of a certificate that was read and that its subject did not issue itself.
    pub open spec fn foreign_issuer(self) -> Option<Seq<char>> {
        match (self.status, self.subject, self.issuer) {
            (StatusView::Days(_), Some(subject), Some(issuer)) => if subject == issuer {
                None
            } else {
                Some(issuer)
            },
            _ => None,
        }
    }

    /// The advice on how to renew the certificate.
    pub open spec fn renewal_hint(self) -> Seq<char> {
        if self.status is Error {
            "fix connectivity first"@
        } else {
            match (self.subject, self.issuer) {
                (Some(subject), Some(issuer)) => if subject == issuer {
                    "self-signed: regenerate manually"@
                } else {
                    issuer_hint_text(text::lowercase(issuer))
                },
                _ => "-"@,
            }
        }
    }

    /// What the last column of a report says: why the check failed, or how to renew.
    pub open spec fn remark(self) -> Seq<char> {
        match self.status {
            StatusView::Error(message) => message,
            StatusView::Days(_) => self.renewal_hint(),
        }
    }

    /// The day on which the certificate expires, or `-`.
    pub open spec fn expires(self) -> Seq<char> {
        match self.not_after {
            Some(day) => day,
            None => "-"@,
        }
    }
}

/// Tells how urgent a finding is.
pub fn severity(result: &CertResult, warn_days: i64, critical_days: i64) -> (r: Severity)
    ensures
        r == result@.status.severity(warn_days, critical_days),
{
    match &result.status {
        Status::Error(_) => Severity::Critical,
        Status::Days(days) => if *days < 0 || *days < critical_days {
            Severity::Critical
        } else if *days < warn_days {
            Severity::Warning
        } else {
            Severity::Okay
        },
    }
}

/// Picks the advice for an issuer, whose name is given in lower case.
pub fn issuer_hint(lower: &str) -> (r: &'static str)
    ensures
        r@ == issuer_hint_text(lower@),
{
    if text::contains(lower, "let's encrypt") || text::contains(lower, "lets encrypt") {
        "run certbot renew (or your ACME client) on the server"
    } else if text::contains(lower, "zerossl") {
        "renew via your ACME client (ZeroSSL)"
    } else {
        "renew through the issuing CA"
    }
}

impl Severity {
    /// The severity as the reports spell it.
    pub open spec fn label_text(self) -> Seq<char> {
        match self {
            Severity::Okay => "OK"@,
            Severity::Warning => "WARNING"@,
            Severity::Critical => "CRITICAL"@,
        }
    }

    /// The severity as the reports spell it.
    pub fn label(&self) -> (r: &'static str)
        ensures
            r@ == self.label_text(),
    {
        match self {
            Severity::Okay => "OK",
            Severity::Warning => "WARNING",
            Severity::Critical => "CRITICAL",
        }
    }
}

impl Status {
    /// The days left, in the short form of the tables.
    pub fn days_text(&self) -> (r: String)
        requires
            self@.countable(),
        ensures
            r@ == self@.days_text(),
    {
        match self {
            Status::Days(days) => {
                let days: i64 = *days;
                if days < 0 {
                    let mut out: String = "expired ".to_owned();
                    text::push_decimal(&mut out, (-days) as u64);
                    out.append("d ago");
                    out
                } else {
                    let mut out: String = String::new();
                    text::push_decimal(&mut out, days as u64);
                    out.append("d");
                    assert(out@ =~= self@.days_text());
                    out
                }
            },
            Status::Error(_) => "-".to_owned(),
        }
    }
}

impl CertResult {
    /// A short, actionable hint on how to renew this certificate, guessed from who issued it.
    ///
    /// The TLS handshake does not tell how the server manages its certificates, so this is a
    /// starting point, not a command to run blindly.
    pub fn renewal_hint(&self) -> (r: &'static str)
        ensures
            r@ == self@.renewal_hint(),
            self@.foreign_issuer() matches Some(issuer) ==> {
                &&& is_ascii_chars(issuer) ==> r@ == issuer_hint_text(text::ascii_lowercase(issuer))
                &&& names_lets_encrypt(issuer) ==> r@
                    == "run certbot renew (or your ACME client) on the server"@
                &&& names_zerossl(issuer) ==> r@ == "renew via your ACME client (ZeroSSL)"@ || r@
                    == "run certbot renew (or your ACME client) on the server"@
            },
    {
        proof {
            lemma_issuer_names_are_ascii();
        }
        if let Status::Error(_) = &self.status {
            return "fix connectivity first";
        }
        match (&self.subject, &self.issuer) {
            (Some(subject), Some(issuer)) => {
                if *subject == *issuer {
                    return "self-signed: regenerate manually";
                }
                let lower: String = issuer.as_str().to_lowercase();
                issuer_hint(lower.as_str())
            },
            _ => "-",
        }
    }

    /// What the last column of a report says: why the check failed, or how to renew.
    pub fn remark(&self) -> (r: String)
        ensures
            r@ == self@.remark(),
    {
        match &self.status {
            Status::Error(message) => message.clone(),
            Status::Days(_) => self.renewal_hint().to_owned(),
        }
    }

    /// The day on which the certificate expires, or `-`.
    pub fn expires(&self) -> (r: String)
        ensures
            r@ == self@.expires(),
    {
        match &self.not_after {
            Some(day) => day.clone(),
            None => "-".to_owned(),
        }
    }
}

/// Whether the days of every finding can be counted.
pub open spec fn all_countable(results: Seq<CertResult>) -> bool {
    forall|i: int| 0 <= i < results.len() ==> (#[trigger] results[i])@.status.countable()
}

/// The severity of a finding.
pub open spec fn severity_of(result: CertResult, warn_days: i64, critical_days: i64) -> Severity {
    result@.status.severity(warn_days, critical_days)
}

/// The number of findings of a severity.
pub open spec fn severity_count(
    results: Seq<CertResult>,
    warn_days: i64,
    critical_days: i64,
    wanted: Severity,
) -> nat {
    results.filter(|r: CertResult| severity_of(r, warn_days, critical_days) == wanted).len()
}

/// Whether some finding has the severity.
pub open spec fn has_severity(
    results: Seq<CertResult>,
    warn_days: i64,
    critical_days: i64,
    wanted: Severity,
) -> bool {
    exists|i: int|
        0 <= i < results.len() && severity_of(#[trigger] results[i], warn_days, critical_days)
            == wanted
}

/// The exit code for a set of findings: 2 where one is critical, else 1 where one is a warning,
/// else 0.
pub open spec fn exit_code_of(results: Seq<CertResult>, warn_days: i64, critical_days: i64) -> i32 {
    if has_severity(results, warn_days, critical_days, Severity::Critical) {
        2
    } else if has_severity(results, warn_days, critical_days, Severity::Warning) {
        1
    } else {
        0
    }
}

/// Whether the findings stand by rank: soonest to expire first, failed checks at the end.
pub open spec fn ranked(results: Seq<CertResult>) -> bool {
    forall|i: int, j: int|
        0 <= i < j < results.len() ==> (#[trigger] results[i])@.status.rank() <= (
        #[trigger] results[j])@.status.rank()
}

/// The findings of one rank, in the order in which they stand.
pub open spec fn of_rank(results: Seq<CertResult>, rank: i64) -> Seq<CertResult> {
    results.filter(|r: CertResult| r@.status.rank() == rank)
}

/// The findings with so many days left, in the order in which they stand.
pub open spec fn with_days(results: Seq<CertResult>, days: i64) -> Seq<CertResult> {
    results.filter(|r: CertResult| r@.status == StatusView::Days(days))
}

/// The failed checks, in the order in which they stand.
pub open spec fn failed_checks(results: Seq<CertResult>) -> Seq<CertResult> {
    results.filter(|r: CertResult| r@.status is Error)
}

/// Counts the findings of a severity.
pub fn count_severity(
    results: &Vec<CertResult>,
    warn_days: i64,
    critical_days: i64,
    wanted: Severity,
) -> (r: usize)
    ensures
        r == severity_count(results@, warn_days, critical_days, wanted),
        r > 0 <==> has_severity(results@, warn_days, critical_days, wanted),
{
    let ghost pred = |r: CertResult| severity_of(r, warn_days, critical_days) == wanted;
    let mut n: usize = 0;
    let mut i: usize = 0;
    assert(results@.take(0).filter(pred) =~= Seq::<CertResult>::empty()) by {
        reveal(Seq::filter);
    }
    while i < results.len()
        invariant
            i <= results@.len(),
            n <= i,
            pred == (|r: CertResult| severity_of(r, warn_days, critical_days) == wanted),
            n == results@.take(i as int).filter(pred).len(),
            n > 0 <==> has_severity(results@.take(i as int), warn_days, critical_days, wanted),
        decreases results@.len() - i,
    {
        let ghost before = results@.take(i as int);
        let ghost now = results@.take(i + 1);
        let found: bool = severity(&results[i], warn_days, critical_days) == wanted;
        proof {
            reveal(Seq::filter);
            assert(now.drop_last() =~= before);
            assert(now.last() == results@[i as int]);
            assert(found == pred(now.last()));
            if found {
                assert(severity_of(now[i as int], warn_days, critical_days) == wanted);
            } else if has_severity(before, warn_days, critical_days, wanted) {
                let k = choose|k: int|
                    0 <= k < before.len() && severity_of(
                        #[trigger] before[k],
                        warn_days,
                        critical_days,
                    ) == wanted;
                assert(severity_of(now[k], warn_days, critical_days) == wanted);
            } else if has_severity(now, warn_days, critical_days, wanted) {
                let k = choose|k: int|
                    0 <= k < now.len() && severity_of(#[trigger] now[k], warn_days, critical_days)
                        == wanted;
                assert(severity_of(before[k], warn_days, critical_days) == wanted);
            }
        }
        if found {
            n = n + 1;
        }
        i = i + 1;
    }
    assert(results@.take(i as int) =~= results@);
    n
}

/// The exit code for a set of findings, by the convention of Nagios plugins.
pub fn exit_code(results: &Vec<CertResult>, warn_days: i64, critical_days: i64) -> (r: i32)
    ensures
        r == exit_code_of(results@, warn_days, critical_days),
{
    if count_severity(results, warn_days, critical_days, Severity::Critical) > 0 {
        2
    } else if count_severity(results, warn_days, critical_days, Severity::Warning) > 0 {
        1
    } else {
        0
    }
}

impl Status {
    /// Where the status stands in the ranking.
    pub fn rank(&self) -> (r: i64)
        ensures
            r == self@.rank(),
    {
        match self {
            Status::Days(days) => *days,
            Status::Error(_) => i64::MAX,
        }
    }
}

proof fn lemma_of_rank_empty(results: Seq<CertResult>, rank: i64)
    requires
        forall|i: int| 0 <= i < results.len() ==> (#[trigger] results[i])@.status.rank() != rank,
    ensures
        of_rank(results, rank) == Seq::<CertResult>::empty(),
    decreases results.len(),
{
    reveal(Seq::filter);
    if results.len() > 0 {
        lemma_of_rank_empty(results.drop_last(), rank);
    }
}

proof fn lemma_of_rank_single(result: CertResult, rank: i64)
    ensures
        of_rank(seq![result], rank) == (if result@.status.rank() == rank {
            seq![result]
        } else {
            Seq::<CertResult>::empty()
        }),
{
    reveal(Seq::filter);
    assert(seq![result].drop_last() =~= Seq::<CertResult>::empty());
    lemma_of_rank_empty(seq![result].drop_last(), rank);
    assert(Seq::<CertResult>::empty().push(result) =~= seq![result]);
}

/// Putting an element in front of all that rank no lower keeps it first among its equals.
proof fn lemma_of_rank_insert(sorted: Seq<CertResult>, at: int, result: CertResult, rank: i64)
    requires
        0 <= at <= sorted.len(),
        forall|i: int|
            0 <= i < at ==> (#[trigger] sorted[i])@.status.rank() < result@.status.rank(),
    ensures
        of_rank(sorted.insert(at, result), rank) == of_rank(seq![result], rank) + of_rank(
            sorted,
            rank,
        ),
{
    let pred = |r: CertResult| r@.status.rank() == rank;
    let front = sorted.take(at);
    let back = sorted.skip(at);
    Seq::filter_distributes_over_add(front, back, pred);
    assert(front + back =~= sorted);
    Seq::filter_distributes_over_add(front + seq![result], back, pred);
    Seq::filter_distributes_over_add(front, seq![result], pred);
    assert((front + seq![result]) + back =~= sorted.insert(at, result));
    lemma_of_rank_single(result, rank);
    if result@.status.rank() == rank {
        assert forall|i: int| 0 <= i < front.len() implies (#[trigger] front[i])@.status.rank()
            != rank by {
            assert(front[i] == sorted[i]);
        }
        lemma_of_rank_empty(front, rank);
    }
    assert(of_rank(sorted.insert(at, result), rank) =~= of_rank(seq![result], rank) + of_rank(
        sorted,
        rank,
    ));
}

/// Sorts the findings, soonest to expire first and failed checks at the end. Findings of equal
/// rank keep their order.
pub fn rank_results(results: Vec<CertResult>) -> (r: Vec<CertResult>)
    ensures
        ranked(r@),
        forall|rank: i64| #[trigger] of_rank(r@, rank) == of_rank(results@, rank),
        r@.to_multiset() == results@.to_multiset(),
        forall|i: int, j: int|
            0 <= i < j < r@.len() ==> match (
                (#[trigger] r@[i])@.status,
                (#[trigger] r@[j])@.status,
            ) {
                (StatusView::Days(a), StatusView::Days(b)) => a <= b,
                (StatusView::Error(_), StatusView::Days(b)) => b == i64::MAX,
                (_, StatusView::Error(_)) => true,
            },
        forall|days: i64| #[trigger] with_days(r@, days) == with_days(results@, days),
        failed_checks(r@) == failed_checks(results@),
{
    let ghost all = results@;
    let mut rest: Vec<CertResult> = results;
    let mut sorted: Vec<CertResult> = Vec::new();
    assert(all.skip(all.len() as int) =~= sorted@);
    while rest.len() > 0
        invariant
            rest@.len() <= all.len(),
            rest@ =~= all.take(rest@.len() as int),
            ranked(sorted@),
            forall|rank: i64| #[trigger]
                of_rank(sorted@, rank) == of_rank(all.skip(rest@.len() as int), rank),
            sorted@.to_multiset() == all.skip(rest@.len() as int).to_multiset(),
        decreases rest@.len(),
    {
        let ghost n = rest@.len() as int;
        let ghost before = sorted@;
        let result: CertResult = match rest.pop() {
            Some(result) => result,
            None => {
                return sorted;
            },
        };
        let rank: i64 = result.status.rank();
        let mut at: usize = 0;
        while at < sorted.len() && sorted[at].status.rank() < rank
            invariant
                at <= sorted@.len(),
                forall|i: int| 0 <= i < at ==> (#[trigger] sorted@[i])@.status.rank() < rank,
            decreases sorted@.len() - at,
        {
            at = at + 1;
        }
        sorted.insert(at, result);
        proof {
            assert(all.skip(n - 1) =~= seq![result] + all.skip(n));
            assert forall|rank: i64| #[trigger]
                of_rank(sorted@, rank) == of_rank(all.skip(n - 1), rank) by {
                lemma_of_rank_insert(before, at as int, result, rank);
                Seq::filter_distributes_over_add(
                    seq![result],
                    all.skip(n),
                    |r: CertResult| r@.status.rank() == rank,
                );
                assert(of_rank(before, rank) == of_rank(all.skip(n), rank));
            }
            broadcast use vstd::seq_lib::group_to_multiset_ensures;

            assert(sorted@ =~= before.insert(at as int, result));
            assert(sorted@.remove(at as int) =~= before);
            assert(all.skip(n - 1).remove(0) =~= all.skip(n));
            assert(sorted@.to_multiset().remove(result) == all.skip(n - 1).to_multiset().remove(
                result,
            ));
            assert(sorted@[at as int] == result && all.skip(n - 1)[0] == result);
            assert(sorted@.contains(result) && all.skip(n - 1).contains(result));
            assert(sorted@.to_multiset() =~= sorted@.to_multiset().remove(result).insert(result));
            assert(all.skip(n - 1).to_multiset() =~= all.skip(n - 1).to_multiset().remove(
                result,
            ).insert(result));
        }
    }
    assert(all.skip(0) =~= all);
    proof {
        law_ranked_by_days_left(sorted@);
        assert forall|days: i64| #[trigger] with_days(sorted@, days) == with_days(all, days) by {
            law_equals_keep_their_order(sorted@, all, days);
        }
        law_equals_keep_their_order(sorted@, all, 0);
    }
    sorted
}

impl Severity {
    /// The severities as numbers, more urgent ones higher.
    pub open spec fn level(self) -> int {
        match self {
            Severity::Okay => 0,
            Severity::Warning => 1,
            Severity::Critical => 2,
        }
    }
}

/// A certificate with fewer days left is never judged less urgent, and no certificate is judged
/// more urgent than a failed check.
pub proof fn law_severity_follows_days(
    days: i64,
    more_days: i64,
    message: Seq<char>,
    warn_days: i64,
    critical_days: i64,
)
    requires
        days <= more_days,
    ensures
        StatusView::Days(days).severity(warn_days, critical_days).level() >= StatusView::Days(
            more_days,
        ).severity(warn_days, critical_days).level(),
        StatusView::Error(message).severity(warn_days, critical_days).level() >= StatusView::Days(
            days,
        ).severity(warn_days, critical_days).level(),
{
}

/// Days left below zero, the count of every expired certificate, and a failed check are critical
/// whatever the thresholds are.
pub proof fn law_expired_or_failed_is_critical(
    status: StatusView,
    warn_days: i64,
    critical_days: i64,
)
    requires
        status matches StatusView::Days(days) ==> days < 0,
    ensures
        status.severity(warn_days, critical_days) == Severity::Critical,
{
}

proof fn lemma_issuer_names_are_ascii()
    ensures
        is_ascii_chars("let's encrypt"@),
        is_ascii_chars("lets encrypt"@),
        is_ascii_chars("zerossl"@),
{
    reveal_strlit("let's encrypt");
    reveal_strlit("lets encrypt");
    reveal_strlit("zerossl");
}

/// An issuer whose name holds "Let's Encrypt" is one whose certificates certbot renews.
pub proof fn law_certbot_for_lets_encrypt(issuer: Seq<char>)
    requires
        text::has_substring(issuer, "Let's Encrypt"@),
    ensures
        names_lets_encrypt(issuer),
        issuer_hint_text(text::ascii_lowercase(issuer))
            == "run certbot renew (or your ACME client) on the server"@,
{
    reveal_strlit("Let's Encrypt");
    reveal_strlit("let's encrypt");
    let at = choose|at: int| text::occurs_at(issuer, "Let's Encrypt"@, at);
    let lower = text::ascii_lowercase(issuer);
    let pattern = "let's encrypt"@;
    assert forall|i: int| 0 <= i < pattern.len() implies lower[at + i] == pattern[i] by {
        assert(issuer.subrange(at, at + 13)[i] == issuer[at + i]);
    }
    assert(lower.subrange(at, at + pattern.len()) =~= pattern);
    assert(text::occurs_at(lower, pattern, at));
}

/// Every finding is counted under exactly one severity.
pub proof fn law_counts_add_up(results: Seq<CertResult>, warn_days: i64, critical_days: i64)
    ensures
        severity_count(results, warn_days, critical_days, Severity::Okay) + severity_count(
            results,
            warn_days,
            critical_days,
            Severity::Warning,
        ) + severity_count(results, warn_days, critical_days, Severity::Critical) == results.len(),
    decreases results.len(),
{
    reveal(Seq::filter);
    if results.len() > 0 {
        law_counts_add_up(results.drop_last(), warn_days, critical_days);
    }
}

pub(crate) proof fn lemma_counts_follow_severities(
    a: Seq<CertResult>,
    b: Seq<CertResult>,
    warn_days: i64,
    critical_days: i64,
    wanted: Severity,
)
    requires
        a.len() == b.len(),
        forall|i: int|
            0 <= i < a.len() ==> severity_of(#[trigger] a[i], warn_days, critical_days)
                == severity_of(b[i], warn_days, critical_days),
    ensures
        severity_count(a, warn_days, critical_days, wanted) == severity_count(
            b,
            warn_days,
            critical_days,
            wanted,
        ),
    decreases a.len(),
{
    reveal(Seq::filter);
    if a.len() > 0 {
        assert(severity_of(a[a.len() - 1], warn_days, critical_days) == severity_of(
            b[a.len() - 1],
            warn_days,
            critical_days,
        ));
        assert forall|i: int| 0 <= i < a.drop_last().len() implies severity_of(
            #[trigger] a.drop_last()[i],
            warn_days,
            critical_days,
        ) == severity_of(b.drop_last()[i], warn_days, critical_days) by {
            assert(a.drop_last()[i] == a[i]);
        }
        lemma_counts_follow_severities(
            a.drop_last(),
            b.drop_last(),
            warn_days,
            critical_days,
            wanted,
        );
    }
}

/// The exit code is the level of the worst finding: no finding is more urgent, and where the
/// code is not 0 some finding is as urgent.
pub proof fn law_exit_code_is_worst_level(
    results: Seq<CertResult>,
    warn_days: i64,
    critical_days: i64,
)
    ensures
        forall|i: int|
            0 <= i < results.len() ==> severity_of(
                #[trigger] results[i],
                warn_days,
                critical_days,
            ).level() <= exit_code_of(results, warn_days, critical_days),
        exit_code_of(results, warn_days, critical_days) != 0 ==> exists|i: int|
            0 <= i < results.len() && severity_of(
                #[trigger] results[i],
                warn_days,
                critical_days,
            ).level() == exit_code_of(results, warn_days, critical_days),
{
    if has_severity(results, warn_days, critical_days, Severity::Critical) {
        let i = choose|i: int|
            0 <= i < results.len() && severity_of(#[trigger] results[i], warn_days, critical_days)
                == Severity::Critical;
        assert(severity_of(results[i], warn_days, critical_days).level() == 2);
    } else if has_severity(results, warn_days, critical_days, Severity::Warning) {
        let i = choose|i: int|
            0 <= i < results.len() && severity_of(#[trigger] results[i], warn_days, critical_days)
                == Severity::Warning;
        assert(severity_of(results[i], warn_days, critical_days).level() == 1);
    }
}

/// More findings, higher thresholds or both never lower the exit code.
pub proof fn law_exit_code_only_grows(
    results: Seq<CertResult>,
    more: Seq<CertResult>,
    warn_days: i64,
    critical_days: i64,
    higher_warn_days: i64,
    higher_critical_days: i64,
)
    requires
        forall|i: int| 0 <= i < results.len() ==> more.contains(#[trigger] results[i]),
        warn_days <= higher_warn_days,
        critical_days <= higher_critical_days,
    ensures
        exit_code_of(results, warn_days, critical_days) <= exit_code_of(
            more,
            higher_warn_days,
            higher_critical_days,
        ),
{
    law_exit_code_is_worst_level(results, warn_days, critical_days);
    law_exit_code_is_worst_level(more, higher_warn_days, higher_critical_days);
    let code = exit_code_of(results, warn_days, critical_days);
    if code != 0 {
        let i = choose|i: int|
            0 <= i < results.len() && severity_of(
                #[trigger] results[i],
                warn_days,
                critical_days,
            ).level() == code;
        assert(more.contains(results[i]));
        let j = choose|j: int| 0 <= j < more.len() && more[j] == results[i];
        assert(severity_of(more[j], higher_warn_days, higher_critical_days).level() >= code);
    }
}

/// The order of the findings does not matter for the exit code.
pub proof fn law_exit_code_ignores_order(
    a: Seq<CertResult>,
    b: Seq<CertResult>,
    warn_days: i64,
    critical_days: i64,
)
    requires
        a.to_multiset() == b.to_multiset(),
    ensures
        exit_code_of(a, warn_days, critical_days) == exit_code_of(b, warn_days, critical_days),
{
    lemma_same_findings(a, b);
    lemma_same_findings(b, a);
    law_exit_code_only_grows(a, b, warn_days, critical_days, warn_days, critical_days);
    law_exit_code_only_grows(b, a, warn_days, critical_days, warn_days, critical_days);
}

proof fn lemma_same_findings(a: Seq<CertResult>, b: Seq<CertResult>)
    requires
        a.to_multiset() == b.to_multiset(),
    ensures
        forall|i: int| 0 <= i < a.len() ==> b.contains(#[trigger] a[i]),
{
    a.to_multiset_ensures();
    b.to_multiset_ensures();
    assert forall|i: int| 0 <= i < a.len() implies b.contains(#[trigger] a[i]) by {
        assert(a.contains(a[i]));
        assert(a.to_multiset().count(a[i]) > 0);
        assert(b.to_multiset().count(a[i]) > 0);
    }
}

/// In ranked findings every failed check stands behind every certificate that was read, as long
/// as fewer than `i64::MAX` days are left on it.
pub proof fn law_failed_checks_rank_last(results: Seq<CertResult>, failed: int, read: int)
    requires
        ranked(results),
        0 <= failed < results.len(),
        0 <= read < results.len(),
        results[failed]@.status is Error,
        results[read]@.status matches StatusView::Days(days) && days < i64::MAX,
    ensures
        read < failed,
{
    assert(results[failed]@.status.rank() == i64::MAX);
    assert(results[read]@.status.rank() < i64::MAX);
}

proof fn lemma_of_rank_first(results: Seq<CertResult>, rank: i64)
    requires
        results.len() > 0,
    ensures
        of_rank(results, rank) == of_rank(seq![results[0]], rank) + of_rank(
            results.drop_first(),
            rank,
        ),
        of_rank(seq![results[0]], rank) == (if results[0]@.status.rank() == rank {
            seq![results[0]]
        } else {
            Seq::<CertResult>::empty()
        }),
{
    lemma_of_rank_single(results[0], rank);
    Seq::filter_distributes_over_add(
        seq![results[0]],
        results.drop_first(),
        |r: CertResult| r@.status.rank() == rank,
    );
    assert(seq![results[0]] + results.drop_first() =~= results);
}

proof fn lemma_lower_rank_is_absent(results: Seq<CertResult>, rank: i64)
    requires
        ranked(results),
        results.len() > 0,
        rank < results[0]@.status.rank(),
    ensures
        of_rank(results, rank) == Seq::<CertResult>::empty(),
{
    assert forall|i: int| 0 <= i < results.len() implies (#[trigger] results[i])@.status.rank()
        != rank by {
        if i > 0 {
            assert(results[0]@.status.rank() <= results[i]@.status.rank());
        }
    }
    lemma_of_rank_empty(results, rank);
}

proof fn lemma_same_first(a: Seq<CertResult>, b: Seq<CertResult>)
    requires
        ranked(a),
        ranked(b),
        forall|rank: i64| #[trigger] of_rank(a, rank) == of_rank(b, rank),
        a.len() > 0,
    ensures
        b.len() > 0,
        a[0] == b[0],
{
    let first = a[0]@.status.rank();
    lemma_of_rank_first(a, first);
    assert(of_rank(a, first)[0] == a[0]);
    assert(of_rank(a, first) == of_rank(b, first));
    if b.len() == 0 {
        lemma_of_rank_empty(b, first);
    } else {
        let other = b[0]@.status.rank();
        lemma_of_rank_first(b, other);
        assert(of_rank(b, other)[0] == b[0]);
        assert(of_rank(a, other) == of_rank(b, other));
        if first < other {
            lemma_lower_rank_is_absent(b, first);
        } else if other < first {
            lemma_lower_rank_is_absent(a, other);
        }
    }
}

proof fn lemma_rest_agrees(a: Seq<CertResult>, b: Seq<CertResult>, rank: i64)
    requires
        a.len() > 0,
        b.len() > 0,
        a[0] == b[0],
        of_rank(a, rank) == of_rank(b, rank),
    ensures
        of_rank(a.drop_first(), rank) == of_rank(b.drop_first(), rank),
{
    lemma_of_rank_first(a, rank);
    lemma_of_rank_first(b, rank);
    let n = of_rank(seq![a[0]], rank).len() as int;
    assert(of_rank(a.drop_first(), rank) =~= of_rank(a, rank).skip(n));
    assert(of_rank(b.drop_first(), rank) =~= of_rank(b, rank).skip(n));
}

/// There is one ranking only: findings that stand by rank are determined by the order within
/// each rank.
pub proof fn law_ranking_is_unique(a: Seq<CertResult>, b: Seq<CertResult>)
    requires
        ranked(a),
        ranked(b),
        forall|rank: i64| #[trigger] of_rank(a, rank) == of_rank(b, rank),
    ensures
        a == b,
    decreases a.len(),
{
    if a.len() == 0 {
        if b.len() > 0 {
            lemma_same_first(b, a);
        }
        assert(a =~= b);
    } else {
        lemma_same_first(a, b);
        let rest_a = a.drop_first();
        let rest_b = b.drop_first();
        assert forall|rank: i64| #[trigger] of_rank(rest_a, rank) == of_rank(rest_b, rank) by {
            assert(of_rank(a, rank) == of_rank(b, rank));
            lemma_rest_agrees(a, b, rank);
        }
        assert(ranked(rest_a) && ranked(rest_b));
        law_ranking_is_unique(rest_a, rest_b);
        assert(a =~= seq![a[0]] + rest_a);
        assert(b =~= seq![b[0]] + rest_b);
    }
}

/// In ranked findings a certificate with fewer days left stands before one with more, and a failed
/// check stands behind every certificate. Only one that has all the days that can be counted left
/// can stand behind a failed check.
pub proof fn law_ranked_by_days_left(results: Seq<CertResult>)
    requires
        ranked(results),
    ensures
        forall|i: int, j: int|
            0 <= i < j < results.len() ==> match (
                (#[trigger] results[i])@.status,
                (#[trigger] results[j])@.status,
            ) {
                (StatusView::Days(a), StatusView::Days(b)) => a <= b,
                (StatusView::Error(_), StatusView::Days(b)) => b == i64::MAX,
                (_, StatusView::Error(_)) => true,
            },
{
    assert forall|i: int, j: int| 0 <= i < j < results.len() implies match (
        (#[trigger] results[i])@.status,
        (#[trigger] results[j])@.status,
    ) {
        (StatusView::Days(a), StatusView::Days(b)) => a <= b,
        (StatusView::Error(_), StatusView::Days(b)) => b == i64::MAX,
        (_, StatusView::Error(_)) => true,
    } by {
        assert(results[i]@.status.rank() <= results[j]@.status.rank());
    }
}

proof fn lemma_filter_twice(
    s: Seq<CertResult>,
    wide: spec_fn(CertResult) -> bool,
    narrow: spec_fn(CertResult) -> bool,
)
    requires
        forall|r: CertResult| #[trigger] narrow(r) ==> wide(r),
    ensures
        s.filter(wide).filter(narrow) == s.filter(narrow),
    decreases s.len(),
{
    reveal(Seq::filter);
    if s.len() > 0 {
        let rest = s.drop_last();
        lemma_filter_twice(rest, wide, narrow);
        if wide(s.last()) {
            assert(rest.filter(wide).push(s.last()).drop_last() =~= rest.filter(wide));
        }
    }
}

/// Where two lists of findings agree in every rank, those with the same days left follow each
/// other in the same order in both, and so do the failed checks.
pub proof fn law_equals_keep_their_order(a: Seq<CertResult>, b: Seq<CertResult>, days: i64)
    requires
        forall|rank: i64| #[trigger] of_rank(a, rank) == of_rank(b, rank),
    ensures
        with_days(a, days) == with_days(b, days),
        failed_checks(a) == failed_checks(b),
{
    let same_days = |r: CertResult| r@.status == StatusView::Days(days);
    let same_rank = |r: CertResult| r@.status.rank() == days;
    assert(of_rank(a, days) == of_rank(b, days));
    lemma_filter_twice(a, same_rank, same_days);
    lemma_filter_twice(b, same_rank, same_days);
    let failed = |r: CertResult| r@.status is Error;
    let last_rank = |r: CertResult| r@.status.rank() == i64::MAX;
    assert(of_rank(a, i64::MAX) == of_rank(b, i64::MAX));
    lemma_filter_twice(a, last_rank, failed);
    lemma_filter_twice(b, last_rank, failed);
}

/// How a finding is judged: critical below zero or below `critical_days`, else a warning below
/// `warn_days`, else in order; a failed check is critical.
pub proof fn law_severity_by_thresholds(
    days: i64,
    message: Seq<char>,
    warn_days: i64,
    critical_days: i64,
)
    ensures
        StatusView::Days(days).severity(warn_days, critical_days) == Severity::Critical <==> days
            < 0 || days < critical_days,
        StatusView::Days(days).severity(warn_days, critical_days) == Severity::Warning <==> days
            >= 0 && days >= critical_days && days < warn_days,
        StatusView::Days(days).severity(warn_days, critical_days) == Severity::Okay <==> days >= 0
            && days >= critical_days && days >= warn_days,
        StatusView::Error(message).severity(warn_days, critical_days) == Severity::Critical,
{
}

/// A finding is judged by its own status.
pub proof fn law_severity_of_a_finding(result: CertResult, warn_days: i64, critical_days: i64)
    ensures
        result.status matches Status::Error(_) ==> severity_of(result, warn_days, critical_days)
            == Severity::Critical,
        result.status matches Status::Days(days) ==> {
            &&& severity_of(result, warn_days, critical_days) == Severity::Critical <==> days < 0
                || days < critical_days
            &&& severity_of(result, warn_days, critical_days) == Severity::Okay <==> days >= 0
                && days >= critical_days && days >= warn_days
        },
{
}

/// Whether a status calls for action at once: a failed check, or a certificate that has expired or
/// has fewer than `critical_days` left.
pub open spec fn calls_for_action(status: Status, critical_days: i64) -> bool {
    match status {
        Status::Error(_) => true,
        Status::Days(days) => days < 0 || days < critical_days,
    }
}

/// The exit code is 2 exactly where a check failed, a certificate has expired or one has fewer
/// than `critical_days` left; else 1 exactly where one has fewer than `warn_days` left; else 0.
pub proof fn law_exit_codes(results: Seq<CertResult>, warn_days: i64, critical_days: i64)
    ensures
        exit_code_of(results, warn_days, critical_days) == 2 <==> exists|i: int|
            0 <= i < results.len() && calls_for_action(
                (#[trigger] results[i]).status,
                critical_days,
            ),
        exit_code_of(results, warn_days, critical_days) == 1 <==> {
            &&& forall|i: int|
                0 <= i < results.len() ==> !calls_for_action(
                    (#[trigger] results[i]).status,
                    critical_days,
                )
            &&& exists|i: int|
                0 <= i < results.len() && ((#[trigger] results[i]).status matches Status::Days(days)
                    && days < warn_days)
        },
        exit_code_of(results, warn_days, critical_days) == 0 <==> forall|i: int|
            0 <= i < results.len() ==> ((#[trigger] results[i]).status matches Status::Days(days)
                && days >= 0 && days >= critical_days && days >= warn_days),
{
    let (w, c) = (warn_days, critical_days);
    assert forall|i: int| 0 <= i < results.len() implies {
        &&& severity_of(results[i], w, c) == Severity::Critical <==> calls_for_action(
            (#[trigger] results[i]).status,
            c,
        )
        &&& severity_of(results[i], w, c) == Severity::Warning <==> !calls_for_action(
            results[i].status,
            c,
        ) && (results[i].status matches Status::Days(days) && days < w)
    } by {
        law_severity_of_a_finding(results[i], w, c);
    }
    if has_severity(results, w, c, Severity::Critical) {
        let i = choose|i: int|
            0 <= i < results.len() && severity_of(#[trigger] results[i], w, c)
                == Severity::Critical;
        assert(calls_for_action(results[i].status, c));
    } else if has_severity(results, w, c, Severity::Warning) {
        let i = choose|i: int|
            0 <= i < results.len() && severity_of(#[trigger] results[i], w, c)
                == Severity::Warning;
        assert(results[i].status matches Status::Days(days) && days < w);
    }
}

/// Findings are counted one by one: those of two lists add up, and a single one counts under its
/// own severity.
pub proof fn law_counting(
    a: Seq<CertResult>,
    b: Seq<CertResult>,
    result: CertResult,
    warn_days: i64,
    critical_days: i64,
    wanted: Severity,
)
    ensures
        severity_count(a + b, warn_days, critical_days, wanted) == severity_count(
            a,
            warn_days,
            critical_days,
            wanted,
        ) + severity_count(b, warn_days, critical_days, wanted),
        result@.status.severity(warn_days, critical_days) == wanted ==> severity_count(
            seq![result],
            warn_days,
            critical_days,
            wanted,
        ) == 1,
        result@.status.severity(warn_days, critical_days) != wanted ==> severity_count(
            seq![result],
            warn_days,
            critical_days,
            wanted,
        ) == 0,
        severity_count(Seq::empty(), warn_days, critical_days, wanted) == 0,
{
    let pred = |r: CertResult| severity_of(r, warn_days, critical_days) == wanted;
    Seq::filter_distributes_over_add(a, b, pred);
    reveal(Seq::filter);
    assert(seq![result].drop_last() =~= Seq::<CertResult>::empty());
    assert(seq![result].drop_last().filter(pred).len() == 0);
}

/// The days left are told in decimal: `Nd` before the end of the validity period, `expired Nd ago`
/// behind it, and `-` where the check failed.
pub proof fn law_days_are_told(days: i64, message: Seq<char>)
    ensures
        days >= 0 ==> StatusView::Days(days).days_text() == text::decimal(days as nat) + "d"@,
        days < 0 ==> StatusView::Days(days).days_text() == "expired "@ + text::decimal(
            (-days) as nat,
        ) + "d ago"@,
        StatusView::Error(message).days_text() == "-"@,
{
}

/// The severities are spelled `OK`, `WARNING` and `CRITICAL`.
pub proof fn law_labels()
    ensures
        Severity::Okay.label_text() == "OK"@,
        Severity::Warning.label_text() == "WARNING"@,
        Severity::Critical.label_text() == "CRITICAL"@,
{
}

/// The advice on renewing follows from the status and the names: a failed check is about the
/// connection, a certificate without names leaves no advice, one that is its own issuer is to be
/// made again, and for all others the issuer decides.
pub proof fn law_advice(result: CertView, subject: Seq<char>, issuer: Seq<char>)
    ensures
        result.status is Error ==> result.renewal_hint() == "fix connectivity first"@,
        result.status is Days && (result.subject is None || result.issuer is None)
            ==> result.renewal_hint() == "-"@,
        result.status is Days && result.subject == Some(subject) && result.issuer == Some(subject)
            ==> result.renewal_hint() == "self-signed: regenerate manually"@,
        result.status is Days && result.subject == Some(subject) && result.issuer == Some(issuer)
            && subject != issuer ==> result.renewal_hint() == issuer_hint_text(
            text::lowercase(issuer),
        ),
        result.foreign_issuer() == Some(issuer) <==> result.status is Days && result.subject is Some
            && result.issuer == Some(issuer) && result.subject != result.issuer,
{
}

/// The advice by the issuer's name in lower case: certbot for Let's Encrypt, spelled with or
/// without the apostrophe, else the ACME client for ZeroSSL, else the issuing CA.
pub proof fn law_advice_by_issuer(lower: Seq<char>, issuer: Seq<char>)
    ensures
        text::has_substring(lower, "let's encrypt"@) ==> issuer_hint_text(lower)
            == "run certbot renew (or your ACME client) on the server"@,
        text::has_substring(lower, "lets encrypt"@) ==> issuer_hint_text(lower)
            == "run certbot renew (or your ACME client) on the server"@,
        !text::has_substring(lower, "let's encrypt"@) && !text::has_substring(
            lower,
            "lets encrypt"@,
        ) ==> issuer_hint_text(lower) == (if text::has_substring(lower, "zerossl"@) {
            "renew via your ACME client (ZeroSSL)"@
        } else {
            "renew through the issuing CA"@
        }),
        names_lets_encrypt(issuer) <==> text::has_substring(
            text::ascii_lowercase(issuer),
            "let's encrypt"@,
        ) || text::has_substring(text::ascii_lowercase(issuer), "lets encrypt"@),
        names_zerossl(issuer) <==> text::has_substring(text::ascii_lowercase(issuer), "zerossl"@),
{
}

/// The last columns of a report: the day of expiry or `-`, and why the check failed or how to
/// renew.
pub proof fn law_remarks(result: CertView, message: Seq<char>, day: Seq<char>)
    ensures
        result.status == StatusView::Error(message) ==> result.remark() == message,
        result.status is Days ==> result.remark() == result.renewal_hint(),
        result.not_after == Some(day) ==> result.expires() == day,
        result.not_after is None ==> result.expires() == "-"@,
{
}

/// A finding is seen field by field, as it is.
pub proof fn law_findings_are_seen(result: CertResult, s: String)
    ensures
        result@.target.host == result.target.host@,
        result@.target.port == result.target.port,
        result.status matches Status::Days(days) ==> result@.status == StatusView::Days(days),
        result.status matches Status::Error(message) ==> result@.status == StatusView::Error(
            message@,
        ),
        result@.not_after == optional_view(result.not_after),
        result@.subject == optional_view(result.subject),
        result@.issuer == optional_view(result.issuer),
        optional_view(Some(s)) == Some(s@),
        optional_view(None) is None,
{
}

/// The place in the ranking follows from the days left themselves: one with fewer days goes before
/// one with more, and nothing goes behind a failed check.
pub proof fn law_place_in_the_ranking(days: i64, more_days: i64, message: Seq<char>)
    ensures
        StatusView::Days(days).rank() < StatusView::Days(more_days).rank() <==> days < more_days,
        StatusView::Days(days).rank() <= StatusView::Error(message).rank(),
        StatusView::Days(days).rank() == days,
        StatusView::Error(message).rank() == i64::MAX,
{
}

} // verus!
