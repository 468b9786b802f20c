//! The leaf certificate of a server: what is read from it, and how long it is still valid.
use vstd::prelude::*;
use vstd::string::*;
use x509_parser::certificate::X509Certificate;
use x509_parser::prelude::FromDer;
use x509_parser::time::ASN1Time;
use crate::scan;
use crate::scan::{CertResult, CertView, Severity, Status, StatusView};
use crate::target::{Target, TargetView};
use crate::text;

verus! {

/// What a check reads from a certificate.
#[derive(Debug)]
pub struct Leaf {
    /// The end of the validity period, in seconds since 1970.
    pub not_after: i64,
    /// The year of the end of the validity period, in the time zone the certificate gives it in.
    pub year: i32,
    /// The month of the end of the validity period, in that time zone.
    pub month: u8,
    /// The day of the month of the end of the validity period, in that time zone.
    pub day: u8,
    pub subject: String,
    pub issuer: String,
}

/// A [`Leaf`] with its texts as sequences of characters.
pub struct LeafView {
    pub not_after: i64,
    pub year: i32,
    pub month: u8,
    pub day: u8,
    pub subject: Seq<char>,
    pub issuer: Seq<char>,
}

impl View for Leaf {
    type V = LeafView;

    open spec fn view(&self) -> LeafView {
        LeafView {
            not_after: self.not_after,
            year: self.year,
            month: self.month,
            day: self.day,
            subject: self.subject@,
            issuer: self.issuer@,
        }
    }
}

/// What `X509Certificate::from_der` makes of the bytes: the end of the validity period and the two
/// names of the certificate that they start with, or the message of the parse error.
pub uninterp spec fn x509_leaf(der: Seq<u8>) -> Result<LeafView, Seq<char>>;

/// Whether the number is a time within a million years of 1970, in seconds. The dates of the
/// `time` crate, on which `ASN1Time` is built, end at the year 999,999 on either side.
pub open spec fn representable_time(seconds: i64) -> bool {
    -40_000_000_000_000 < seconds < 40_000_000_000_000
}

/// `X509Certificate::from_der`, on a DER encoded certificate: its outcome is named [`x509_leaf`],
/// and the end of the validity period is a time that the `time` crate can represent.
#[verifier::external_body]
fn decode_leaf(der: &[u8]) -> (r: Result<Leaf, String>)
    ensures
        x509_leaf(der@) == (match r {
            Ok(leaf) => Ok(leaf@),
            Err(message) => Err(message@),
        }),
        r matches Ok(leaf) ==> representable_time(leaf.not_after),
{
    let (_, x509) = X509Certificate::from_der(der).map_err(|e| e.to_string())?;
    let not_after = x509.validity().not_after;
    let date = not_after.to_datetime();
    Ok(Leaf {
        not_after: not_after.timestamp(),
        year: date.year(),
        month: date.month() as u8,
        day: date.day(),
        subject: x509.subject().to_string(),
        issuer: x509.issuer().to_string(),
    })
}

/// `ASN1Time::now`: the current time in seconds since 1970, which is a time that the `time` crate
/// can represent.
#[verifier::external_body]
pub(crate) fn current_time() -> (r: i64)
    ensures
        representable_time(r),
{
    ASN1Time::now().timestamp()
}

/// Whether the clock can say `now` when it is asked for the time: whether [`current_time`] can
/// return it.
pub closed spec fn clock_says(now: i64) -> bool {
    call_ensures(current_time, (), now)
}

fn asked<C: Fn() -> i64>(clock: C) -> (r: i64)
    requires
        call_requires(clock, ()),
    ensures
        call_ensures(clock, (), r),
{
    clock()
}

/// Asks the clock for the time, in seconds since 1970.
pub fn read_clock() -> (r: i64)
    ensures
        clock_says(r),
        representable_time(r),
{
    asked(current_time)
}

/// What the clock says is what [`current_time`] returns, and nothing else.
pub(crate) proof fn law_clock_says_the_current_time(now: i64)
    ensures
        clock_says(now) <==> call_ensures(current_time, (), now),
        clock_says(now) ==> representable_time(now),
{
}

/// The length of a day in seconds.
pub const DAY_SECONDS: i64 = 86_400;

/// The days in a number of seconds until an event: the full days that are left until it, or, with
/// a minus, the full days that have passed since. Less than a day since it counts as one, so
/// that the number is below zero exactly where the event lies in the past.
pub open spec fn whole_days(seconds: int) -> int {
    if seconds >= 0 {
        seconds / DAY_SECONDS as int
    } else if seconds > -DAY_SECONDS {
        -1
    } else {
        -(-seconds / DAY_SECONDS as int)
    }
}

/// A date as `YYYY-MM-DD`.
pub open spec fn date_text(year: int, month: int, day: int) -> Seq<char> {
    text::zero_padded(year, 4) + "-"@ + text::zero_padded(month, 2) + "-"@ + text::zero_padded(
        day,
        2,
    )
}

/// What a check of `target` finds at the time `now` where it reads `leaf`.
pub open spec fn finding(target: TargetView, leaf: LeafView, now: i64) -> CertView {
    CertView {
        target,
        status: StatusView::Days(whole_days(leaf.not_after - now) as i64),
        not_after: Some(date_text(leaf.year as int, leaf.month as int, leaf.day as int)),
        subject: Some(leaf.subject),
        issuer: Some(leaf.issuer),
    }
}

/// Counts the days from `now` to `not_after`; negative exactly where that has passed.
pub fn days_left(not_after: i64, now: i64) -> (r: i64)
    requires
        i64::MIN <= not_after - now <= i64::MAX,
    ensures
        r == whole_days(not_after - now),
{
    let days: i64 = (not_after - now) / DAY_SECONDS;
    if not_after < now && days == 0 {
        -1
    } else {
        days
    }
}

/// Writes a date as `YYYY-MM-DD`.
pub fn format_date(year: i32, month: u8, day: u8) -> (r: String)
    ensures
        r@ == date_text(year as int, month as int, day as int),
{
    let mut out: String = String::new();
    text::push_zero_padded(&mut out, year, 4);
    out.append("-");
    text::push_zero_padded(&mut out, month as i32, 2);
    out.append("-");
    text::push_zero_padded(&mut out, day as i32, 2);
    assert(out@ =~= date_text(year as int, month as int, day as int));
    out
}

/// Says what a check of `target` finds at the time `now` where it reads `leaf`.
pub fn leaf_result(target: &Target, leaf: Leaf, now: i64) -> (r: CertResult)
    requires
        i64::MIN <= leaf.not_after - now <= i64::MAX,
    ensures
        r@ == finding(target@, leaf@, now),
{
    CertResult {
        target: target.clone(),
        status: Status::Days(days_left(leaf.not_after, now)),
        not_after: Some(format_date(leaf.year, leaf.month, leaf.day)),
        subject: Some(leaf.subject),
        issuer: Some(leaf.issuer),
    }
}

/// Reads a DER encoded certificate and says what a check of `target` finds at the time `now`, or
/// why the certificate cannot be read.
pub fn inspect(target: &Target, der: &[u8], now: i64) -> (r: Result<CertResult, String>)
    requires
        representable_time(now),
    ensures
        match r {
            Ok(result) => x509_leaf(der@) is Ok && result@ == finding(
                target@,
                x509_leaf(der@)->Ok_0,
                now,
            ),
            Err(message) => x509_leaf(der@) == Err::<LeafView, Seq<char>>(message@),
        },
        r matches Ok(result) ==> result@.status.countable(),
{
    match decode_leaf(der) {
        Ok(leaf) => Ok(leaf_result(target, leaf, now)),
        Err(message) => Err(message),
    }
}

/// Days left below zero mean that the certificate has expired, and only that; days left above zero
/// mean that a full day or more is left.
pub proof fn law_days_left_tell_expiry(not_after: i64, now: i64)
    ensures
        whole_days(not_after - now) < 0 <==> not_after < now,
        whole_days(not_after - now) > 0 <==> not_after - now >= DAY_SECONDS,
{
}

/// A certificate that has expired, however recently, is critical whatever the thresholds are.
pub proof fn law_expired_is_critical(
    target: TargetView,
    leaf: LeafView,
    now: i64,
    warn_days: i64,
    critical_days: i64,
)
    requires
        leaf.not_after < now,
    ensures
        finding(target, leaf, now).status.severity(warn_days, critical_days) == Severity::Critical,
{
}

/// Where an expired certificate is among the findings the exit code is 2, whatever the thresholds
/// are.
pub proof fn law_expired_exits_with_2(
    results: Seq<CertResult>,
    i: int,
    target: TargetView,
    leaf: LeafView,
    now: i64,
    warn_days: i64,
    critical_days: i64,
)
    requires
        0 <= i < results.len(),
        results[i]@ == finding(target, leaf, now),
        leaf.not_after < now,
    ensures
        scan::exit_code_of(results, warn_days, critical_days) == 2,
{
    law_expired_is_critical(target, leaf, now, warn_days, critical_days);
    assert(scan::severity_of(results[i], warn_days, critical_days) == Severity::Critical);
}

/// Of two certificates the one that expires later has no fewer days left, and the days left only
/// go down as time passes.
pub proof fn law_days_left_are_monotone(not_after: i64, later: i64, now: i64, later_now: i64)
    requires
        not_after <= later,
        now <= later_now,
    ensures
        whole_days(not_after - now) <= whole_days(later - now),
        whole_days(not_after - later_now) <= whole_days(not_after - now),
{
}

/// The day of expiry of a certificate from the years 0 to 9999 takes ten characters, with dashes
/// behind the year and the month.
pub proof fn law_date_shape(year: int, month: int, day: int)
    requires
        0 <= year <= 9999,
        0 <= month <= 99,
        0 <= day <= 99,
    ensures
        date_text(year, month, day).len() == 10,
        date_text(year, month, day)[4] == '-',
        date_text(year, month, day)[7] == '-',
{
    reveal_strlit("-");
    reveal_with_fuel(text::decimal, 5);
}

/// The days left are the full days of 86400 seconds until the end of the validity period. Past the
/// end they are the full days since, with a minus, and -1 during the first day.
pub proof fn law_days_left_are_full_days(not_after: i64, now: i64)
    ensures
        ({
            let seconds = not_after - now;
            let days = whole_days(seconds);
            &&& seconds >= 0 ==> days * 86_400 <= seconds < (days + 1) * 86_400
            &&& seconds <= -86_400 ==> (days - 1) * 86_400 < seconds <= days * 86_400
            &&& -86_400 < seconds < 0 ==> days == -1
        }),
{
}

/// A day more of validity is a day more left, and a day of waiting is a day less, as long as the
/// certificate is valid.
pub proof fn law_days_left_count_days(not_after: i64, now: i64)
    requires
        not_after >= now,
    ensures
        whole_days(not_after + 86_400 - now) == whole_days(not_after - now) + 1,
        not_after - now >= 86_400 ==> whole_days(not_after - (now + 86_400)) == whole_days(
            not_after - now,
        ) - 1,
        not_after - now < 86_400 ==> whole_days(not_after - now) == 0,
{
}

/// What is read from a certificate is reported as it was read, under the target that was checked,
/// with the days from the time of the check to the end of the validity period.
pub proof fn law_finding_reports_the_certificate(target: TargetView, leaf: LeafView, now: i64)
    ensures
        ({
            let found = finding(target, leaf, now);
            &&& found.target == target
            &&& found.status is Days
            &&& found.status->Days_0 == whole_days(leaf.not_after - now)
            &&& leaf.not_after >= now ==> found.status->Days_0 * 86_400 <= leaf.not_after - now < (
            found.status->Days_0 + 1) * 86_400
            &&& found.subject == Some(leaf.subject)
            &&& found.issuer == Some(leaf.issuer)
            &&& found.not_after == Some(
                date_text(leaf.year as int, leaf.month as int, leaf.day as int),
            )
        }),
{
}

proof fn lemma_two_digits(n: int)
    requires
        0 <= n <= 99,
    ensures
        text::zero_padded(n, 2).len() == 2,
        text::zero_padded(n, 2)[0] as int == '0' as int + n / 10,
        text::zero_padded(n, 2)[1] as int == '0' as int + n % 10,
{
    reveal_with_fuel(text::decimal, 3);
}

proof fn lemma_four_digits(n: int)
    requires
        0 <= n <= 9999,
    ensures
        text::zero_padded(n, 4).len() == 4,
        text::zero_padded(n, 4)[0] as int == '0' as int + n / 1000,
        text::zero_padded(n, 4)[1] as int == '0' as int + n / 100 % 10,
        text::zero_padded(n, 4)[2] as int == '0' as int + n / 10 % 10,
        text::zero_padded(n, 4)[3] as int == '0' as int + n % 10,
{
    reveal_with_fuel(text::decimal, 5);
    if n >= 1000 {
        assert(n / 10 / 10 == n / 100 && n / 10 / 10 / 10 == n / 1000);
    } else if n >= 100 {
        assert(n / 10 / 10 == n / 100);
    }
}

/// The day of expiry is written digit by digit: the year, the month and the day of the month, with
/// dashes between them.
pub proof fn law_date_digits(year: int, month: int, day: int)
    requires
        0 <= year <= 9999,
        0 <= month <= 99,
        0 <= day <= 99,
    ensures
        ({
            let date = date_text(year, month, day);
            &&& date.len() == 10
            &&& date[0] as int == '0' as int + year / 1000
            &&& date[1] as int == '0' as int + year / 100 % 10
            &&& date[2] as int == '0' as int + year / 10 % 10
            &&& date[3] as int == '0' as int + year % 10
            &&& date[4] == '-'
            &&& date[5] as int == '0' as int + month / 10
            &&& date[6] as int == '0' as int + month % 10
            &&& date[7] == '-'
            &&& date[8] as int == '0' as int + day / 10
            &&& date[9] as int == '0' as int + day % 10
        }),
{
    reveal_strlit("-");
    lemma_four_digits(year);
    lemma_two_digits(month);
    lemma_two_digits(day);
}

/// Whatever the year, a date is its year, month and day with dashes between them, the year with
/// four digits or more and the others with two or more.
pub proof fn law_date_parts(year: int, month: int, day: int)
    ensures
        date_text(year, month, day) == text::zero_padded(year, 4) + seq!['-'] + text::zero_padded(
            month,
            2,
        ) + seq!['-'] + text::zero_padded(day, 2),
{
    reveal_strlit("-");
    assert("-"@ =~= seq!['-']);
}

} // verus!
