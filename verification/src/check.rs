//! The check of one target: the ways it can fail, and what is made of the certificates that the
//! server presents.
use vstd::prelude::*;
use vstd::string::*;
use rustls::pki_types::ServerName;
use crate::certificate;
use crate::scan::{CertResult, CertView, Severity, Status, StatusView};
use crate::target::{Target, TargetView};

verus! {

/// Why a check failed. The texts are the messages of what failed underneath.
#[derive(Debug)]
pub enum CheckFailure {
    Lookup(String),
    NoAddress,
    Connect(String),
    ServerName(String),
    Session(String),
    Handshake(String),
    NoCertificate,
    EmptyChain,
    Certificate(String),
}

/// A [`CheckFailure`] with its text as a sequence of characters.
pub enum FailureView {
    Lookup(Seq<char>),
    NoAddress,
    Connect(Seq<char>),
    ServerName(Seq<char>),
    Session(Seq<char>),
    Handshake(Seq<char>),
    NoCertificate,
    EmptyChain,
    Certificate(Seq<char>),
}

impl View for CheckFailure {
    type V = FailureView;

    open spec fn view(&self) -> FailureView {
        match *self {
            CheckFailure::Lookup(e) => FailureView::Lookup(e@),
            CheckFailure::NoAddress => FailureView::NoAddress,
            CheckFailure::Connect(e) => FailureView::Connect(e@),
            CheckFailure::ServerName(e) => FailureView::ServerName(e@),
            CheckFailure::Session(e) => FailureView::Session(e@),
            CheckFailure::Handshake(e) => FailureView::Handshake(e@),
            CheckFailure::NoCertificate => FailureView::NoCertificate,
            CheckFailure::EmptyChain => FailureView::EmptyChain,
            CheckFailure::Certificate(e) => FailureView::Certificate(e@),
        }
    }
}

impl FailureView {
    /// The failure as the reports word it.
    pub open spec fn message(self) -> Seq<char> {
        match self {
            FailureView::Lookup(e) => "DNS lookup failed: "@ + e,
            FailureView::NoAddress => "DNS lookup returned no addresses"@,
            FailureView::Connect(e) => "connect failed: "@ + e,
            FailureView::ServerName(e) => "invalid hostname for SNI: "@ + e,
            FailureView::Session(e) => "failed to start TLS session: "@ + e,
            FailureView::Handshake(e) => "TLS handshake failed: "@ + e,
            FailureView::NoCertificate => "server presented no certificate"@,
            FailureView::EmptyChain => "empty certificate chain"@,
            FailureView::Certificate(e) => "failed to parse certificate: "@ + e,
        }
    }
}

/// What `ServerName::try_from` makes of a host: the text of the DNS name or of the IP address that
/// it is, if it is one.
pub uninterp spec fn server_name_text(host: Seq<char>) -> Option<Seq<char>>;

/// `ServerName::try_from`, on a host: the server name as text, named [`server_name_text`]; the
/// error has one message only.
#[verifier::external_body]
fn read_server_name(host: &str) -> (r: Result<String, String>)
    ensures
        server_name_text(host@) == (match r {
            Ok(name) => Some(name@),
            Err(_) => None,
        }),
        r matches Err(message) ==> message@ == "invalid dns name"@,
{
    match ServerName::try_from(host.to_string()) {
        Ok(name) => Ok(name.to_str().into_owned()),
        Err(e) => Err(e.to_string()),
    }
}

/// The bytes of the leaf certificate, the first of the chain that the server presents.
pub open spec fn leaf_of(chain: Option<Vec<Vec<u8>>>) -> Result<Seq<u8>, FailureView> {
    match chain {
        None => Err(FailureView::NoCertificate),
        Some(certificates) => if certificates@.len() == 0 {
            Err(FailureView::EmptyChain)
        } else {
            Ok(certificates@[0]@)
        },
    }
}

/// What a check of `target` finds at the time `now` where the server presents `chain`.
pub open spec fn chain_outcome(
    target: TargetView,
    chain: Option<Vec<Vec<u8>>>,
    now: i64,
) -> Result<CertView, FailureView> {
    match leaf_of(chain) {
        Err(failure) => Err(failure),
        Ok(der) => match certificate::x509_leaf(der) {
            Err(message) => Err(FailureView::Certificate(message)),
            Ok(leaf) => Ok(certificate::finding(target, leaf, now)),
        },
    }
}

/// The outcome of a check in views.
pub open spec fn outcome_view(outcome: Result<CertResult, CheckFailure>) -> Result<
    CertView,
    FailureView,
> {
    match outcome {
        Ok(result) => Ok(result@),
        Err(failure) => Err(failure@),
    }
}

/// The finding of a check that ended with `outcome`.
pub open spec fn final_finding(
    target: TargetView,
    outcome: Result<CertView, FailureView>,
) -> CertView {
    match outcome {
        Ok(result) => result,
        Err(failure) => CertView {
            target,
            status: StatusView::Error(failure.message()),
            not_after: None,
            subject: None,
            issuer: None,
        },
    }
}

fn joined(a: &str, b: &String) -> (r: String)
    ensures
        r@ == a@ + b@,
{
    let mut out: String = a.to_owned();
    out.append(b.as_str());
    out
}

impl CheckFailure {
    /// The failure as the reports word it.
    pub fn message(&self) -> (r: String)
        ensures
            r@ == self@.message(),
    {
        match self {
            CheckFailure::Lookup(e) => joined("DNS lookup failed: ", e),
            CheckFailure::NoAddress => "DNS lookup returned no addresses".to_owned(),
            CheckFailure::Connect(e) => joined("connect failed: ", e),
            CheckFailure::ServerName(e) => joined("invalid hostname for SNI: ", e),
            CheckFailure::Session(e) => joined("failed to start TLS session: ", e),
            CheckFailure::Handshake(e) => joined("TLS handshake failed: ", e),
            CheckFailure::NoCertificate => "server presented no certificate".to_owned(),
            CheckFailure::EmptyChain => "empty certificate chain".to_owned(),
            CheckFailure::Certificate(e) => joined("failed to parse certificate: ", e),
        }
    }
}

/// Finds the name under which a TLS session addresses the host.
pub fn server_name(host: &str) -> (r: Result<String, CheckFailure>)
    ensures
        match r {
            Ok(name) => server_name_text(host@) == Some(name@),
            Err(failure) => server_name_text(host@) is None && failure@
                == FailureView::ServerName("invalid dns name"@),
        },
{
    match read_server_name(host) {
        Ok(name) => Ok(name),
        Err(message) => Err(CheckFailure::ServerName(message)),
    }
}

/// Says what a check of `target` finds at the time `now` where the server presents `chain`.
pub fn check_chain_at(target: &Target, chain: &Option<Vec<Vec<u8>>>, now: i64) -> (r: Result<
    CertResult,
    CheckFailure,
>)
    requires
        certificate::representable_time(now),
    ensures
        outcome_view(r) == chain_outcome(target@, *chain, now),
        r matches Ok(result) ==> result@.status.countable(),
{
    match chain {
        None => Err(CheckFailure::NoCertificate),
        Some(certificates) => {
            if certificates.len() == 0 {
                return Err(CheckFailure::EmptyChain);
            }
            match certificate::inspect(target, certificates[0].as_slice(), now) {
                Ok(result) => Ok(result),
                Err(message) => Err(CheckFailure::Certificate(message)),
            }
        },
    }
}

/// Says what a check of `target` finds now where the server presents `chain`. The time of the
/// check is what the clock says when it is made.
pub fn check_chain(target: &Target, chain: &Option<Vec<Vec<u8>>>) -> (r: Result<
    CertResult,
    CheckFailure,
>)
    ensures
        exists|now: i64|
            certificate::clock_says(now) && certificate::representable_time(now) && outcome_view(r)
                == #[trigger] chain_outcome(target@, *chain, now),
        r matches Ok(result) ==> result@.status.countable(),
{
    let now: i64 = certificate::read_clock();
    check_chain_at(target, chain, now)
}

/// The finding of a check: what it read, or the failure as the status.
pub fn conclude(target: &Target, outcome: Result<CertResult, CheckFailure>) -> (r: CertResult)
    ensures
        r@ == final_finding(target@, outcome_view(outcome)),
{
    match outcome {
        Ok(result) => result,
        Err(failure) => CertResult {
            target: target.clone(),
            status: Status::Error(failure.message()),
            not_after: None,
            subject: None,
            issuer: None,
        },
    }
}

/// Every check ends in a finding about its own target, and a check that failed ends in one whose
/// status is the failure, which is critical whatever the thresholds are.
pub proof fn law_every_check_is_reported(
    target: TargetView,
    chain: Option<Vec<Vec<u8>>>,
    now: i64,
    failure: FailureView,
    warn_days: i64,
    critical_days: i64,
)
    ensures
        final_finding(target, chain_outcome(target, chain, now)).target == target,
        final_finding(target, Err(failure)).target == target,
        final_finding(target, Err(failure)).status == StatusView::Error(failure.message()),
        final_finding(target, Err(failure)).status.severity(warn_days, critical_days)
            == Severity::Critical,
{
}

/// Only the first certificate of a chain counts, the server's own: what follows it changes
/// nothing.
pub proof fn law_first_certificate_counts(
    target: TargetView,
    chain: Vec<Vec<u8>>,
    other: Vec<Vec<u8>>,
    now: i64,
)
    requires
        chain@.len() > 0,
        other@.len() > 0,
        chain@[0]@ == other@[0]@,
    ensures
        chain_outcome(target, Some(chain), now) == chain_outcome(target, Some(other), now),
{
}

/// A check succeeds where the first certificate of the chain can be read. It tells the full days
/// from the time of the check to the end of that certificate's validity, and its names.
pub proof fn law_check_tells_the_days_left(target: TargetView, chain: Vec<Vec<u8>>, now: i64)
    requires
        chain@.len() > 0,
        certificate::x509_leaf(chain@[0]@) is Ok,
    ensures
        ({
            let leaf = certificate::x509_leaf(chain@[0]@)->Ok_0;
            let outcome = chain_outcome(target, Some(chain), now);
            let days = outcome->Ok_0.status->Days_0;
            let seconds = leaf.not_after - now;
            &&& outcome is Ok
            &&& outcome->Ok_0.target == target
            &&& outcome->Ok_0.subject == Some(leaf.subject)
            &&& outcome->Ok_0.issuer == Some(leaf.issuer)
            &&& outcome->Ok_0.not_after == Some(
                certificate::date_text(leaf.year as int, leaf.month as int, leaf.day as int),
            )
            &&& outcome->Ok_0.status is Days
            &&& seconds >= 0 ==> days * 86_400 <= seconds < (days + 1) * 86_400
            &&& seconds <= -86_400 ==> (days - 1) * 86_400 < seconds <= days * 86_400
            &&& -86_400 < seconds < 0 ==> days == -1
        }),
{
    let leaf = certificate::x509_leaf(chain@[0]@)->Ok_0;
    certificate::law_finding_reports_the_certificate(target, leaf, now);
    certificate::law_days_left_are_full_days(leaf.not_after, now);
}

/// A check fails where there is no chain, where it is empty, and where its first certificate
/// cannot be read; each has a failure of its own.
pub proof fn law_when_checks_fail(target: TargetView, chain: Vec<Vec<u8>>, now: i64)
    ensures
        chain_outcome(target, None, now) == Err::<CertView, FailureView>(
            FailureView::NoCertificate,
        ),
        chain@.len() == 0 ==> chain_outcome(target, Some(chain), now) == Err::<
            CertView,
            FailureView,
        >(FailureView::EmptyChain),
        chain@.len() > 0 ==> (certificate::x509_leaf(chain@[0]@) matches Err(message)
            ==> chain_outcome(target, Some(chain), now) == Err::<CertView, FailureView>(
            FailureView::Certificate(message),
        )),
{
}

/// What a check found is the finding. Of a check that failed only the target and the failure are
/// known.
pub proof fn law_conclusion(target: TargetView, found: CertView, failure: FailureView)
    ensures
        final_finding(target, Ok(found)) == found,
        final_finding(target, Err(failure)) == (CertView {
            target,
            status: StatusView::Error(failure.message()),
            not_after: None,
            subject: None,
            issuer: None,
        }),
{
}

/// Every failure is told by what failed, followed by the message from underneath if there is one.
pub proof fn law_failures_are_worded(e: Seq<char>)
    ensures
        FailureView::Lookup(e).message() == "DNS lookup failed: "@ + e,
        FailureView::NoAddress.message() == "DNS lookup returned no addresses"@,
        FailureView::Connect(e).message() == "connect failed: "@ + e,
        FailureView::ServerName(e).message() == "invalid hostname for SNI: "@ + e,
        FailureView::Session(e).message() == "failed to start TLS session: "@ + e,
        FailureView::Handshake(e).message() == "TLS handshake failed: "@ + e,
        FailureView::NoCertificate.message() == "server presented no certificate"@,
        FailureView::EmptyChain.message() == "empty certificate chain"@,
        FailureView::Certificate(e).message() == "failed to parse certificate: "@ + e,
{
}

/// An outcome is seen as it is: the finding of a success, the kind and the message of a failure.
pub proof fn law_outcomes_are_seen(found: CertResult, e: String)
    ensures
        outcome_view(Ok(found)) == Ok::<CertView, FailureView>(found@),
        outcome_view(Err(CheckFailure::Lookup(e))) == Err::<CertView, FailureView>(
            FailureView::Lookup(e@),
        ),
        outcome_view(Err(CheckFailure::NoAddress)) == Err::<CertView, FailureView>(
            FailureView::NoAddress,
        ),
        outcome_view(Err(CheckFailure::Connect(e))) == Err::<CertView, FailureView>(
            FailureView::Connect(e@),
        ),
        outcome_view(Err(CheckFailure::ServerName(e))) == Err::<CertView, FailureView>(
            FailureView::ServerName(e@),
        ),
        outcome_view(Err(CheckFailure::Session(e))) == Err::<CertView, FailureView>(
            FailureView::Session(e@),
        ),
        outcome_view(Err(CheckFailure::Handshake(e))) == Err::<CertView, FailureView>(
            FailureView::Handshake(e@),
        ),
        outcome_view(Err(CheckFailure::NoCertificate)) == Err::<CertView, FailureView>(
            FailureView::NoCertificate,
        ),
        outcome_view(Err(CheckFailure::EmptyChain)) == Err::<CertView, FailureView>(
            FailureView::EmptyChain,
        ),
        outcome_view(Err(CheckFailure::Certificate(e))) == Err::<CertView, FailureView>(
            FailureView::Certificate(e@),
        ),
{
}

} // verus!
