//! Converging certificates: when one is issued or renewed, and what is
//! recorded of it. Keys stay in the node's secret store; records only refer
//! to them.

use vstd::prelude::*;

use crate::events::{fact, no_scope, text_fact, Datum, DatumText, EventKind, Notice, Scope};
use crate::state::{CertificateRecord, Stored};
use crate::text::{opt_text, same, same_option};
use crate::time::{day_of, time_text, DAY};

verus! {

pub const DAY_NS: i128 = 86_400_000_000_000;

/// What a certificate's issuance needs of the node.
pub const HTTP_01_NEEDS_INGRESS: &'static str = "HTTP-01 needs ingress HTTP on this node (network.ingress_http)";

/// What the controller knows of a certificate besides its record.
#[derive(Debug, Clone, Copy)]
pub struct CertificateFacts {
    /// Whether this node holds the key.
    pub held: bool,
    pub has_ingress: bool,
    /// Whether ingress answers HTTP, which challenges need.
    pub ingress_http: bool,
    /// Whether renewal was asked for.
    pub forced: bool,
    /// Whether it is being issued right now.
    pub issuing: bool,
    /// How long ago issuance was last tried, in nanoseconds.
    pub since_attempt_ns: Option<u64>,
}

/// Whether ingress is to load a certificate: this node holds it and ingress
/// does not serve that one yet.
pub fn must_load(
    held: bool,
    has_ingress: bool,
    fingerprint: &Option<String>,
    loaded: &Option<String>,
) -> (r: bool)
    ensures
        r == (held && has_ingress && *fingerprint is Some && opt_text(*loaded) != opt_text(
            *fingerprint,
        )),
{
    held && has_ingress && fingerprint.is_some() && !same_option(loaded, fingerprint)
}

/// What is recorded of a certificate ingress could not load.
pub fn load_error(error: &str) -> (r: String)
    ensures
        r@ == "cannot serve the certificate: "@ + error@,
{
    let mut text = "cannot serve the certificate: ".to_owned();
    text.append(error);
    text
}

// ---- When -------------------------------------------------------------------

pub open spec fn is_expired(certificate: CertificateRecord, now: i64) -> bool {
    certificate.expires_at matches Some(at) && at <= now
}

/// Whether it is time to renew: the certificate expires within so many days.
pub open spec fn is_renewal_due(certificate: CertificateRecord, renew_days: u32, now: i64) -> bool {
    certificate.expires_at matches Some(at) && at - renew_days * 86_400_000_000_000 <= now
}

/// Whether a certificate should be issued: renewal was asked for, there is
/// none yet, this node does not hold its key, or it runs out.
pub open spec fn is_wanted(
    certificate: CertificateRecord,
    facts: CertificateFacts,
    renew_days: u32,
    now: i64,
) -> bool {
    ||| facts.forced
    ||| certificate.status@ == "pending"@
    ||| !facts.held
    ||| is_renewal_due(certificate, renew_days, now)
    ||| is_expired(certificate, now)
}

/// Whether the last attempt is too recent to try again, unless asked to.
pub open spec fn is_backing_off(facts: CertificateFacts, retry_ms: u64) -> bool {
    !facts.forced && (facts.since_attempt_ns matches Some(gone) && gone < retry_ms * 1_000_000)
}

/// Whether issuing is attempted now, if the node can.
pub open spec fn is_attempted(
    certificate: CertificateRecord,
    facts: CertificateFacts,
    renew_days: u32,
    retry_ms: u64,
    now: i64,
) -> bool {
    &&& is_wanted(certificate, facts, renew_days, now)
    &&& !facts.issuing
    &&& !is_backing_off(facts, retry_ms)
}

// ---- What -------------------------------------------------------------------

/// One change to a certificate's record: the fields it sets. Each also sets
/// when the record was last reconciled.
#[derive(Debug)]
pub struct CertificateUpdate {
    pub status: Option<&'static str>,
    pub renewal_status: Option<&'static str>,
    pub last_error: Option<String>,
}

/// A change as plain text.
pub ghost struct UpdateText {
    pub status: Option<Seq<char>>,
    pub renewal_status: Option<Seq<char>>,
    pub last_error: Option<Seq<char>>,
}

impl View for CertificateUpdate {
    type V = UpdateText;

    open spec fn view(&self) -> UpdateText {
        UpdateText {
            status: match self.status {
                Some(text) => Some(text@),
                None => None,
            },
            renewal_status: match self.renewal_status {
                Some(text) => Some(text@),
                None => None,
            },
            last_error: opt_text(self.last_error),
        }
    }
}

/// The change that time brings: a certificate expired, or is due.
pub open spec fn aging_update(certificate: CertificateRecord, renew_days: u32, now: i64) -> Option<
    UpdateText,
> {
    if is_expired(certificate, now) && certificate.status@ != "expired"@ {
        Some(UpdateText { status: Some("expired"@), renewal_status: None, last_error: None })
    } else if is_renewal_due(certificate, renew_days, now) && certificate.renewal_status@
        == "not_due"@ {
        Some(UpdateText { status: None, renewal_status: Some("due"@), last_error: None })
    } else {
        None
    }
}

/// Whether the certificate that is issued replaces one.
pub open spec fn is_renewing(certificate: CertificateRecord) -> bool {
    certificate.status@ == "valid"@ || certificate.fingerprint is Some
}

/// The change an attempt brings: it begins, or the node cannot make it,
/// which is recorded unless an error already is.
pub open spec fn attempt_update(certificate: CertificateRecord, facts: CertificateFacts) -> Option<
    UpdateText,
> {
    if !(facts.has_ingress && facts.ingress_http) {
        if certificate.last_error is None {
            Some(
                UpdateText {
                    status: Some("failed"@),
                    renewal_status: None,
                    last_error: Some(HTTP_01_NEEDS_INGRESS@),
                },
            )
        } else {
            None
        }
    } else if is_renewing(certificate) {
        Some(UpdateText { status: None, renewal_status: Some("renewing"@), last_error: None })
    } else {
        Some(UpdateText { status: Some("issuing"@), renewal_status: None, last_error: None })
    }
}

impl CertificateUpdate {
    /// Make a change to a certificate's record: what it does not set stays.
    pub fn apply(self, record: &mut CertificateRecord, now: i64)
        ensures
            final(record).status@ == (match self@.status {
                Some(status) => status,
                None => old(record).status@,
            }),
            final(record).renewal_status@ == (match self@.renewal_status {
                Some(status) => status,
                None => old(record).renewal_status@,
            }),
            final(record).last_error == (match self.last_error {
                Some(error) => Some(error),
                None => old(record).last_error,
            }),
            *final(record) == (CertificateRecord {
                status: final(record).status,
                renewal_status: final(record).renewal_status,
                last_error: final(record).last_error,
                last_reconciled_at: Some(now),
                ..*old(record)
            }),
    {
        if let Some(status) = self.status {
            record.status = status.to_owned();
        }
        if let Some(status) = self.renewal_status {
            record.renewal_status = status.to_owned();
        }
        if let Some(error) = self.last_error {
            record.last_error = Some(error);
        }
        record.last_reconciled_at = Some(now);
    }
}

/// What is done about a certificate.
#[derive(Debug)]
pub struct CertificateStep {
    /// That it expired, or is due.
    pub aging: Option<CertificateUpdate>,
    /// How the attempt to issue it starts.
    pub attempt: Option<CertificateUpdate>,
    /// Issue it; whether that renews one.
    pub issue: Option<bool>,
}

pub open spec fn update_view(update: Option<CertificateUpdate>) -> Option<UpdateText> {
    match update {
        Some(update) => Some(update@),
        None => None,
    }
}

/// Decide what is done about a certificate now.
pub fn certificate_step(
    certificate: &CertificateRecord,
    facts: CertificateFacts,
    renew_days: u32,
    retry_ms: u64,
    now: i64,
) -> (r: CertificateStep)
    ensures
        update_view(r.aging) == aging_update(*certificate, renew_days, now),
        ({
            let attempted = is_attempted(*certificate, facts, renew_days, retry_ms, now);
            &&& update_view(r.attempt) == (if attempted {
                attempt_update(*certificate, facts)
            } else {
                None
            })
            &&& r.issue == (if attempted && facts.has_ingress && facts.ingress_http {
                Some(is_renewing(*certificate))
            } else {
                None
            })
        }),
{
    let (expired, due) = match certificate.expires_at {
        Some(at) => (at <= now, at as i128 - (renew_days as i128) * DAY_NS <= now as i128),
        None => (false, false),
    };
    let aging = if expired && !same(&certificate.status, "expired") {
        Some(
            CertificateUpdate { status: Some("expired"), renewal_status: None, last_error: None },
        )
    } else if due && same(&certificate.renewal_status, "not_due") {
        Some(CertificateUpdate { status: None, renewal_status: Some("due"), last_error: None })
    } else {
        None
    };
    let wanted = facts.forced || same(&certificate.status, "pending") || !facts.held || due
        || expired;
    let backing_off = !facts.forced && match facts.since_attempt_ns {
        Some(gone) => (gone as u128) < (retry_ms as u128) * 1_000_000,
        None => false,
    };
    if !wanted || facts.issuing || backing_off {
        return CertificateStep { aging, attempt: None, issue: None };
    }
    if !(facts.has_ingress && facts.ingress_http) {
        let attempt = if certificate.last_error.is_none() {
            Some(
                CertificateUpdate {
                    status: Some("failed"),
                    renewal_status: None,
                    last_error: Some(HTTP_01_NEEDS_INGRESS.to_owned()),
                },
            )
        } else {
            None
        };
        return CertificateStep { aging, attempt, issue: None };
    }
    let renewing = same(&certificate.status, "valid") || certificate.fingerprint.is_some();
    let attempt = if renewing {
        CertificateUpdate { status: None, renewal_status: Some("renewing"), last_error: None }
    } else {
        CertificateUpdate { status: Some("issuing"), renewal_status: None, last_error: None }
    };
    CertificateStep { aging, attempt: Some(attempt), issue: Some(renewing) }
}

// ---- Issued -----------------------------------------------------------------

/// What issuance gave.
#[derive(Debug)]
pub struct Issued {
    pub not_before: i64,
    pub not_after: i64,
    pub fingerprint: String,
    pub secret_reference: String,
}

/// What is done about how issuance ended.
#[derive(Debug)]
pub enum IssueOutcome {
    /// The domain is gone; a secret nobody refers to.
    Gone { forget: Option<String> },
    /// The certificate is valid now; the secret it no longer needs.
    Valid { record: CertificateRecord, forget: Option<String>, notice: Notice },
    Failed { update: CertificateUpdate, notice: Notice },
}

/// Whether a record is of a certificate just issued.
pub open spec fn is_issued_record(
    record: CertificateRecord,
    before: CertificateRecord,
    issued: Issued,
    node_id: Seq<char>,
    now: i64,
) -> bool {
    &&& record.domain == before.domain
    &&& record.issuer == before.issuer
    &&& record.status@ == "valid"@
    &&& record.renewal_status@ == "not_due"@
    &&& record.not_before == Some(issued.not_before)
    &&& record.expires_at == Some(issued.not_after)
    &&& record.fingerprint == Some(issued.fingerprint)
    &&& record.secret_reference == Some(issued.secret_reference)
    &&& opt_text(record.held_by) == Some(node_id)
    &&& record.last_error is None
    &&& record.last_reconciled_at == Some(now)
}

pub open spec fn issued_text(domain: Seq<char>, renewing: bool, until: i64) -> Seq<char> {
    "certificate for "@ + domain + " "@ + (if renewing {
        "renewed"@
    } else {
        "issued"@
    }) + " until "@ + time_text(until, DAY@)
}

/// Whether a certificate serves on although renewing it failed.
pub open spec fn is_still_valid(certificate: CertificateRecord, now: i64) -> bool {
    certificate.status@ == "valid"@ && (certificate.expires_at matches Some(at) && at > now)
}

/// Record how issuance ended. A certificate that is still valid stays so
/// when renewing it fails, and a secret that nothing refers to is forgotten.
pub fn certificate_issued(
    domain: &str,
    certificate: Option<&Stored<CertificateRecord>>,
    renewing: bool,
    result: Result<Issued, String>,
    node_id: &str,
    now: i64,
) -> (r: IssueOutcome)
    ensures
        match (certificate, result) {
            (None, Ok(issued)) => r matches IssueOutcome::Gone { forget } && forget == Some(
                issued.secret_reference,
            ),
            (None, Err(_)) => r matches IssueOutcome::Gone { forget } && forget is None,
            (Some(certificate), Ok(issued)) => {
                &&& r matches IssueOutcome::Valid { record, forget, notice }
                &&& is_issued_record(record, certificate.value, issued, node_id@, now)
                &&& forget == (if certificate.value.secret_reference is Some
                    && certificate.value.secret_reference->0@ != issued.secret_reference@ {
                    certificate.value.secret_reference
                } else {
                    None
                })
                &&& notice.says(
                    if renewing {
                        EventKind::CertificateRenewed
                    } else {
                        EventKind::CertificateIssued
                    },
                    no_scope(),
                    issued_text(domain@, renewing, issued.not_after),
                    seq![
                        text_fact("domain"@, domain@),
                        text_fact("fingerprint"@, issued.fingerprint@),
                        fact("expires_at"@, DatumText::Moment(issued.not_after)),
                    ],
                )
            },
            (Some(certificate), Err(error)) => {
                &&& r matches IssueOutcome::Failed { update, notice }
                &&& update@ == (if is_still_valid(certificate.value, now) {
                    UpdateText {
                        status: None,
                        renewal_status: Some("failed"@),
                        last_error: Some(error@),
                    }
                } else {
                    UpdateText {
                        status: Some("failed"@),
                        renewal_status: None,
                        last_error: Some(error@),
                    }
                })
                &&& notice.says(
                    EventKind::CertificateFailed,
                    no_scope(),
                    "certificate for "@ + domain@ + " could not be issued: "@ + error@,
                    seq![text_fact("domain"@, domain@), text_fact("error"@, error@)],
                )
            },
        },
{
    let certificate = match certificate {
        Some(certificate) => certificate,
        None => {
            return match result {
                Ok(issued) => IssueOutcome::Gone { forget: Some(issued.secret_reference) },
                Err(_) => IssueOutcome::Gone { forget: None },
            };
        },
    };
    match result {
        Ok(issued) => {
            let forget = match &certificate.value.secret_reference {
                Some(previous) => if same(previous, &issued.secret_reference) {
                    None
                } else {
                    Some(previous.clone())
                },
                None => None,
            };
            let mut message = "certificate for ".to_owned();
            message.append(domain);
            message.append(" ");
            message.append(
                if renewing {
                    "renewed"
                } else {
                    "issued"
                },
            );
            message.append(" until ");
            message.append(&day_of(issued.not_after));
            let kind = if renewing {
                EventKind::CertificateRenewed
            } else {
                EventKind::CertificateIssued
            };
            let notice = Notice::new(kind, Scope::default(), message).with(
                "domain",
                Datum::text(domain),
            ).with("fingerprint", Datum::text(&issued.fingerprint)).with(
                "expires_at",
                Datum::Moment(issued.not_after),
            );
            let record = CertificateRecord {
                domain: certificate.value.domain.clone(),
                issuer: certificate.value.issuer.clone(),
                status: "valid".to_owned(),
                renewal_status: "not_due".to_owned(),
                not_before: Some(issued.not_before),
                expires_at: Some(issued.not_after),
                fingerprint: Some(issued.fingerprint),
                secret_reference: Some(issued.secret_reference),
                held_by: Some(node_id.to_owned()),
                last_error: None,
                last_reconciled_at: Some(now),
            };
            IssueOutcome::Valid { record, forget, notice }
        },
        Err(error) => {
            let still_valid = same(&certificate.value.status, "valid") && match certificate.value.expires_at {
                Some(at) => at > now,
                None => false,
            };
            let mut message = "certificate for ".to_owned();
            message.append(domain);
            message.append(" could not be issued: ");
            message.append(&error);
            let notice = Notice::new(
                EventKind::CertificateFailed,
                Scope::default(),
                message,
            ).with("domain", Datum::text(domain)).with("error", Datum::text(&error));
            let update = if still_valid {
                CertificateUpdate {
                    status: None,
                    renewal_status: Some("failed"),
                    last_error: Some(error),
                }
            } else {
                CertificateUpdate {
                    status: Some("failed"),
                    renewal_status: None,
                    last_error: Some(error),
                }
            };
            IssueOutcome::Failed { update, notice }
        },
    }
}

/// A certificate that was just issued, that this node holds and that does
/// not run out soon, is left alone until someone asks for its renewal.
pub proof fn law_fresh_certificates_rest(
    record: CertificateRecord,
    before: CertificateRecord,
    issued: Issued,
    node_id: Seq<char>,
    now: i64,
    facts: CertificateFacts,
    renew_days: u32,
    later: i64,
)
    requires
        is_issued_record(record, before, issued, node_id, now),
        facts.held,
        !facts.forced,
        issued.not_after - renew_days * 86_400_000_000_000 > later,
    ensures
        !is_wanted(record, facts, renew_days, later),
        aging_update(record, renew_days, later) is None,
{
    reveal_strlit("valid");
    reveal_strlit("pending");
    assert("valid"@[0] == 'v' && "pending"@[0] == 'p');
}

/// A certificate is issued exactly when renewal was asked for, there is none
/// yet, this node does not hold it, or it expires within the days given; not
/// while it is being issued, and, unless asked for, not again before the
/// retry interval is over.
pub proof fn law_certificates_are_issued_in_time(
    certificate: CertificateRecord,
    facts: CertificateFacts,
    renew_days: u32,
    retry_ms: u64,
    now: i64,
)
    ensures
        is_attempted(certificate, facts, renew_days, retry_ms, now) <==> {
            &&& !facts.issuing
            &&& facts.forced || (facts.since_attempt_ns matches Some(gone) ==> gone >= retry_ms
                * 1_000_000)
            &&& {
                ||| facts.forced
                ||| certificate.status@ == "pending"@
                ||| !facts.held
                ||| certificate.expires_at matches Some(at) && now >= at - renew_days
                    * 86_400_000_000_000
            }
        },
{
    assert(0 <= renew_days * 86_400_000_000_000);
}

/// A certificate whose time is over is marked expired, once; one that runs
/// out within the days given is marked due, once; nothing else ages.
pub proof fn law_certificates_age(certificate: CertificateRecord, renew_days: u32, now: i64)
    ensures
        certificate.expires_at is None ==> aging_update(certificate, renew_days, now) is None,
        certificate.expires_at matches Some(at) ==> {
            &&& at <= now && certificate.status@ != "expired"@ ==> (aging_update(
                certificate,
                renew_days,
                now,
            ) matches Some(update) && update.status == Some("expired"@))
            &&& at > now && at - renew_days * 86_400_000_000_000 > now ==> aging_update(
                certificate,
                renew_days,
                now,
            ) is None
            &&& at > now && at - renew_days * 86_400_000_000_000 <= now ==> {
                &&& certificate.renewal_status@ == "not_due"@ ==> (aging_update(
                    certificate,
                    renew_days,
                    now,
                ) matches Some(update) && update.renewal_status == Some("due"@)
                    && update.status is None)
                &&& certificate.renewal_status@ != "not_due"@ ==> aging_update(
                    certificate,
                    renew_days,
                    now,
                ) is None
            }
        },
{
    assert(0 <= renew_days * 86_400_000_000_000);
}

/// A certificate that serves keeps its status while it is renewed: only one
/// that never was issued is marked as being issued. Without ingress that
/// answers HTTP nothing is issued, and that is recorded as the failure.
pub proof fn law_renewing_keeps_the_certificate(
    certificate: CertificateRecord,
    facts: CertificateFacts,
)
    ensures
        facts.has_ingress && facts.ingress_http && (certificate.status@ == "valid"@
            || certificate.fingerprint is Some) ==> (attempt_update(certificate, facts) matches Some(
            update,
        ) && update.status is None && update.renewal_status == Some("renewing"@)),
        facts.has_ingress && facts.ingress_http && certificate.status@ != "valid"@
            && certificate.fingerprint is None ==> (attempt_update(certificate, facts) matches Some(
            update,
        ) && update.status == Some("issuing"@) && update.renewal_status is None),
        (!facts.has_ingress || !facts.ingress_http) && certificate.last_error is None ==> (
        attempt_update(certificate, facts) matches Some(update) && update.status == Some("failed"@)
            && update.last_error is Some),
        (!facts.has_ingress || !facts.ingress_http) && certificate.last_error is Some
            ==> attempt_update(certificate, facts) is None,
{
}

/// A certificate that was issued is valid, is held by the node that asked
/// for it, and holds the dates, the fingerprint and the key it was issued
/// with; an error before it is over.
pub proof fn law_issued_certificates_are_as_issued(
    record: CertificateRecord,
    before: CertificateRecord,
    issued: Issued,
    node_id: Seq<char>,
    now: i64,
)
    requires
        is_issued_record(record, before, issued, node_id, now),
    ensures
        record.domain@ == before.domain@,
        record.issuer@ == before.issuer@,
        record.status@ == "valid"@,
        record.renewal_status@ == "not_due"@,
        record.not_before == Some(issued.not_before),
        record.expires_at == Some(issued.not_after),
        opt_text(record.fingerprint) == Some(issued.fingerprint@),
        opt_text(record.secret_reference) == Some(issued.secret_reference@),
        opt_text(record.held_by) == Some(node_id),
        record.last_error is None,
{
}

/// A renewal that fails leaves a certificate valid exactly as long as it has
/// not expired.
pub proof fn law_failed_renewals_keep_valid_certificates(certificate: CertificateRecord, now: i64)
    ensures
        is_still_valid(certificate, now) <==> certificate.status@ == "valid"@ && (
        certificate.expires_at matches Some(at) && now < at),
{
}

} // verus!
