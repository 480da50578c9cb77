//! TLS for the Compute API: a configured certificate and key, reloaded when
//! either file changes, without restarting the controller or any workload.

use vstd::prelude::*;

use crate::error::{EnvironmentError, Refusal};
use crate::text::opt_text;
use crate::time::{moment_of, moment_text};

verus! {

/// How often a handshake may check the files for a new certificate, in
/// nanoseconds.
pub const RELOAD_CHECK_NS: u64 = 1_000_000_000;

/// What is said about the API's TLS.
#[derive(Debug, Clone, PartialEq, Eq)]
pub struct TlsStatus {
    pub enabled: bool,
    pub certificate: Option<String>,
    pub fingerprint: Option<String>,
    pub not_after: Option<i64>,
    pub names: Vec<String>,
    pub loaded_at: Option<i64>,
    pub reloads: u64,
    /// The last reload that failed; the previous certificate kept serving.
    pub last_error: Option<String>,
}

impl TlsStatus {
    /// TLS is not terminated here.
    pub open spec fn is_disabled(self) -> bool {
        &&& !self.enabled
        &&& self.certificate is None
        &&& self.fingerprint is None
        &&& self.not_after is None
        &&& self.names@.len() == 0
        &&& self.loaded_at is None
        &&& self.reloads == 0
        &&& self.last_error is None
    }

    pub fn disabled() -> (r: Self)
        ensures
            r.is_disabled(),
    {
        TlsStatus {
            enabled: false,
            certificate: None,
            fingerprint: None,
            not_after: None,
            names: Vec::new(),
            loaded_at: None,
            reloads: 0,
            last_error: None,
        }
    }
}

/// A certificate's public facts.
#[derive(Debug)]
pub struct CertificateFacts {
    pub fingerprint: String,
    pub not_after: i64,
    pub names: Vec<String>,
}

pub open spec fn expired_text(certificate: Seq<char>, not_after: i64) -> Seq<char> {
    "the certificate in "@ + certificate + " expired at "@ + moment_text(not_after)
}

/// The status of a certificate that was read at `now`: one that expired is
/// refused.
pub fn certificate_status(certificate: &str, facts: CertificateFacts, now: i64) -> (r: Result<
    TlsStatus,
    String,
>)
    ensures
        if facts.not_after <= now {
            r matches Err(text) && text@ == expired_text(certificate@, facts.not_after)
        } else {
            &&& r matches Ok(status)
            &&& status.enabled
            &&& opt_text(status.certificate) == Some(certificate@)
            &&& status.fingerprint == Some(facts.fingerprint)
            &&& status.not_after == Some(facts.not_after)
            &&& status.names == facts.names
            &&& status.loaded_at == Some(now)
            &&& status.reloads == 0
            &&& status.last_error is None
        },
{
    if facts.not_after <= now {
        let mut text = "the certificate in ".to_owned();
        text.append(certificate);
        text.append(" expired at ");
        text.append(&moment_of(facts.not_after));
        return Err(text);
    }
    Ok(
        TlsStatus {
            enabled: true,
            certificate: Some(certificate.to_owned()),
            fingerprint: Some(facts.fingerprint),
            not_after: Some(facts.not_after),
            names: facts.names,
            loaded_at: Some(now),
            reloads: 0,
            last_error: None,
        },
    )
}

/// Why a certificate's or key's file cannot be read.
pub fn unreadable(path: &str, error: &str) -> (r: String)
    ensures
        r@ == path@ + ": "@ + error@,
{
    let mut text = path.to_owned();
    text.append(": ");
    text.append(error);
    text
}

/// What a controller that requires TLS is refused with when it cannot have
/// it: never plaintext.
pub fn load_refusal(error: &str) -> (r: EnvironmentError)
    ensures
        r.reports(Refusal::Invalid("TLS is required and cannot be loaded: "@ + error@)),
{
    let mut text = "TLS is required and cannot be loaded: ".to_owned();
    text.append(error);
    EnvironmentError::Invalid(text)
}

/// The certificate being served: its status, when its two files were
/// modified, and when they were last looked at.
pub struct LoadedTls {
    pub status: TlsStatus,
    pub modified: (Option<i64>, Option<i64>),
    pub checked: u64,
}

impl LoadedTls {
    /// Whether the files are looked at again now: at most once a second.
    pub fn is_due(&mut self, now: u64) -> (r: bool)
        ensures
            r == (now >= old(self).checked && now - old(self).checked >= RELOAD_CHECK_NS),
            r <==> now - old(self).checked >= 1_000_000_000,
            final(self).status == old(self).status,
            final(self).modified == old(self).modified,
            final(self).checked == (if r {
                now
            } else {
                old(self).checked
            }),
    {
        if now >= self.checked && now - self.checked >= RELOAD_CHECK_NS {
            self.checked = now;
            true
        } else {
            false
        }
    }

    /// Whether a file changed since the certificate was loaded.
    pub fn has_changed(&self, modified: (Option<i64>, Option<i64>)) -> (r: bool)
        ensures
            r == (modified != self.modified),
    {
        !(same_moment(modified.0, self.modified.0) && same_moment(modified.1, self.modified.1))
    }

    /// Take over what loading the changed files gave. A pair that cannot be
    /// loaded is reported, and the certificate that works keeps serving; it
    /// is tried again at the next check.
    pub fn reload(
        &mut self,
        loaded: Result<TlsStatus, String>,
        modified: (Option<i64>, Option<i64>),
    )
        requires
            old(self).status.reloads < u64::MAX,
        ensures
            final(self).checked == old(self).checked,
            match loaded {
                Ok(status) => {
                    &&& final(self).status == (TlsStatus {
                        reloads: (old(self).status.reloads + 1) as u64,
                        ..status
                    })
                    &&& final(self).modified == modified
                },
                Err(error) => {
                    &&& final(self).status == (TlsStatus {
                        last_error: Some(error),
                        ..old(self).status
                    })
                    &&& final(self).modified == old(self).modified
                },
            },
    {
        match loaded {
            Ok(status) => {
                let mut status = status;
                status.reloads = self.status.reloads + 1;
                self.status = status;
                self.modified = modified;
            },
            Err(error) => {
                self.status.last_error = Some(error);
            },
        }
    }
}

fn same_moment(a: Option<i64>, b: Option<i64>) -> (r: bool)
    ensures
        r == (a == b),
{
    match (a, b) {
        (Some(a), Some(b)) => a == b,
        (None, None) => true,
        _ => false,
    }
}

// ---- Laws -------------------------------------------------------------------

/// A pair of files that cannot be loaded never replaces the certificate
/// being served, and is looked at again: what is served stays as it was, and
/// the files still count as changed.
pub proof fn law_a_failed_reload_keeps_serving(
    before: LoadedTls,
    after: LoadedTls,
    error: String,
    modified: (Option<i64>, Option<i64>),
)
    requires
        modified != before.modified,
        after.status == (TlsStatus { last_error: Some(error), ..before.status }),
        after.modified == before.modified,
    ensures
        after.status.certificate == before.status.certificate,
        after.status.fingerprint == before.status.fingerprint,
        after.status.not_after == before.status.not_after,
        after.status.reloads == before.status.reloads,
        after.modified != modified,
{
}

/// Where TLS is not terminated nothing is said of a certificate.
pub proof fn law_disabled_tls_has_no_certificate(status: TlsStatus)
    requires
        status.is_disabled(),
    ensures
        !status.enabled,
        status.certificate is None,
        status.fingerprint is None,
        status.not_after is None,
        status.names@.len() == 0,
        status.loaded_at is None,
        status.reloads == 0,
        status.last_error is None,
{
}

} // verus!
