//! What the controller remembers of the network between cycles. Moments are
//! nanoseconds of a clock that never goes back.

use vstd::prelude::*;

use crate::certificates::CertificateFacts;
use crate::dns::{is_due, record_is_due};
use crate::state::DnsRecordRecord;
use crate::table::{key1, Table};
use crate::text::{copy_option, opt_text};

verus! {

/// Live network state, kept in memory.
pub struct NetworkRuntime {
    /// When each DNS record was last checked.
    pub dns_checked: Table<String, u64>,
    /// Every DNS record is to be checked now.
    pub dns_forced: bool,
    /// Domains whose certificate is being issued.
    pub issuing: Table<String, bool>,
    /// When issuance was last tried.
    pub certificate_attempted: Table<String, u64>,
    /// Domains whose certificate is to be renewed now.
    pub certificate_forced: Table<String, bool>,
    /// Certificates loaded into ingress: the fingerprint, by domain.
    pub loaded: Table<String, String>,
    /// When each instance's readiness was last checked.
    pub readiness_checked: Table<String, u64>,
}

/// How long ago a remembered moment was.
pub open spec fn since_moment(
    moments: Map<Seq<Seq<char>>, u64>,
    name: Seq<char>,
    now: u64,
) -> Option<u64> {
    if moments.contains_key(key1(name)) {
        let at = moments[key1(name)];
        Some(
            if now >= at {
                (now - at) as u64
            } else {
                0
            },
        )
    } else {
        None
    }
}

fn since(moments: &Table<String, u64>, name: &str, now: u64) -> (r: Option<u64>)
    ensures
        r == since_moment(moments@, name@, now),
{
    match moments.at(name) {
        Some(at) => Some(
            if now >= *at {
                now - *at
            } else {
                0
            },
        ),
        None => None,
    }
}

impl NetworkRuntime {
    /// Nothing is remembered.
    pub fn new() -> (r: Self)
        ensures
            r.dns_checked@ == Map::<Seq<Seq<char>>, u64>::empty(),
            !r.dns_forced,
            r.issuing@ == Map::<Seq<Seq<char>>, bool>::empty(),
            r.certificate_attempted@ == Map::<Seq<Seq<char>>, u64>::empty(),
            r.certificate_forced@ == Map::<Seq<Seq<char>>, bool>::empty(),
            r.loaded@ == Map::<Seq<Seq<char>>, String>::empty(),
            r.readiness_checked@ == Map::<Seq<Seq<char>>, u64>::empty(),
    {
        NetworkRuntime {
            dns_checked: Table::new(),
            dns_forced: false,
            issuing: Table::new(),
            certificate_attempted: Table::new(),
            certificate_forced: Table::new(),
            loaded: Table::new(),
            readiness_checked: Table::new(),
        }
    }

    /// Begin a cycle: whether every DNS record is checked in it. A request
    /// holds for one cycle.
    pub fn begin_cycle(&mut self) -> (r: bool)
        ensures
            r == old(self).dns_forced,
            !final(self).dns_forced,
            *final(self) == (NetworkRuntime {
                dns_forced: final(self).dns_forced,
                ..*old(self)
            }),
    {
        let forced = self.dns_forced;
        self.dns_forced = false;
        forced
    }

    /// Whether an instance's readiness is to be checked now: it never was, or
    /// its check interval passed. One that is counts as checked.
    pub fn check_readiness(&mut self, instance_id: &str, interval_ms: u64, now: u64) -> (r: bool)
        ensures
            r == (match since_moment(old(self).readiness_checked@, instance_id@, now) {
                Some(since) => since >= interval_ms * 1_000_000,
                None => true,
            }),
            final(self).readiness_checked@ == (if r {
                old(self).readiness_checked@.insert(key1(instance_id@), now)
            } else {
                old(self).readiness_checked@
            }),
            *final(self) == (NetworkRuntime {
                readiness_checked: final(self).readiness_checked,
                ..*old(self)
            }),
    {
        let due = match since(&self.readiness_checked, instance_id, now) {
            Some(since) => since as u128 >= interval_ms as u128 * 1_000_000,
            None => true,
        };
        if due {
            self.readiness_checked.insert(instance_id.to_owned(), now);
        }
        due
    }

    /// Whether a DNS record is to be checked now; one that is counts as
    /// checked.
    pub fn check_dns(
        &mut self,
        id: &str,
        record: &DnsRecordRecord,
        forced: bool,
        interval_ms: u64,
        now: u64,
    ) -> (r: bool)
        ensures
            r == is_due(
                record.state.status@,
                forced,
                since_moment(old(self).dns_checked@, id@, now),
                interval_ms,
            ),
            final(self).dns_checked@ == (if r {
                old(self).dns_checked@.insert(key1(id@), now)
            } else {
                old(self).dns_checked@
            }),
            *final(self) == (NetworkRuntime {
                dns_checked: final(self).dns_checked,
                ..*old(self)
            }),
    {
        let due = record_is_due(record, forced, since(&self.dns_checked, id, now), interval_ms);
        if due {
            self.dns_checked.insert(id.to_owned(), now);
        }
        due
    }

    /// What is known of a domain's certificate.
    pub fn certificate_facts(
        &self,
        domain: &str,
        held: bool,
        has_ingress: bool,
        ingress_http: bool,
        now: u64,
    ) -> (r: CertificateFacts)
        ensures
            r == (CertificateFacts {
                held,
                has_ingress,
                ingress_http,
                forced: self.certificate_forced@.contains_key(key1(domain@)),
                issuing: self.issuing@.contains_key(key1(domain@)),
                since_attempt_ns: since_moment(self.certificate_attempted@, domain@, now),
            }),
    {
        CertificateFacts {
            held,
            has_ingress,
            ingress_http,
            forced: self.certificate_forced.at(domain).is_some(),
            issuing: self.issuing.at(domain).is_some(),
            since_attempt_ns: since(&self.certificate_attempted, domain, now),
        }
    }

    /// Ask for a domain's certificate to be renewed, however recent the
    /// last attempt.
    pub fn force_certificate(&mut self, domain: &str)
        ensures
            final(self).certificate_forced@ == old(self).certificate_forced@.insert(
                key1(domain@),
                true,
            ),
            final(self).certificate_attempted@ == old(self).certificate_attempted@.remove(
                key1(domain@),
            ),
            *final(self) == (NetworkRuntime {
                certificate_attempted: final(self).certificate_attempted,
                certificate_forced: final(self).certificate_forced,
                ..*old(self)
            }),
    {
        self.certificate_forced.insert(domain.to_owned(), true);
        self.certificate_attempted.remove(&domain.to_owned());
    }

    /// An attempt to issue a domain's certificate begins.
    pub fn begin_issue(&mut self, domain: &str, now: u64)
        ensures
            final(self).issuing@ == old(self).issuing@.insert(key1(domain@), true),
            final(self).certificate_forced@ == old(self).certificate_forced@.remove(
                key1(domain@),
            ),
            final(self).certificate_attempted@ == old(self).certificate_attempted@.insert(
                key1(domain@),
                now,
            ),
            *final(self) == (NetworkRuntime {
                issuing: final(self).issuing,
                certificate_attempted: final(self).certificate_attempted,
                certificate_forced: final(self).certificate_forced,
                ..*old(self)
            }),
    {
        self.issuing.insert(domain.to_owned(), true);
        self.certificate_forced.remove(&domain.to_owned());
        self.certificate_attempted.insert(domain.to_owned(), now);
    }

    /// An attempt ended.
    pub fn end_issue(&mut self, domain: &str)
        ensures
            final(self).issuing@ == old(self).issuing@.remove(key1(domain@)),
            *final(self) == (NetworkRuntime {
                issuing: final(self).issuing,
                ..*old(self)
            }),
    {
        self.issuing.remove(&domain.to_owned());
    }

    /// The certificate ingress serves for a domain: its fingerprint.
    pub fn loaded_certificate(&self, domain: &str) -> (r: Option<String>)
        ensures
            opt_text(r) == (if self.loaded@.contains_key(key1(domain@)) {
                Some(self.loaded@[key1(domain@)]@)
            } else {
                None
            }),
    {
        match self.loaded.at(domain) {
            Some(fingerprint) => Some(fingerprint.clone()),
            None => None,
        }
    }

    /// Ingress serves a domain's certificate now, or no longer.
    pub fn set_loaded(&mut self, domain: &str, fingerprint: &Option<String>)
        ensures
            final(self).loaded@ == (match *fingerprint {
                Some(fingerprint) => old(self).loaded@.insert(key1(domain@), fingerprint),
                None => old(self).loaded@.remove(key1(domain@)),
            }),
            *final(self) == (NetworkRuntime {
                loaded: final(self).loaded,
                ..*old(self)
            }),
    {
        match copy_option(fingerprint) {
            Some(fingerprint) => {
                self.loaded.insert(domain.to_owned(), fingerprint);
            },
            None => {
                self.loaded.remove(&domain.to_owned());
            },
        }
    }
}

// ---- Laws ---------------------------------------------------------------

/// The time since a moment is known exactly when the moment is, and never
/// negative.
pub proof fn law_time_since_a_moment(
    moments: Map<Seq<Seq<char>>, u64>,
    name: Seq<char>,
    at: u64,
    now: u64,
)
    ensures
        since_moment(moments.remove(seq![name]), name, now) is None,
        at <= now ==> since_moment(moments.insert(seq![name], at), name, now) == Some(
            (now - at) as u64,
        ),
        at > now ==> since_moment(moments.insert(seq![name], at), name, now) == Some(0u64),
{
    assert(key1(name) =~= seq![name]);
}

} // verus!
