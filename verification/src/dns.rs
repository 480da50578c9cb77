//! Converging DNS: when a record is checked, what is done about what its
//! provider answers, and what is recorded of it.

use vstd::prelude::*;

use crate::domains::not_configured;
use crate::events::{no_scope, text_fact, Datum, EventKind, FactText, Notice, Scope};
use crate::state::{DnsRecordRecord, Reconciliation};
use crate::text::{copy_option, join, joined, opt_text, same, texts};

verus! {

/// How soon a DNS record that is not yet healthy is checked again, in
/// milliseconds.
pub const DNS_RETRY_MS: u64 = 5_000;

/// Whether a record is due: it was asked for, it was never checked, or its
/// last check is long enough ago. One that is as wanted is checked at the
/// configured interval, any other soon again.
pub open spec fn is_due(
    status: Seq<char>,
    forced: bool,
    since_check_ns: Option<u64>,
    interval_ms: u64,
) -> bool {
    let interval = if status == "healthy"@ {
        interval_ms
    } else {
        DNS_RETRY_MS
    };
    forced || match since_check_ns {
        Some(gone) => gone >= interval * 1_000_000,
        None => true,
    }
}

/// Whether a DNS record is to be checked now.
pub fn record_is_due(
    record: &DnsRecordRecord,
    forced: bool,
    since_check_ns: Option<u64>,
    interval_ms: u64,
) -> (r: bool)
    ensures
        r == is_due(record.state.status@, forced, since_check_ns, interval_ms),
{
    let interval: u64 = if same(&record.state.status, "healthy") {
        interval_ms
    } else {
        DNS_RETRY_MS
    };
    forced || match since_check_ns {
        Some(gone) => gone as u128 >= (interval as u128) * 1_000_000,
        None => true,
    }
}

/// A record as its provider has it.
#[derive(Debug)]
pub struct FoundRecord {
    pub value: String,
    pub ttl: u32,
}

/// What looking a record up at its provider gave.
#[derive(Debug)]
pub enum Lookup {
    NotConfigured,
    /// The provider cannot be used, and why.
    Unusable(String),
    Failed(String),
    Found(Vec<FoundRecord>),
}

/// The values found.
pub open spec fn found_values(found: Seq<FoundRecord>) -> Seq<Seq<char>> {
    found.map_values(|record: FoundRecord| record.value@)
}

/// Whether what was found is exactly what is wanted: one record, with the
/// wanted value and lifetime.
pub open spec fn is_correct(record: DnsRecordRecord, found: Seq<FoundRecord>) -> bool {
    found.len() == 1 && found[0].value@ == record.value@ && found[0].ttl == record.ttl
}

/// What was found instead, in words.
pub open spec fn before_text(found: Seq<FoundRecord>) -> Seq<char> {
    if found.len() == 0 {
        "nothing"@
    } else {
        joined(found_values(found), ", "@)
    }
}

/// What a record that was checked became.
#[derive(Debug)]
pub struct DnsOutcome {
    pub record: DnsRecordRecord,
    pub notices: Vec<Notice>,
}

/// Whether the outcome keeps a record's definition, in a given state.
pub open spec fn has_state(
    outcome: DnsOutcome,
    record: DnsRecordRecord,
    status: Seq<char>,
    actual: Option<Seq<char>>,
    last_error: Option<Seq<char>>,
    now: i64,
) -> bool {
    let state = outcome.record.state;
    &&& outcome.record.domain == record.domain
    &&& outcome.record.provider == record.provider
    &&& outcome.record.zone == record.zone
    &&& outcome.record.name == record.name
    &&& outcome.record.record_type == record.record_type
    &&& outcome.record.value == record.value
    &&& outcome.record.ttl == record.ttl
    &&& state.status@ == status
    &&& opt_text(state.desired) == Some(record.value@)
    &&& opt_text(state.actual) == actual
    &&& opt_text(state.last_error) == last_error
    &&& state.last_reconciled_at == Some(now)
}

/// Whether the outcome is a record found as wanted.
pub open spec fn is_confirmed(outcome: DnsOutcome, record: DnsRecordRecord, now: i64) -> bool {
    &&& has_state(outcome, record, "healthy"@, Some(record.value@), None, now)
    &&& outcome.record.provider_record_id == record.provider_record_id
    &&& outcome.notices@.len() == 0
}

pub open spec fn failed_text(record: DnsRecordRecord, error: Seq<char>) -> Seq<char> {
    record.domain@ + " "@ + record.record_type@ + " could not be reconciled at "@ + record.provider@
        + ": "@ + error
}

/// Which record it is.
pub open spec fn record_facts(record: DnsRecordRecord) -> Seq<FactText> {
    seq![
        text_fact("domain"@, record.domain@),
        text_fact("record_type"@, record.record_type@),
    ]
}

fn record_notice(record: &DnsRecordRecord, kind: EventKind, message: String) -> (r: Notice)
    ensures
        r.says(kind, no_scope(), message@, record_facts(*record)),
{
    Notice::new(kind, Scope::default(), message).with("domain", Datum::text(&record.domain)).with(
        "record_type",
        Datum::text(&record.record_type),
    )
}

/// Whether the outcome is a failure: reported once, until it is over.
pub open spec fn is_failure(
    outcome: DnsOutcome,
    record: DnsRecordRecord,
    error: Seq<char>,
    now: i64,
) -> bool {
    &&& has_state(outcome, record, "failed"@, None, Some(error), now)
    &&& outcome.record.provider_record_id == record.provider_record_id
    &&& if record.state.status@ == "failed"@ {
        outcome.notices@.len() == 0
    } else {
        outcome.notices@.len() == 1 && outcome.notices@[0].says(
            EventKind::DnsFailed,
            no_scope(),
            failed_text(record, error),
            record_facts(record).push(text_fact("error"@, error)),
        )
    }
}

fn failure(record: &DnsRecordRecord, error: &str, now: i64) -> (r: DnsOutcome)
    ensures
        is_failure(r, *record, error@, now),
{
    let mut notices: Vec<Notice> = Vec::new();
    if !same(&record.state.status, "failed") {
        let mut message = record.domain.clone();
        message.append(" ");
        message.append(&record.record_type);
        message.append(" could not be reconciled at ");
        message.append(&record.provider);
        message.append(": ");
        message.append(error);
        notices.push(
            record_notice(record, EventKind::DnsFailed, message).with("error", Datum::text(error)),
        );
    }
    let mut updated = record.clone();
    updated.state = Reconciliation {
        status: "failed".to_owned(),
        desired: Some(record.value.clone()),
        actual: None,
        last_error: Some(error.to_owned()),
        last_reconciled_at: Some(now),
    };
    DnsOutcome { record: updated, notices }
}

/// What is done about what a lookup gave.
#[derive(Debug)]
pub enum DnsStep {
    Settled(DnsOutcome),
    /// Apply the record; what stood before, in words.
    Apply(String),
}

/// Whether `step` is what a lookup asks for.
pub open spec fn is_step(
    step: DnsStep,
    record: DnsRecordRecord,
    lookup: Lookup,
    now: i64,
) -> bool {
    match lookup {
        Lookup::NotConfigured => step matches DnsStep::Settled(outcome) && is_failure(
            outcome,
            record,
            "DNS provider "@ + record.provider@ + " is not configured"@,
            now,
        ),
        Lookup::Unusable(error) => step matches DnsStep::Settled(outcome) && is_failure(
            outcome,
            record,
            error@,
            now,
        ),
        Lookup::Failed(error) => step matches DnsStep::Settled(outcome) && is_failure(
            outcome,
            record,
            error@,
            now,
        ),
        Lookup::Found(found) => if is_correct(record, found@) {
            step matches DnsStep::Settled(outcome) && is_confirmed(outcome, record, now)
        } else {
            step matches DnsStep::Apply(before) && before@ == before_text(found@)
        },
    }
}

/// Decide what a lookup asks for: nothing when the record is as wanted, to
/// apply it when it is not, and to report a provider that did not answer.
pub fn check_record(record: &DnsRecordRecord, lookup: &Lookup, now: i64) -> (r: DnsStep)
    ensures
        is_step(r, *record, *lookup, now),
        r is Apply <==> (lookup matches Lookup::Found(found) && (found@.len() != 1
            || found@[0].value@ != record.value@ || found@[0].ttl != record.ttl)),
        r matches DnsStep::Settled(outcome) ==> (lookup matches Lookup::Found(found)
            ==> opt_text(outcome.record.state.actual) == Some(found@[0].value@)),
{
    match lookup {
        Lookup::NotConfigured => DnsStep::Settled(
            failure(record, &not_configured(&record.provider), now),
        ),
        Lookup::Unusable(error) => DnsStep::Settled(failure(record, error, now)),
        Lookup::Failed(error) => DnsStep::Settled(failure(record, error, now)),
        Lookup::Found(found) => {
            if found.len() == 1 && same(&found[0].value, &record.value) && found[0].ttl
                == record.ttl {
                let mut updated = record.clone();
                updated.state = Reconciliation {
                    status: "healthy".to_owned(),
                    desired: Some(record.value.clone()),
                    actual: Some(record.value.clone()),
                    last_error: None,
                    last_reconciled_at: Some(now),
                };
                return DnsStep::Settled(DnsOutcome { record: updated, notices: Vec::new() });
            }
            if found.len() == 0 {
                return DnsStep::Apply("nothing".to_owned());
            }
            let mut values: Vec<String> = Vec::new();
            let mut i: usize = 0;
            proof {
                assert(texts(values@) =~= found_values(found@).take(0));
            }
            while i < found.len()
                invariant
                    i <= found@.len(),
                    texts(values@) == found_values(found@).take(i as int),
                decreases found@.len() - i,
            {
                let ghost before = values@;
                values.push(found[i].value.clone());
                proof {
                    assert(texts(values@) =~= texts(before).push(found@[i as int].value@));
                    assert(found_values(found@).take(i + 1) =~= found_values(found@).take(
                        i as int,
                    ).push(found@[i as int].value@));
                }
                i += 1;
            }
            proof {
                assert(found_values(found@).take(i as int) =~= found_values(found@));
            }
            DnsStep::Apply(join(&values, ", "))
        },
    }
}

/// A record as its provider applied it.
#[derive(Debug)]
pub struct AppliedRecord {
    pub value: String,
    pub id: Option<String>,
}

pub open spec fn drifted_text(record: DnsRecordRecord, before: Seq<char>) -> Seq<char> {
    record.domain@ + " "@ + record.record_type@ + " drifted to "@ + before + "; restored "@
        + record.value@
}

pub open spec fn applied_text(record: DnsRecordRecord) -> Seq<char> {
    record.domain@ + " "@ + record.record_type@ + " → "@ + record.value@ + " at "@
        + record.provider@
}

/// Whether a wrong record drifted: it was right, or applied, before. One
/// never applied is just created.
pub open spec fn has_drifted(record: DnsRecordRecord) -> bool {
    record.state.status@ == "healthy"@ || record.provider_record_id is Some
}

/// Which record was applied, with which value, and by whom.
pub open spec fn applied_facts(record: DnsRecordRecord) -> Seq<FactText> {
    record_facts(record).push(text_fact("value"@, record.value@)).push(
        text_fact("provider"@, record.provider@),
    )
}

/// Whether the outcome is a record its provider applied.
pub open spec fn is_applied(
    outcome: DnsOutcome,
    record: DnsRecordRecord,
    before: Seq<char>,
    applied: AppliedRecord,
    now: i64,
) -> bool {
    &&& has_state(outcome, record, "healthy"@, Some(applied.value@), None, now)
    &&& outcome.record.provider_record_id == (if applied.id is Some {
        applied.id
    } else {
        record.provider_record_id
    })
    &&& if has_drifted(record) {
        &&& outcome.notices@.len() == 2
        &&& outcome.notices@[0].says(
            EventKind::DnsDrifted,
            no_scope(),
            drifted_text(record, before),
            record_facts(record).push(text_fact("expected"@, record.value@)).push(
                text_fact("found"@, before),
            ),
        )
        &&& outcome.notices@[1].says(
            EventKind::DnsApplied,
            no_scope(),
            applied_text(record),
            applied_facts(record),
        )
    } else {
        outcome.notices@.len() == 1 && outcome.notices@[0].says(
            EventKind::DnsApplied,
            no_scope(),
            applied_text(record),
            applied_facts(record),
        )
    }
}

/// Record how applying a record went.
pub fn applied_record(
    record: &DnsRecordRecord,
    before: &str,
    result: &Result<AppliedRecord, String>,
    now: i64,
) -> (r: DnsOutcome)
    ensures
        match *result {
            Ok(applied) => is_applied(r, *record, before@, applied, now),
            Err(error) => is_failure(r, *record, error@, now),
        },
{
    let applied = match result {
        Ok(applied) => applied,
        Err(error) => {
            return failure(record, error, now);
        },
    };
    let mut notices: Vec<Notice> = Vec::new();
    if same(&record.state.status, "healthy") || record.provider_record_id.is_some() {
        let mut message = record.domain.clone();
        message.append(" ");
        message.append(&record.record_type);
        message.append(" drifted to ");
        message.append(before);
        message.append("; restored ");
        message.append(&record.value);
        notices.push(
            record_notice(record, EventKind::DnsDrifted, message).with(
                "expected",
                Datum::text(&record.value),
            ).with("found", Datum::text(before)),
        );
    }
    let mut message = record.domain.clone();
    message.append(" ");
    message.append(&record.record_type);
    message.append(" → ");
    message.append(&record.value);
    message.append(" at ");
    message.append(&record.provider);
    notices.push(
        record_notice(record, EventKind::DnsApplied, message).with(
            "value",
            Datum::text(&record.value),
        ).with("provider", Datum::text(&record.provider)),
    );
    let mut updated = record.clone();
    updated.state = Reconciliation {
        status: "healthy".to_owned(),
        desired: Some(record.value.clone()),
        actual: Some(applied.value.clone()),
        last_error: None,
        last_reconciled_at: Some(now),
    };
    if applied.id.is_some() {
        updated.provider_record_id = copy_option(&applied.id);
    }
    DnsOutcome { record: updated, notices }
}

/// A record that was restored is found as wanted: checking it again, when
/// its provider answers with what it applied, changes nothing and reports
/// nothing.
pub proof fn law_restored_records_stay(
    record: DnsRecordRecord,
    outcome: DnsOutcome,
    before: Seq<char>,
    applied: AppliedRecord,
    now: i64,
    found: Seq<FoundRecord>,
    again: DnsOutcome,
    later: i64,
)
    requires
        applied.value@ == record.value@,
        is_applied(outcome, record, before, applied, now),
        found.len() == 1,
        found[0].value@ == applied.value@,
        found[0].ttl == record.ttl,
        is_correct(outcome.record, found) ==> is_confirmed(again, outcome.record, later),
    ensures
        is_correct(outcome.record, found),
        again.notices@.len() == 0,
        again.record.state.status@ == outcome.record.state.status@,
        opt_text(again.record.state.desired) == opt_text(outcome.record.state.desired),
        opt_text(again.record.state.actual) == opt_text(outcome.record.state.actual),
        opt_text(again.record.state.last_error) == opt_text(outcome.record.state.last_error),
{
}

/// A record settles as healthy only if its provider has exactly one record,
/// with the wanted value and lifetime; whenever one was found that differs
/// in either, there are several, or there is none, the record is applied.
/// What is recorded as actual is what was found.
pub proof fn law_only_wanted_records_settle(
    step: DnsStep,
    record: DnsRecordRecord,
    lookup: Lookup,
    now: i64,
)
    requires
        is_step(step, record, lookup, now),
    ensures
        step matches DnsStep::Settled(outcome) ==> outcome.record.state.status@ == "healthy"@ ==> {
            &&& lookup matches Lookup::Found(found)
            &&& found@.len() == 1
            &&& found@[0].value@ == record.value@
            &&& found@[0].ttl == record.ttl
            &&& opt_text(outcome.record.state.actual) == Some(found@[0].value@)
            &&& outcome.record.state.last_error is None
        },
        lookup matches Lookup::Found(found) ==> {
            &&& step is Apply <==> (found@.len() != 1 || found@[0].value@ != record.value@
                || found@[0].ttl != record.ttl)
            &&& forall|j: int|
                0 <= j < found@.len() && (#[trigger] found@[j]).value@ != record.value@
                    ==> step is Apply
        },
        !(lookup is Found) ==> step is Settled,
{
    reveal_strlit("healthy");
    reveal_strlit("failed");
    assert("healthy"@.len() != "failed"@.len());
}

/// A provider that cannot be asked, or does not answer, leaves the record
/// failed with what is wrong, and applies nothing; the failure is reported
/// when it begins and not again while it lasts.
pub proof fn law_unanswered_lookups_fail(
    step: DnsStep,
    record: DnsRecordRecord,
    lookup: Lookup,
    now: i64,
)
    requires
        is_step(step, record, lookup, now),
        !(lookup is Found),
    ensures
        step matches DnsStep::Settled(outcome) && {
            &&& outcome.record.state.status@ == "failed"@
            &&& outcome.record.state.actual is None
            &&& outcome.record.state.last_error is Some
            &&& lookup matches Lookup::Failed(error) ==> opt_text(outcome.record.state.last_error)
                == Some(error@)
            &&& outcome.record.value@ == record.value@
            &&& outcome.record.provider_record_id == record.provider_record_id
            &&& outcome.notices@.len() == (if record.state.status@ == "failed"@ {
                0nat
            } else {
                1nat
            })
        },
{
}

/// Applying a record keeps what is wanted of it, records what its provider
/// made of it, and is reported; a provider that assigned it an identifier is
/// remembered by it. A failed attempt leaves it failed.
pub proof fn law_applied_records_are_as_applied(
    outcome: DnsOutcome,
    record: DnsRecordRecord,
    before: Seq<char>,
    applied: AppliedRecord,
    now: i64,
)
    requires
        is_applied(outcome, record, before, applied, now),
    ensures
        outcome.record.value@ == record.value@,
        outcome.record.ttl == record.ttl,
        outcome.record.state.status@ == "healthy"@,
        opt_text(outcome.record.state.desired) == Some(record.value@),
        opt_text(outcome.record.state.actual) == Some(applied.value@),
        outcome.record.state.last_error is None,
        outcome.record.state.last_reconciled_at == Some(now),
        applied.id matches Some(id) ==> opt_text(outcome.record.provider_record_id) == Some(id@),
        applied.id is None ==> outcome.record.provider_record_id == record.provider_record_id,
        record.provider_record_id is Some || record.state.status@ == "healthy"@
            ==> outcome.notices@.len() == 2,
        record.provider_record_id is None && record.state.status@ != "healthy"@
            ==> outcome.notices@.len() == 1,
{
}

/// A record is due at its interval when it is healthy, five seconds after
/// its last check when it is not, at once when it was never checked or
/// everything is to be checked now, and not otherwise.
pub proof fn law_unhealthy_records_are_checked_soon(
    status: Seq<char>,
    forced: bool,
    since_check_ns: Option<u64>,
    interval_ms: u64,
)
    ensures
        forced || since_check_ns is None ==> is_due(status, forced, since_check_ns, interval_ms),
        !forced && status != "healthy"@ ==> (since_check_ns matches Some(gone) ==> is_due(
            status,
            forced,
            since_check_ns,
            interval_ms,
        ) == (gone >= 5_000_000_000)),
        !forced && status == "healthy"@ ==> (since_check_ns matches Some(gone) ==> is_due(
            status,
            forced,
            since_check_ns,
            interval_ms,
        ) == (gone >= interval_ms * 1_000_000)),
{
}

/// Checking a DNS record changes nothing of what it is about, and says what
/// is wanted of it and when it was checked.
pub proof fn law_checking_keeps_what_a_record_is_about(
    outcome: DnsOutcome,
    record: DnsRecordRecord,
    status: Seq<char>,
    actual: Option<Seq<char>>,
    last_error: Option<Seq<char>>,
    now: i64,
)
    requires
        has_state(outcome, record, status, actual, last_error, now),
    ensures
        outcome.record.domain == record.domain,
        outcome.record.provider == record.provider,
        outcome.record.zone == record.zone,
        outcome.record.name == record.name,
        outcome.record.record_type == record.record_type,
        outcome.record.value == record.value,
        outcome.record.ttl == record.ttl,
        outcome.record.state.status@ == status,
        opt_text(outcome.record.state.desired) == Some(record.value@),
        opt_text(outcome.record.state.actual) == actual,
        opt_text(outcome.record.state.last_error) == last_error,
        outcome.record.state.last_reconciled_at == Some(now),
{
}

/// A DNS failure keeps what is known of the record, says its reason, and is
/// reported once: not again while it lasts.
pub proof fn law_failures_are_reported_once(
    outcome: DnsOutcome,
    record: DnsRecordRecord,
    error: Seq<char>,
    now: i64,
)
    requires
        is_failure(outcome, record, error, now),
    ensures
        outcome.record.state.status@ == "failed"@,
        opt_text(outcome.record.state.last_error) == Some(error),
        outcome.record.state.actual is None,
        outcome.record.provider_record_id == record.provider_record_id,
        record.state.status@ == "failed"@ ==> outcome.notices@.len() == 0,
        record.state.status@ != "failed"@ ==> outcome.notices@.len() == 1
            && outcome.notices@[0].kind == EventKind::DnsFailed,
{
}

} // verus!
