//! Operator credentials and the audit trail.

use vstd::prelude::*;

use crate::error::{EnvironmentError, Refusal};
use crate::events::{fact, no_scope, text_fact, Datum, DatumText, EventKind, Notice, Scope};
use crate::status::SecurityMode;
use crate::text::{copy_list, copy_option, join, join_path, joined, opt_text, path_text, texts};

verus! {

/// The local audit log rolls over at this size.
pub const AUDIT_LOG_BYTES: u64 = 67_108_864;

/// Failed authentication is recorded as an event at most this often per
/// minute, so anonymous traffic cannot flood durable state.
pub const AUTH_EVENTS_PER_MINUTE: u32 = 60;

/// What an operator's credential may be asked for with.
#[derive(Debug, PartialEq, Eq)]
pub struct CredentialRequest {
    pub operator_id: String,
    pub scopes: Vec<String>,
    pub description: Option<String>,
    pub expires_in_seconds: Option<u64>,
}

/// A stored credential. Its token is never stored.
#[derive(Debug, PartialEq, Eq)]
pub struct OperatorCredentialRecord {
    pub credential_id: String,
    pub operator_id: String,
    pub scopes: Vec<String>,
    pub description: Option<String>,
    pub created_at: i64,
    pub expires_at: Option<i64>,
    pub revoked_at: Option<i64>,
}

// ---- The first credential ---------------------------------------------------

/// Whether a node issues its first credential itself: in production, when no
/// administrator's is active.
pub fn must_bootstrap(mode: SecurityMode, has_active_admin: bool) -> (r: bool)
    ensures
        r == (mode == SecurityMode::Production && !has_active_admin),
{
    mode == SecurityMode::Production && !has_active_admin
}

/// The first credential a node issues. `admin` is the administrator's scope.
pub fn bootstrap_request(admin: &str) -> (r: CredentialRequest)
    ensures
        r.operator_id@ == "bootstrap-admin"@,
        texts(r.scopes@) == seq![admin@],
        opt_text(r.description) == Some("issued at first production start; revoke after use"@),
        r.expires_in_seconds is None,
{
    let mut scopes: Vec<String> = Vec::new();
    scopes.push(admin.to_owned());
    proof {
        assert(texts(scopes@) =~= seq![admin@]);
    }
    CredentialRequest {
        operator_id: "bootstrap-admin".to_owned(),
        scopes,
        description: Some("issued at first production start; revoke after use".to_owned()),
        expires_in_seconds: None,
    }
}

/// Where the first credential's token is left.
pub fn bootstrap_path(state_dir: &str) -> (r: String)
    ensures
        r@ == path_text(state_dir@, "bootstrap-admin.token"@),
{
    join_path(state_dir, "bootstrap-admin.token")
}

pub fn bootstrapped(credential_id: &str, path: &str) -> (r: Notice)
    ensures
        r.says(
            EventKind::CredentialBootstrapped,
            no_scope(),
            "issued bootstrap admin credential "@ + credential_id@ + "; its token is in "@ + path@,
            seq![text_fact("credential_id"@, credential_id@)],
        ),
{
    let mut message = "issued bootstrap admin credential ".to_owned();
    message.append(credential_id);
    message.append("; its token is in ");
    message.append(path);
    Notice::new(EventKind::CredentialBootstrapped, Scope::default(), message).with(
        "credential_id",
        Datum::text(credential_id),
    )
}

// ---- Credentials ------------------------------------------------------------

pub fn created(record: &OperatorCredentialRecord) -> (r: Notice)
    ensures
        r.says(
            EventKind::CredentialCreated,
            no_scope(),
            "credential "@ + record.credential_id@ + " created for "@ + record.operator_id@ + " ("@
                + joined(texts(record.scopes@), ", "@) + ")"@,
            seq![
                text_fact("credential_id"@, record.credential_id@),
                text_fact("operator"@, record.operator_id@),
                fact("scopes"@, DatumText::Texts(texts(record.scopes@))),
            ],
        ),
{
    let mut message = "credential ".to_owned();
    message.append(&record.credential_id);
    message.append(" created for ");
    message.append(&record.operator_id);
    message.append(" (");
    message.append(&join(&record.scopes, ", "));
    message.append(")");
    Notice::new(EventKind::CredentialCreated, Scope::default(), message).with(
        "credential_id",
        Datum::text(&record.credential_id),
    ).with("operator", Datum::text(&record.operator_id)).with(
        "scopes",
        Datum::Texts(copy_list(&record.scopes)),
    )
}

fn no_credential(credential_id: &str) -> (r: EnvironmentError)
    ensures
        r.reports(Refusal::NotFound("credential "@ + credential_id@)),
{
    let mut text = "credential ".to_owned();
    text.append(credential_id);
    EnvironmentError::NotFound(text)
}

/// What revoking a credential leads to.
#[derive(Debug)]
pub enum Revocation {
    /// It was revoked before; it stays as it is.
    Already(OperatorCredentialRecord),
    Revoked(OperatorCredentialRecord, Notice),
}

pub open spec fn revoked_text(credential_id: Seq<char>, operator: Seq<char>) -> Seq<char> {
    "credential "@ + credential_id + " of "@ + operator + " revoked"@
}

/// Revoke a credential. Revoking it again changes nothing.
pub fn revoke_credential(stored: Option<OperatorCredentialRecord>, credential_id: &str, now: i64) -> (r:
    Result<Revocation, EnvironmentError>)
    ensures
        match stored {
            None => r matches Err(error) && error.reports(
                Refusal::NotFound("credential "@ + credential_id@),
            ),
            Some(record) => if record.revoked_at is Some {
                r == Ok::<Revocation, EnvironmentError>(Revocation::Already(record))
            } else {
                &&& r matches Ok(Revocation::Revoked(after, notice))
                &&& after == (OperatorCredentialRecord { revoked_at: Some(now), ..record })
                &&& notice.says(
                    EventKind::CredentialRevoked,
                    no_scope(),
                    revoked_text(credential_id@, record.operator_id@),
                    seq![
                        text_fact("credential_id"@, credential_id@),
                        text_fact("operator"@, record.operator_id@),
                    ],
                )
            },
        },
{
    match stored {
        None => Err(no_credential(credential_id)),
        Some(record) => {
            if record.revoked_at.is_some() {
                return Ok(Revocation::Already(record));
            }
            let mut message = "credential ".to_owned();
            message.append(credential_id);
            message.append(" of ");
            message.append(&record.operator_id);
            message.append(" revoked");
            let notice = Notice::new(EventKind::CredentialRevoked, Scope::default(), message).with(
                "credential_id",
                Datum::text(credential_id),
            ).with("operator", Datum::text(&record.operator_id));
            let mut record = record;
            record.revoked_at = Some(now);
            Ok(Revocation::Revoked(record, notice))
        },
    }
}

/// How long a credential was made to last, in whole seconds, and at least
/// one.
pub open spec fn lifetime(created_at: i64, expires_at: i64) -> int {
    if expires_at - created_at >= 1_000_000_000 {
        (expires_at - created_at) / 1_000_000_000
    } else {
        1
    }
}

/// What a credential's replacement is asked for with: the same operator,
/// scopes, description and lifetime. A revoked credential is not replaced.
pub fn rotation_request(stored: Option<&OperatorCredentialRecord>, credential_id: &str) -> (r: Result<
    CredentialRequest,
    EnvironmentError,
>)
    ensures
        match stored {
            None => r matches Err(error) && error.reports(
                Refusal::NotFound("credential "@ + credential_id@),
            ),
            Some(record) => if record.revoked_at is Some {
                r matches Err(error) && error.reports(
                    Refusal::Conflict(
                        "credential "@ + credential_id@ + " is revoked; create a new one"@,
                    ),
                )
            } else {
                &&& r matches Ok(request)
                &&& request.operator_id == record.operator_id
                &&& request.scopes@ == record.scopes@
                &&& request.description == record.description
                &&& match record.expires_at {
                    Some(at) => request.expires_in_seconds matches Some(seconds) && seconds
                        == lifetime(record.created_at, at),
                    None => request.expires_in_seconds is None,
                }
            },
        },
{
    let record = match stored {
        Some(record) => record,
        None => {
            return Err(no_credential(credential_id));
        },
    };
    if record.revoked_at.is_some() {
        let mut text = "credential ".to_owned();
        text.append(credential_id);
        text.append(" is revoked; create a new one");
        return Err(EnvironmentError::Conflict(text));
    }
    let expires_in_seconds: Option<u64> = match record.expires_at {
        Some(at) => {
            let span: i128 = at as i128 - record.created_at as i128;
            if span >= 1_000_000_000 {
                Some((span / 1_000_000_000) as u64)
            } else {
                Some(1)
            }
        },
        None => None,
    };
    Ok(
        CredentialRequest {
            operator_id: record.operator_id.clone(),
            scopes: copy_list(&record.scopes),
            description: copy_option(&record.description),
            expires_in_seconds,
        },
    )
}

/// When a replaced credential stops working: so many seconds from now.
pub open spec fn retired_at(now: i64, grace_seconds: u64) -> int {
    now + grace_seconds * 1_000_000_000
}

/// Retire a credential in favour of its replacement, now or after a grace
/// period.
pub fn rotate_credential(
    stored: OperatorCredentialRecord,
    replacement: &OperatorCredentialRecord,
    credential_id: &str,
    grace_seconds: u64,
    now: i64,
) -> (r: (OperatorCredentialRecord, Notice))
    requires
        retired_at(now, grace_seconds) <= i64::MAX,
    ensures
        r.0 == (OperatorCredentialRecord {
            revoked_at: Some(retired_at(now, grace_seconds) as i64),
            ..stored
        }),
        r.1.says(
            EventKind::CredentialRotated,
            no_scope(),
            "credential "@ + credential_id@ + " of "@ + replacement.operator_id@ + " rotated to "@
                + replacement.credential_id@,
            seq![
                text_fact("credential_id"@, replacement.credential_id@),
                text_fact("rotated_from"@, credential_id@),
                fact("grace_seconds"@, DatumText::Number(grace_seconds as int)),
            ],
        ),
{
    let mut message = "credential ".to_owned();
    message.append(credential_id);
    message.append(" of ");
    message.append(&replacement.operator_id);
    message.append(" rotated to ");
    message.append(&replacement.credential_id);
    let at: i128 = now as i128 + grace_seconds as i128 * 1_000_000_000;
    let mut stored = stored;
    stored.revoked_at = Some(at as i64);
    let notice = Notice::new(EventKind::CredentialRotated, Scope::default(), message).with(
        "credential_id",
        Datum::text(&replacement.credential_id),
    ).with("rotated_from", Datum::text(credential_id)).with(
        "grace_seconds",
        Datum::Number(grace_seconds),
    );
    (stored, notice)
}

// ---- Refusals ---------------------------------------------------------------

/// Refused requests recorded as events in one minute.
#[derive(Debug, Clone, Copy, PartialEq, Eq, Structural)]
pub struct RefusalCount {
    pub minute: i64,
    pub count: u32,
}

/// The minute a moment falls in, counted from the Unix epoch; minutes before
/// it are counted towards it.
pub open spec fn minute_of(now: i64) -> int {
    let seconds = now as int / 1_000_000_000;
    if seconds >= 0 {
        seconds / 60
    } else {
        -((-seconds) / 60)
    }
}

/// The refused requests in the minute of a moment, with the one at it.
pub open spec fn next_count(before: RefusalCount, now: i64) -> int {
    if before.minute == minute_of(now) {
        before.count + 1
    } else {
        1
    }
}

impl RefusalCount {
    /// Count a refused request. Whether it is still recorded as an event.
    pub fn refused(&mut self, now: i64) -> (r: bool)
        requires
            old(self).minute == minute_of(now) ==> old(self).count < u32::MAX,
        ensures
            final(self).minute == minute_of(now),
            final(self).count == next_count(*old(self), now),
            r == (final(self).count <= AUTH_EVENTS_PER_MINUTE),
            r <==> final(self).count <= 60,
    {
        let minute = find_minute(now);
        if self.minute != minute {
            self.minute = minute;
            self.count = 0;
        }
        self.count = self.count + 1;
        self.count <= AUTH_EVENTS_PER_MINUTE
    }
}

fn find_minute(now: i64) -> (r: i64)
    ensures
        r == minute_of(now),
{
    if now >= 0 {
        let moment: u64 = now as u64;
        (moment / 1_000_000_000 / 60) as i64
    } else {
        let before: u64 = (-(now as i128)) as u64;
        let seconds: u64 = if before % 1_000_000_000 == 0 {
            before / 1_000_000_000
        } else {
            before / 1_000_000_000 + 1
        };
        -((seconds / 60) as i64)
    }
}

// ---- The audit trail --------------------------------------------------------

/// How writing a record to control state went.
#[derive(Debug, Clone, Copy, PartialEq, Eq, Structural)]
pub enum Write {
    Written,
    /// The record is there already.
    Present,
    Failed,
}

/// The records whose write failed, among the first `n`.
pub open spec fn unwritten<R>(records: Seq<R>, writes: Seq<Write>, n: nat) -> Seq<R>
    decreases n,
{
    if n == 0 {
        Seq::empty()
    } else {
        let before = unwritten(records, writes, (n - 1) as nat);
        if writes[n - 1] == Write::Failed {
            before.push(records[n - 1])
        } else {
            before
        }
    }
}

/// The records still to be written once some were tried: those that failed,
/// before the ones that came meanwhile.
pub fn pending_records<R>(tried: Vec<R>, writes: &Vec<Write>, newer: Vec<R>) -> (r: Vec<R>)
    requires
        writes@.len() == tried@.len(),
    ensures
        r@ == unwritten(tried@, writes@, tried@.len()) + newer@,
{
    let mut tried = tried;
    let mut kept: Vec<R> = Vec::new();
    let ghost all = tried@;
    let mut n: usize = tried.len();
    proof {
        assert(all.take(n as int) =~= all);
        assert(kept@.reverse() =~= Seq::<R>::empty());
        assert(unwritten(all, writes@, n as nat) =~= unwritten(all, writes@, n as nat) + kept@.reverse());
    }
    while n > 0
        invariant
            n <= all.len(),
            writes@.len() == all.len(),
            tried@ == all.take(n as int),
            unwritten(all, writes@, all.len()) == unwritten(all, writes@, n as nat) + kept@.reverse(),
        decreases n,
    {
        if let Some(record) = tried.pop() {
            proof {
                assert(tried@ =~= all.take(n - 1));
            }
            if writes[n - 1] == Write::Failed {
                let ghost before = kept@;
                kept.push(record);
                proof {
                    assert(unwritten(all, writes@, (n - 1) as nat) + kept@.reverse() =~= unwritten(
                        all,
                        writes@,
                        n as nat,
                    ) + before.reverse());
                }
            }
        }
        n -= 1;
    }
    let mut r: Vec<R> = Vec::new();
    let ghost failed = kept@.reverse();
    proof {
        assert(unwritten(all, writes@, 0) + failed =~= failed);
        assert(r@ + kept@.reverse() =~= failed);
    }
    while kept.len() > 0
        invariant
            r@ + kept@.reverse() == failed,
        decreases kept@.len(),
    {
        let ghost before = (r@, kept@);
        if let Some(record) = kept.pop() {
            r.push(record);
            proof {
                assert(before.1.reverse() =~= seq![record] + kept@.reverse());
                assert(r@ + kept@.reverse() =~= before.0 + before.1.reverse());
            }
        }
    }
    proof {
        assert(r@ =~= failed);
    }
    let mut newer = newer;
    r.append(&mut newer);
    r
}

/// Where a node keeps its audit log.
pub fn audit_log_path(state_dir: &str) -> (r: String)
    ensures
        r@ == path_text(state_dir@, "audit.log"@),
{
    join_path(state_dir, "audit.log")
}

/// Whether the audit log is set aside before a record is added: its size is
/// known and over the limit.
pub fn rolls_over(size: Option<u64>) -> (r: bool)
    ensures
        r == (size matches Some(bytes) && bytes > AUDIT_LOG_BYTES),
        r <==> (size matches Some(bytes) && bytes > 67_108_864),
{
    match size {
        Some(bytes) => bytes > AUDIT_LOG_BYTES,
        None => false,
    }
}

// ---- Laws -------------------------------------------------------------------

/// Whether each count follows the one before it, as a request is refused at
/// each moment.
pub open spec fn counts_follow(counts: Seq<RefusalCount>, moments: Seq<i64>) -> bool {
    &&& counts.len() == moments.len() + 1
    &&& forall|i: int|
        0 <= i < moments.len() ==> counts[i + 1].minute == minute_of(#[trigger] moments[i])
            && counts[i + 1].count == next_count(counts[i], moments[i])
}

/// How many of the first `n` refused requests are recorded as events.
pub open spec fn recorded_upto(counts: Seq<RefusalCount>, n: nat) -> nat
    decreases n,
{
    if n == 0 {
        0
    } else {
        recorded_upto(counts, (n - 1) as nat) + (if counts[n as int].count
            <= AUTH_EVENTS_PER_MINUTE {
            1nat
        } else {
            0nat
        })
    }
}

/// However many requests are refused in one minute, only so many are recorded
/// as events.
pub proof fn law_recorded_refusals_are_bounded(
    counts: Seq<RefusalCount>,
    moments: Seq<i64>,
    n: nat,
)
    requires
        counts_follow(counts, moments),
        n <= moments.len(),
        forall|i: int, j: int|
            0 <= i < j < moments.len() ==> minute_of(#[trigger] moments[i]) == minute_of(
                #[trigger] moments[j],
            ),
    ensures
        recorded_upto(counts, n) <= AUTH_EVENTS_PER_MINUTE,
{
    lemma_counts_grow(counts, moments, n);
}

proof fn lemma_counts_grow(counts: Seq<RefusalCount>, moments: Seq<i64>, n: nat)
    requires
        counts_follow(counts, moments),
        n <= moments.len(),
        forall|i: int, j: int|
            0 <= i < j < moments.len() ==> minute_of(#[trigger] moments[i]) == minute_of(
                #[trigger] moments[j],
            ),
    ensures
        recorded_upto(counts, n) <= n,
        counts[n as int].count >= n,
        recorded_upto(counts, n) <= AUTH_EVENTS_PER_MINUTE,
    decreases n,
{
    if n > 0 {
        lemma_counts_grow(counts, moments, (n - 1) as nat);
        let last = n - 1;
        assert(counts[last + 1].count == next_count(counts[last], moments[last]));
        if n > 1 {
            assert(counts[(last - 1) + 1].minute == minute_of(moments[last - 1]));
            assert(minute_of(moments[last - 1]) == minute_of(moments[last]));
        }
    }
}

/// A record whose write failed is still to be written, whatever came
/// meanwhile.
pub proof fn law_audit_records_are_never_lost<R>(
    tried: Seq<R>,
    writes: Seq<Write>,
    newer: Seq<R>,
    n: nat,
    i: int,
)
    requires
        writes.len() == tried.len(),
        n <= tried.len(),
        0 <= i < n,
        writes[i] == Write::Failed,
    ensures
        (unwritten(tried, writes, n) + newer).contains(tried[i]),
    decreases n,
{
    let kept = unwritten(tried, writes, n);
    if i == n - 1 {
        assert((kept + newer)[kept.len() - 1] == tried[i]);
    } else {
        law_audit_records_are_never_lost(tried, writes, newer, (n - 1) as nat, i);
        let before = unwritten(tried, writes, (n - 1) as nat);
        let k = choose|k: int|
            0 <= k < (before + newer).len() && (before + newer)[k] == tried[i];
        if k < before.len() {
            assert((kept + newer)[k] == tried[i]);
        } else {
            assert((kept + newer)[k + (kept.len() - before.len())] == tried[i]);
        }
    }
}

/// A credential's replacement lasts as long as the credential was made to
/// last, in whole seconds, and never less than one.
pub proof fn law_replacements_last_as_long(created_at: i64, seconds: u32)
    requires
        created_at + seconds * 1_000_000_000 <= i64::MAX,
    ensures
        seconds >= 1 ==> lifetime(
            created_at,
            (created_at + seconds * 1_000_000_000) as i64,
        ) == seconds,
        forall|expires_at: i64| #[trigger] lifetime(created_at, expires_at) >= 1,
{
    assert forall|expires_at: i64| #[trigger] lifetime(created_at, expires_at) >= 1 by {
        let span = expires_at - created_at;
        if span >= 1_000_000_000 {
            assert(span / 1_000_000_000 >= 1) by (nonlinear_arith)
                requires
                    span >= 1_000_000_000,
            ;
        }
    }
    assert((seconds * 1_000_000_000) / 1_000_000_000 == seconds);
}

/// A replaced credential works for exactly its grace period.
pub proof fn law_grace_periods_are_kept(now: i64, grace_seconds: u64)
    ensures
        retired_at(now, 0) == now,
        retired_at(now, grace_seconds) - now == grace_seconds * 1_000_000_000,
{
}

/// Refusals are counted by the minute: one in the same minute counts one
/// more, and the first of another minute counts one.
pub proof fn law_refusals_are_counted_by_the_minute(before: RefusalCount, now: i64)
    requires
        now >= 0,
    ensures
        minute_of(now) * 60_000_000_000 <= now,
        now < (minute_of(now) + 1) * 60_000_000_000,
        before.minute == minute_of(now) ==> next_count(before, now) == before.count + 1,
        before.minute != minute_of(now) ==> next_count(before, now) == 1,
{
    let seconds = now as int / 1_000_000_000;
    assert(seconds * 1_000_000_000 <= now < (seconds + 1) * 1_000_000_000);
    let minute = seconds / 60;
    assert(minute * 60 <= seconds < (minute + 1) * 60);
}

/// Only what failed to be written is tried again: what was written, or was
/// there already, is not.
pub proof fn law_written_records_are_not_tried_again<R>(
    tried: Seq<R>,
    writes: Seq<Write>,
    n: nat,
    k: int,
)
    requires
        writes.len() == tried.len(),
        n <= tried.len(),
        0 <= k < unwritten(tried, writes, n).len(),
    ensures
        exists|i: int|
            0 <= i < n && (#[trigger] writes[i]) == Write::Failed && tried[i] == unwritten(
                tried,
                writes,
                n,
            )[k],
    decreases n,
{
    let before = unwritten(tried, writes, (n - 1) as nat);
    let after = unwritten(tried, writes, n);
    if k < before.len() {
        law_written_records_are_not_tried_again(tried, writes, (n - 1) as nat, k);
        let i = choose|i: int|
            0 <= i < n - 1 && (#[trigger] writes[i]) == Write::Failed && tried[i] == before[k];
        assert(writes[i] == Write::Failed && tried[i] == after[k]);
    } else {
        assert(writes[n - 1] == Write::Failed && tried[n - 1] == after[k]);
    }
}

/// However many requests are refused in one minute, at most sixty are
/// recorded as events.
pub proof fn law_at_most_sixty_refusals_a_minute_are_recorded(
    counts: Seq<RefusalCount>,
    moments: Seq<i64>,
)
    requires
        counts_follow(counts, moments),
        forall|i: int, j: int|
            0 <= i < j < moments.len() ==> minute_of(#[trigger] moments[i]) == minute_of(
                #[trigger] moments[j],
            ),
    ensures
        recorded_upto(counts, moments.len()) <= 60,
{
    law_recorded_refusals_are_bounded(counts, moments, moments.len());
}

} // verus!
