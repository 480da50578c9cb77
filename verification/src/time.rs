//! Times as people read them.

use vstd::prelude::*;

verus! {

/// A day, in a date's usual form.
pub const DAY: &'static str = "%Y-%m-%d";

/// A moment, as log directories are named.
pub const STAMP: &'static str = "%Y%m%dT%H%M%S%.3fZ";

/// A moment in UTC, as a pattern writes it.
pub uninterp spec fn time_text(at: i64, pattern: Seq<char>) -> Seq<char>;

/// `chrono::DateTime::format` of the moment so many nanoseconds after the
/// Unix epoch, in UTC: it depends on the moment and the pattern alone. Both
/// patterns are valid, so formatting succeeds.
#[verifier::external_body]
fn format_time(at: i64, pattern: &str) -> (r: String)
    requires
        pattern@ == DAY@ || pattern@ == STAMP@,
    ensures
        r@ == time_text(at, pattern@),
{
    chrono::DateTime::from_timestamp_nanos(at).format(pattern).to_string()
}

/// A moment in UTC, as it displays.
pub uninterp spec fn moment_text(at: i64) -> Seq<char>;

/// The `Display` of `chrono::DateTime<Utc>` at the moment so many
/// nanoseconds after the Unix epoch: it depends on the moment alone.
#[verifier::external_body]
fn display_time(at: i64) -> (r: String)
    ensures
        r@ == moment_text(at),
{
    chrono::DateTime::from_timestamp_nanos(at).to_string()
}

/// A moment, as messages say it.
pub fn moment_of(at: i64) -> (r: String)
    ensures
        r@ == moment_text(at),
{
    display_time(at)
}

/// A moment in UTC, as RFC 3339 writes it.
pub uninterp spec fn rfc3339_text(at: i64) -> Seq<char>;

/// `chrono::DateTime::to_rfc3339` of the moment so many nanoseconds after
/// the Unix epoch, in UTC: it depends on the moment alone.
#[verifier::external_body]
fn format_rfc3339(at: i64) -> (r: String)
    ensures
        r@ == rfc3339_text(at),
{
    chrono::DateTime::from_timestamp_nanos(at).to_rfc3339()
}

/// A moment, as RFC 3339 writes it.
pub fn moment_rfc3339(at: i64) -> (r: String)
    ensures
        r@ == rfc3339_text(at),
{
    format_rfc3339(at)
}

/// The day a moment falls on.
pub fn day_of(at: i64) -> (r: String)
    ensures
        r@ == time_text(at, DAY@),
{
    format_time(at, DAY)
}

/// A moment, as log directories are named.
pub fn stamp_of(at: i64) -> (r: String)
    ensures
        r@ == time_text(at, STAMP@),
{
    format_time(at, STAMP)
}

} // verus!
