//! Time and fresh identifiers, as the outside world hands them in.
//!
//! Timestamps are RFC 3339 texts. What the clock or the random generator
//! returns is not pinned down by any contract: the functions that use such a
//! value take it as an argument.

use vstd::prelude::*;

verus! {

/// The time between two RFC 3339 timestamps, `later` minus `earlier`: whole
/// seconds and the remaining nanoseconds, both with the sign of the difference.
/// `None` where one of the texts is no RFC 3339 timestamp.
pub uninterp spec fn elapsed_between(later: Seq<char>, earlier: Seq<char>) -> Option<(i64, i32)>;

/// `chrono::Utc::now` printed by `DateTime::to_rfc3339`: the current time.
/// `chrono` gives up where the system clock stands before 1970.
#[verifier::external_body]
pub(crate) fn now_rfc3339() -> String {
    chrono::Utc::now().to_rfc3339()
}

/// `chrono::Utc::now` printed by `DateTime::format` as date, blank, time of day:
/// the current time to the second.
#[verifier::external_body]
pub(crate) fn now_date_time() -> String {
    chrono::Utc::now().format("%Y-%m-%d %H:%M:%S").to_string()
}

/// `chrono::Utc::now`, moved back by `TimeDelta::try_days(days)` with
/// `DateTime::checked_sub_signed` and printed by `DateTime::to_rfc3339`.
/// `None` where `chrono` cannot represent the span or the result.
#[verifier::external_body]
pub(crate) fn rfc3339_days_ago(days: i64) -> Option<String> {
    let span = chrono::TimeDelta::try_days(days)?;
    let then = chrono::Utc::now().checked_sub_signed(span)?;
    Some(then.to_rfc3339())
}

/// `DateTime::parse_from_rfc3339` on both texts, `DateTime::signed_duration_since`
/// between them, read with `TimeDelta::num_seconds` and `TimeDelta::subsec_nanos`.
/// The answer depends on the two texts alone.
#[verifier::external_body]
pub(crate) fn rfc3339_elapsed(later: &str, earlier: &str) -> (r: Option<(i64, i32)>)
    ensures
        r == elapsed_between(later@, earlier@),
{
    let a = chrono::DateTime::parse_from_rfc3339(later).ok()?;
    let b = chrono::DateTime::parse_from_rfc3339(earlier).ok()?;
    let span = a.signed_duration_since(b);
    Some((span.num_seconds(), span.subsec_nanos()))
}

/// `uuid::Uuid::new_v4` in its hyphenated form: a random identifier.
#[verifier::external_body]
pub(crate) fn fresh_id() -> String {
    uuid::Uuid::new_v4().to_string()
}

/// The nanoseconds in a span of whole seconds and remaining nanoseconds.
pub open spec fn span_nanos(span: (i64, i32)) -> int {
    span.0 * 1_000_000_000 + span.1
}

/// The nanoseconds from `earlier` to `later`, where both are timestamps.
pub open spec fn nanos_between(later: Seq<char>, earlier: Seq<char>) -> Option<int> {
    match elapsed_between(later, earlier) {
        Some(span) => Some(span_nanos(span)),
        None => None,
    }
}

/// The nanoseconds from `earlier` to `later`; `None` where one of them is no
/// RFC 3339 timestamp.
pub fn elapsed_nanos(later: &str, earlier: &str) -> (r: Option<i128>)
    ensures
        r is Some == nanos_between(later@, earlier@) is Some,
        r matches Some(n) ==> nanos_between(later@, earlier@) == Some(n as int),
{
    match rfc3339_elapsed(later, earlier) {
        Some((secs, nanos)) => {
            let wide: i128 = secs as i128;
            assert(-9_223_372_036_854_775_808 <= wide <= 9_223_372_036_854_775_807);
            assert(wide * 1_000_000_000 <= 9_223_372_036_854_775_807 * 1_000_000_000
                && wide * 1_000_000_000 >= -9_223_372_036_854_775_808 * 1_000_000_000)
                by (nonlinear_arith)
                requires
                    -9_223_372_036_854_775_808 <= wide <= 9_223_372_036_854_775_807,
            ;
            Some(wide * 1_000_000_000 + nanos as i128)
        },
        None => None,
    }
}

} // verus!
