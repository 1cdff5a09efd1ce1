//! Timestamps: reading the clock and rendering a moment in RFC 3339 form.
//! The clock and the calendar arithmetic come from the chrono crate; all the
//! logic around them works on plain millisecond values.
use vstd::prelude::*;
use crate::model::{Timestamp, MAX_TIMESTAMP_MILLIS};

verus! {

/// The RFC 3339 (ISO-8601) text of a moment given in milliseconds since the
/// Unix epoch, as the chrono crate renders it.
pub uninterp spec fn rfc3339_of(millis: int) -> Seq<char>;

/// Relies on chrono's `DateTime::<Utc>::from_timestamp_millis` and
/// `DateTime::to_rfc3339`: a well-formed timestamp lies far inside chrono's
/// representable range, so the conversion succeeds, and the rendered text
/// depends on the timestamp value alone.
#[verifier::external_body]
pub(crate) fn format_rfc3339(t: Timestamp) -> (r: String)
    requires
        t.wf(),
    ensures
        r@ == rfc3339_of(t.millis as int),
{
    chrono::DateTime::<chrono::Utc>::from_timestamp_millis(t.millis).unwrap().to_rfc3339()
}

/// Relies on chrono's `Utc::now`: the clock's current reading in milliseconds
/// since the Unix epoch. Nothing can be promised of a clock reading, and
/// chrono itself aborts on a system clock set before the epoch.
#[verifier::external_body]
fn utc_now_millis() -> (r: i64) {
    chrono::Utc::now().timestamp_millis()
}

/// The timestamp for a raw clock reading, clamped into the well-formed range.
pub fn timestamp_from_millis(m: i64) -> (t: Timestamp)
    ensures
        t.wf(),
        t.millis == if m < 0 {
            0i64
        } else if m > MAX_TIMESTAMP_MILLIS {
            MAX_TIMESTAMP_MILLIS
        } else {
            m
        },
{
    if m < 0 {
        Timestamp { millis: 0 }
    } else if m > MAX_TIMESTAMP_MILLIS {
        Timestamp { millis: MAX_TIMESTAMP_MILLIS }
    } else {
        Timestamp { millis: m }
    }
}

/// The current moment as a well-formed timestamp.
pub fn current_timestamp() -> (t: Timestamp)
    ensures
        t.wf(),
{
    timestamp_from_millis(utc_now_millis())
}

} // verus!
