//! The time of day and fresh identifiers, which differ from call to call.
use vstd::prelude::*;

verus! {

/// `chrono::Utc::now`, as whole seconds since 1970. Of the time nothing is
/// known.
#[verifier::external_body]
pub(crate) fn now_secs() -> (r: i64) {
    chrono::Utc::now().timestamp()
}

/// The times that `chrono` can hold lie between these microseconds before and
/// behind 1970.
pub const MICROS_BOUND: i64 = 8_400_000_000_000_000_000;

/// `chrono::Utc::now`, as microseconds since 1970. Of the time nothing is
/// known but that `chrono` can hold it: its years end with 262142.
#[verifier::external_body]
pub(crate) fn now_micros() -> (r: i64)
    ensures
        -MICROS_BOUND <= r <= MICROS_BOUND,
{
    chrono::Utc::now().timestamp_micros()
}

/// A day as year, month and day: digits and hyphens, with a sign before a year
/// of more than four digits or before year 0.
pub open spec fn day_text(s: Seq<char>) -> bool {
    &&& s.len() >= 10
    &&& forall|i: int|
        0 <= i < s.len() ==> '0' <= #[trigger] s[i] <= '9' || s[i] == '-' || s[i] == '+'
}

/// The day of `chrono::Utc::now`, in the format `%Y-%m-%d`. Of the time nothing
/// is known, but the text is that of a day.
#[verifier::external_body]
pub(crate) fn today() -> (r: String)
    ensures
        day_text(r@),
{
    chrono::Utc::now().format("%Y-%m-%d").to_string()
}

/// `uuid::Uuid::new_v4` in its hyphenated form, which is 36 characters long.
/// It is drawn at random.
#[verifier::external_body]
pub(crate) fn fresh_uuid() -> (r: String)
    ensures
        r@.len() == 36,
{
    uuid::Uuid::new_v4().to_string()
}

} // verus!
