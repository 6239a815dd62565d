//! Instants: Unix seconds, and the text they are shown as.
use vstd::prelude::*;

verus! {

/// The first second of the year -9999, the earliest that a date is known for.
pub const EARLIEST: i64 = -377_705_116_800;

/// The last second of the year 9999, the latest that a date is known for.
pub const LATEST: i64 = 253_402_300_799;

/// The first second of the year 0, the earliest that RFC 3339 can write.
pub const YEAR_ZERO: i64 = -62_167_219_200;

/// A Unix timestamp in RFC 3339, in UTC.
pub uninterp spec fn rfc3339_of(seconds: i64) -> Seq<char>;

/// `time::OffsetDateTime::from_unix_timestamp` finds a date for exactly the seconds of the years
/// -9999 to 9999.
#[verifier::external_body]
fn has_date(seconds: i64) -> (r: bool)
    ensures
        r == (EARLIEST <= seconds <= LATEST),
{
    time::OffsetDateTime::from_unix_timestamp(seconds).is_ok()
}

/// `time::OffsetDateTime::format` with `Rfc3339`, of the date of a Unix timestamp. The text is a
/// function of the timestamp; there is none exactly where the year is negative.
#[verifier::external_body]
fn format_rfc3339(seconds: i64) -> (r: Option<String>)
    requires
        EARLIEST <= seconds <= LATEST,
    ensures
        r is Some <==> seconds >= YEAR_ZERO,
        r is Some ==> (r->0)@ == rfc3339_of(seconds),
{
    time::OffsetDateTime::from_unix_timestamp(seconds)
        .ok()?
        .format(&time::format_description::well_known::Rfc3339)
        .ok()
}

/// The clock's Unix time, through `time::OffsetDateTime::now_utc` and `unix_timestamp`. What it
/// reads is the machine's; the date is one that the `time` crate can hold.
#[verifier::external_body]
pub fn now() -> (r: i64)
    ensures
        EARLIEST <= r <= LATEST,
{
    time::OffsetDateTime::now_utc().unix_timestamp()
}

/// What a Unix timestamp is shown as: seconds without a date as the epoch, and a date before the
/// year 0 as nothing.
pub open spec fn shown(seconds: i64) -> Seq<char> {
    if seconds < EARLIEST || seconds > LATEST {
        rfc3339_of(0)
    } else if seconds < YEAR_ZERO {
        Seq::empty()
    } else {
        rfc3339_of(seconds)
    }
}

/// A Unix timestamp in RFC 3339.
pub fn rfc3339(seconds: i64) -> (r: String)
    ensures
        r@ == shown(seconds),
{
    let dated: i64 = if has_date(seconds) {
        seconds
    } else {
        0
    };
    match format_rfc3339(dated) {
        Some(text) => text,
        None => String::new(),
    }
}

} // verus!
