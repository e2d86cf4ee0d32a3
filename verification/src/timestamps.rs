//! Unix timestamps as the console shows them.
use vstd::prelude::*;
use time::format_description::parse;
use time::OffsetDateTime;
use crate::text::{i64_decimal, signed_decimal, string_of};

verus! {

/// The text the `time` crate writes for the Unix timestamp `ts` (UTC) in
/// the pattern `[year]-[month]-[day] [hour]:[minute] UTC`, or `None` where
/// it refuses the timestamp (outside the dates it represents) or the
/// pattern.
pub uninterp spec fn utc_minute_text(ts: i64) -> Option<Seq<char>>;

/// Formats a Unix timestamp with the `time` crate: `format_description::parse`
/// reads the pattern, `OffsetDateTime::from_unix_timestamp` makes the date
/// and `OffsetDateTime::format` writes it.  The contract names the text, a
/// function of the timestamp alone.
#[verifier::external_body]
fn utc_minute(ts: i64) -> (r: Option<String>)
    ensures
        match r {
            Some(t) => utc_minute_text(ts) == Some(t@),
            None => utc_minute_text(ts) is None,
        },
{
    let pattern = parse("[year]-[month]-[day] [hour]:[minute] UTC").ok()?;
    OffsetDateTime::from_unix_timestamp(ts).ok()?.format(&pattern).ok()
}

/// How a timestamp is shown: `empty` when there is none; else the date
/// and time in UTC, or the number itself where the date cannot be written.
pub open spec fn timestamp_text(value: Option<i64>, empty: Seq<char>) -> Seq<char> {
    match value {
        None => empty,
        Some(v) => match utc_minute_text(v) {
            Some(t) => t,
            None => signed_decimal(v as int),
        },
    }
}

/// Shows a timestamp (see `timestamp_text`).
pub fn format_timestamp(value: Option<i64>, empty: &str) -> (r: String)
    ensures
        r@ == timestamp_text(value, empty@),
{
    match value {
        None => empty.to_string(),
        Some(v) => match utc_minute(v) {
            Some(t) => t,
            None => {
                let d = i64_decimal(v);
                string_of(d.as_slice())
            },
        },
    }
}

} // verus!
