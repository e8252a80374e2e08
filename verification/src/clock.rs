//! Rendering of Unix times as RFC 3339 text, by `chrono`.

use vstd::prelude::*;
verus! {

/// `chrono`'s RFC 3339 rendering of a Unix time in seconds, in UTC
/// (`DateTime::from_timestamp(ts, 0)` then `to_rfc3339`); none for a time
/// out of `chrono`'s range.
pub uninterp spec fn rfc3339_of(ts: i64) -> Option<Seq<char>>;

/// `DateTime::from_timestamp(ts, 0).map(|dt| dt.to_rfc3339())`.
#[verifier::external_body]
fn rfc3339(ts: i64) -> (r: Option<String>)
    ensures
        match r {
            Some(s) => rfc3339_of(ts) == Some(s@),
            None => rfc3339_of(ts) is None,
        },
{
    chrono::DateTime::from_timestamp(ts, 0).map(|dt| dt.to_rfc3339())
}

/// The RFC 3339 text of a Unix time, empty for one out of range.
pub fn timestamp_to_iso(ts: i64) -> (s: String)
    ensures
        s@ == match rfc3339_of(ts) {
            Some(t) => t,
            None => Seq::empty(),
        },
{
    match rfc3339(ts) {
        Some(s) => s,
        None => String::new(),
    }
}

} // verus!
