//! Timestamps, parsed and rendered through `chrono`. The library keeps times
//! as RFC 3339 text.
use vstd::prelude::*;

verus! {

/// How `chrono` displays the UTC time that `s` parses to (`DateTime<Utc>`'s
/// `Display`, such as `2024-01-02 03:04:05 UTC`), if `s` parses.
pub uninterp spec fn utc_display(s: Seq<char>) -> Option<Seq<char>>;

/// The canonical RFC 3339 form `chrono` serializes the UTC time that `s`
/// parses to (as `serde` writes a `DateTime<Utc>`), if `s` parses.
pub uninterp spec fn utc_canonical(s: Seq<char>) -> Option<Seq<char>>;

/// Parses `s` with `str::parse::<chrono::DateTime<chrono::Utc>>` and renders it
/// with `Display`. The contract names the result; the formats are not stated.
#[verifier::external_body]
pub(crate) fn display_utc(s: &str) -> (r: Option<String>)
    ensures
        match r {
            Some(x) => utc_display(s@) == Some(x@),
            None => utc_display(s@) is None,
        },
{
    match s.parse::<chrono::DateTime<chrono::Utc>>() {
        Ok(t) => Some(t.to_string()),
        Err(_) => None,
    }
}

/// Parses `s` with `str::parse::<chrono::DateTime<chrono::Utc>>` and renders it
/// with `to_rfc3339_opts(SecondsFormat::AutoSi, true)`, the form `serde` writes.
/// The contract names the result; the formats are not stated.
#[verifier::external_body]
pub(crate) fn canonical_utc(s: &str) -> (r: Option<String>)
    ensures
        match r {
            Some(x) => utc_canonical(s@) == Some(x@),
            None => utc_canonical(s@) is None,
        },
{
    match s.parse::<chrono::DateTime<chrono::Utc>>() {
        Ok(t) => Some(t.to_rfc3339_opts(chrono::SecondsFormat::AutoSi, true)),
        Err(_) => None,
    }
}


/// The instant that RFC 3339 text `s` parses to, as whole seconds since the
/// Unix epoch and the nanoseconds past them, if `s` parses.
pub uninterp spec fn utc_instant(s: Seq<char>) -> Option<(i64, u32)>;

/// Parses `s` with `str::parse::<chrono::DateTime<chrono::Utc>>` and reads
/// `timestamp` and `timestamp_subsec_nanos`. The contract names the result;
/// calendar arithmetic is not stated.
#[verifier::external_body]
pub(crate) fn instant_of(s: &str) -> (r: Option<(i64, u32)>)
    ensures
        r == utc_instant(s@),
{
    match s.parse::<chrono::DateTime<chrono::Utc>>() {
        Ok(t) => Some((t.timestamp(), t.timestamp_subsec_nanos())),
        Err(_) => None,
    }
}

/// The RFC 3339 form `chrono`'s `DateTime::to_rfc3339` gives the UTC time
/// that `s` parses to (with a `+00:00` offset), if `s` parses.
pub uninterp spec fn utc_rfc3339(s: Seq<char>) -> Option<Seq<char>>;

/// Parses `s` with `str::parse::<chrono::DateTime<chrono::Utc>>` and renders it
/// with `to_rfc3339`. The contract names the result; the format is not stated.
#[verifier::external_body]
pub(crate) fn rfc3339_of(s: &str) -> (r: Option<String>)
    ensures
        match r {
            Some(x) => utc_rfc3339(s@) == Some(x@),
            None => utc_rfc3339(s@) is None,
        },
{
    match s.parse::<chrono::DateTime<chrono::Utc>>() {
        Ok(t) => Some(t.to_rfc3339()),
        Err(_) => None,
    }
}

/// How a recorded time is shown in RFC 3339 form: as `to_rfc3339` renders it,
/// or as recorded when it does not parse.
pub open spec fn rfc3339_shown(s: Seq<char>) -> Seq<char> {
    match utc_rfc3339(s) {
        Some(t) => t,
        None => s,
    }
}

/// A recorded time in RFC 3339 form (see [`rfc3339_shown`]).
pub fn show_rfc3339(s: &str) -> (r: String)
    ensures
        r@ == rfc3339_shown(s@),
{
    match rfc3339_of(s) {
        Some(t) => t,
        None => crate::text::owned(s),
    }
}

} // verus!
