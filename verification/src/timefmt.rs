use vstd::prelude::*;

verus! {

/// What parsing a date-time string against a format gives: the Unix
/// timestamp of the parsed value, or nothing when the string does not
/// match.  The result depends on the two strings alone.
pub uninterp spec fn parsed_unix_ts(s: Seq<char>, fmt: Seq<char>) -> Option<i64>;

/// Relies on chrono's `NaiveDateTime::parse_from_str` and
/// `DateTime::<Utc>::timestamp`: both are pure functions of their inputs,
/// so the composite result depends on the two strings alone.
#[verifier::external_body]
fn parse_unix_ts(s: &str, fmt: &str) -> (r: Option<i64>)
    ensures
        r == parsed_unix_ts(s@, fmt@),
{
    match chrono::NaiveDateTime::parse_from_str(s, fmt) {
        Ok(dt) => Some(
            chrono::DateTime::<chrono::Utc>::from_naive_utc_and_offset(dt, chrono::Utc)
                .timestamp(),
        ),
        Err(_) => None,
    }
}

/// Relies on chrono's `Utc::now`: the current time, of which nothing is
/// promised.
#[verifier::external_body]
fn now_unix_ts() -> i64 {
    chrono::Utc::now().timestamp()
}

/// The timestamp a post's date parses to: the three accepted formats are
/// tried in order — fractional seconds with `Z`, whole seconds with `Z`,
/// explicit offset — and the first match wins.
pub open spec fn spec_parse_timestamp(s: Seq<char>) -> Option<i64> {
    if parsed_unix_ts(s, "%Y-%m-%dT%H:%M:%S%.3fZ"@) is Some {
        parsed_unix_ts(s, "%Y-%m-%dT%H:%M:%S%.3fZ"@)
    } else if parsed_unix_ts(s, "%Y-%m-%dT%H:%M:%SZ"@) is Some {
        parsed_unix_ts(s, "%Y-%m-%dT%H:%M:%SZ"@)
    } else if parsed_unix_ts(s, "%Y-%m-%dT%H:%M:%S%z"@) is Some {
        parsed_unix_ts(s, "%Y-%m-%dT%H:%M:%S%z"@)
    } else {
        None
    }
}

/// Parses a post's timestamp, trying the three accepted formats in order;
/// an unparsable timestamp falls back to the current time, never to an
/// error.
pub fn parse_timestamp(date_str: &str) -> (r: i64)
    ensures
        spec_parse_timestamp(date_str@) matches Some(t) ==> r == t,
{
    if let Some(t) = parse_unix_ts(date_str, "%Y-%m-%dT%H:%M:%S%.3fZ") {
        return t;
    }
    if let Some(t) = parse_unix_ts(date_str, "%Y-%m-%dT%H:%M:%SZ") {
        return t;
    }
    if let Some(t) = parse_unix_ts(date_str, "%Y-%m-%dT%H:%M:%S%z") {
        return t;
    }
    now_unix_ts()
}

} // verus!
