use vstd::prelude::*;
use chrono::Datelike;
use crate::era::UtcDate;

verus! {

/// What chrono's RFC 3339 parser makes of a string: the instant in seconds
/// since the Unix epoch, with the month and day of its UTC date.
pub uninterp spec fn rfc3339_utc(s: Seq<char>) -> Option<(i64, u32, u32)>;

/// Relies on chrono's `DateTime::parse_from_rfc3339`, converted to UTC, and on
/// `timestamp`, `month` and `day` of the result: months run from 1 to 12 and
/// days from 1 to 31.
#[verifier::external_body]
fn parse_rfc3339_utc(s: &str) -> (r: Option<(i64, u32, u32)>)
    ensures
        r == rfc3339_utc(s@),
        r matches Some((_, m, d)) ==> 1 <= m <= 12 && 1 <= d <= 31,
{
    match chrono::DateTime::parse_from_rfc3339(s) {
        Ok(dt) => {
            let u = dt.with_timezone(&chrono::Utc);
            Some((u.timestamp(), u.month(), u.day()))
        },
        Err(_) => None,
    }
}

/// The time of day at which a bare calendar date is anchored, chosen clear of
/// time-zone boundaries.
pub open spec fn anchor_time() -> Seq<char> {
    seq!['T', '2', '2', ':', '1', '0', ':', '5', '7', 'Z']
}

/// The date `YYYY-MM-DD` at 22:10:57 UTC, or nothing where the text is not
/// such a date.
pub fn utc_dt(date: &str) -> (r: Option<UtcDate>)
    ensures
        match rfc3339_utc(date@ + anchor_time()) {
            None => r is None,
            Some((t, m, d)) => r == Some(UtcDate { timestamp: t, month: m, day: d }),
        },
        r matches Some(u) ==> u.wf(),
{
    let mut s = String::from_str(date);
    proof {
        reveal_strlit("T22:10:57Z");
    }
    s.append("T22:10:57Z");
    assert(s@ =~= date@ + anchor_time());
    match parse_rfc3339_utc(s.as_str()) {
        None => None,
        Some((t, m, d)) => Some(UtcDate { timestamp: t, month: m, day: d }),
    }
}

} // verus!
