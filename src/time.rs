//! Renderings of a Unix time: UTC as `YYYY-MM-DD HH:MM:SS UTC` and the
//! server's local time.
use vstd::prelude::*;

verus! {

/// The UTC rendering, `YYYY-MM-DD HH:MM:SS UTC`, of the time `secs` seconds
/// after the Unix epoch.
pub uninterp spec fn utc_text(secs: int) -> Seq<char>;

/// Relies on `chrono::DateTime::from_timestamp` and on formatting its result,
/// in UTC and in the local time zone: `None` when chrono has no date for
/// `secs`.
#[verifier::external_body]
fn clock_texts(secs: i64) -> (r: Option<(String, String)>)
    ensures
        r matches Some(p) ==> p.0@ == utc_text(secs as int),
{
    match chrono::DateTime::from_timestamp(secs, 0) {
        Some(t) => Some((
            t.format("%Y-%m-%d %H:%M:%S UTC").to_string(),
            t.with_timezone(&chrono::Local).format("%Y-%m-%d %H:%M:%S").to_string(),
        )),
        None => None,
    }
}

/// The Unix time `unix_timestamp` with its UTC and local renderings; `None`
/// when it lies beyond the dates that can be rendered.
pub fn get_timestamps(unix_timestamp: u64) -> (r: Option<(u64, String, String)>)
    ensures
        r matches Some(t) ==> t.0 == unix_timestamp && t.1@ == utc_text(unix_timestamp as int),
        unix_timestamp > i64::MAX ==> r is None,
{
    if unix_timestamp > i64::MAX as u64 {
        return None;
    }
    match clock_texts(unix_timestamp as i64) {
        Some(p) => Some((unix_timestamp, p.0, p.1)),
        None => None,
    }
}

} // verus!
