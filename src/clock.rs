//! Instants in UTC as plain numbers, and the calls into `chrono` that read,
//! check and render them.
use vstd::prelude::*;

verus! {

/// An instant: whole seconds since the Unix epoch and the nanoseconds past them.
#[derive(Debug, Clone, Copy, PartialEq, Eq, Structural)]
pub struct UtcTime {
    pub seconds: i64,
    pub nanos: u32,
}

/// Whether `chrono` can represent the instant `secs` seconds and `nanos`
/// nanoseconds after the epoch: its dates run from -262143-01-01 to
/// 262142-12-31, and nanoseconds of a second reach past 999_999_999 only in a
/// leap second, the 59th of a minute.
pub open spec fn utc_representable(secs: int, nanos: int) -> bool {
    &&& -8_334_601_228_800 <= secs <= 8_210_266_876_799
    &&& nanos < 1_000_000_000 || (nanos < 2_000_000_000 && secs % 60 == 59)
}

/// The instant that an RFC 3339 timestamp names, as seconds and nanoseconds.
pub uninterp spec fn rfc3339_instant(s: Seq<char>) -> Option<(int, int)>;

/// `YYYY-MM-DD HH:MM:SS` for the instant `secs` seconds after the epoch, in UTC.
pub uninterp spec fn utc_text(secs: int) -> Seq<char>;

/// Relies on `chrono::DateTime::from_timestamp`: the instant where it is
/// representable; it round-trips with `timestamp` and `timestamp_subsec_nanos`.
#[verifier::external_body]
pub(crate) fn utc_from_timestamp(secs: i64, nanos: u32) -> (r: Option<UtcTime>)
    ensures
        r is Some <==> utc_representable(secs as int, nanos as int),
        r matches Some(t) ==> t.seconds == secs && t.nanos == nanos,
{
    chrono::DateTime::from_timestamp(secs, nanos).map(
        |d| UtcTime { seconds: d.timestamp(), nanos: d.timestamp_subsec_nanos() },
    )
}

/// Relies on `chrono::Utc::now`: the current instant, whatever it is.
#[verifier::external_body]
pub(crate) fn utc_now() -> (r: UtcTime) {
    let d = chrono::Utc::now();
    UtcTime { seconds: d.timestamp(), nanos: d.timestamp_subsec_nanos() }
}

/// Relies on `chrono::DateTime::parse_from_rfc3339`, taken to UTC.
#[verifier::external_body]
pub(crate) fn parse_rfc3339(s: &str) -> (r: Option<UtcTime>)
    ensures
        match r {
            Some(t) => rfc3339_instant(s@) == Some((t.seconds as int, t.nanos as int)),
            None => rfc3339_instant(s@) is None,
        },
{
    chrono::DateTime::parse_from_rfc3339(s).ok().map(
        |d| UtcTime { seconds: d.timestamp(), nanos: d.timestamp_subsec_nanos() },
    )
}

/// Relies on `chrono::DateTime::from_timestamp` and its `format` with
/// `%Y-%m-%d %H:%M:%S`.
#[verifier::external_body]
pub(crate) fn utc_seconds_text(secs: i64) -> (r: Option<String>)
    ensures
        r is Some <==> utc_representable(secs as int, 0),
        r matches Some(s) ==> s@ == utc_text(secs as int),
{
    chrono::DateTime::from_timestamp(secs, 0).map(|d| d.format("%Y-%m-%d %H:%M:%S").to_string())
}

} // verus!
