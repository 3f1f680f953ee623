//! Reading the clock and writing instants in Japan Standard Time.

use vstd::prelude::*;

verus! {

/// Offset of Japan Standard Time from UTC, in seconds.
pub const JST_OFFSET_SECS: i32 = 9 * 3600;

/// Largest distance from the epoch, in milliseconds, of an instant that can be
/// written out: chrono's calendar covers years up to about 262,000 either
/// way, and this stays well inside it.
pub const DISPLAYABLE_MILLIS_LIMIT: i64 = 8_000_000_000_000_000;

pub open spec fn displayable(millis: int) -> bool {
    -DISPLAYABLE_MILLIS_LIMIT <= millis <= DISPLAYABLE_MILLIS_LIMIT
}

/// The RFC 3339 text of the instant `millis` milliseconds after the epoch, in
/// the zone `offset_secs` seconds east of UTC, as chrono writes it.
pub uninterp spec fn rfc3339_at(millis: int, offset_secs: int) -> Seq<char>;

/// Relies on chrono: `FixedOffset::east_opt` gives an offset for any value
/// strictly within a day, `DateTime::from_timestamp_millis` gives an instant
/// for any value within its calendar, and `with_timezone` followed by
/// `to_rfc3339` writes that instant in that offset.
#[verifier::external_body]
fn rfc3339_in_offset(millis: i64, offset_secs: i32) -> (r: String)
    requires
        -86_400 < offset_secs < 86_400,
        displayable(millis as int),
    ensures
        r@ == rfc3339_at(millis as int, offset_secs as int),
{
    let offset = chrono::FixedOffset::east_opt(offset_secs).unwrap();
    chrono::DateTime::from_timestamp_millis(millis).unwrap().with_timezone(&offset).to_rfc3339()
}

/// Relies on chrono's `Utc::now` and `timestamp_millis`: the current instant
/// in milliseconds since the epoch. It depends on the system clock, so
/// nothing is promised of it.
#[verifier::external_body]
pub fn get_jst_timestamp() -> (r: i64) {
    chrono::Utc::now().timestamp_millis()
}

/// The instant `timestamp_millis` written in RFC 3339 with the JST offset.
pub fn timestamp_to_jst_rfc3339(timestamp_millis: i64) -> (r: String)
    requires
        displayable(timestamp_millis as int),
    ensures
        r@ == rfc3339_at(timestamp_millis as int, JST_OFFSET_SECS as int),
{
    rfc3339_in_offset(timestamp_millis, JST_OFFSET_SECS)
}

/// A source of the current instant.
pub trait Clock {
    /// The current instant in milliseconds since the epoch.
    fn now_jst_millis(&self) -> i64;
}

/// The system clock.
#[derive(Debug, Clone, Copy)]
pub struct SystemClock;

impl Clock for SystemClock {
    fn now_jst_millis(&self) -> i64 {
        get_jst_timestamp()
    }
}

/// A clock that always reads the same instant.
#[derive(Debug, Clone, Copy)]
pub struct FixedClock {
    fixed_time: i64,
}

impl FixedClock {
    pub closed spec fn reading(&self) -> i64 {
        self.fixed_time
    }

    pub fn new(fixed_time_millis: i64) -> (r: FixedClock)
        ensures
            r.reading() == fixed_time_millis,
    {
        FixedClock { fixed_time: fixed_time_millis }
    }
}

impl Clock for FixedClock {
    fn now_jst_millis(&self) -> (r: i64)
        ensures
            r == self.reading(),
    {
        self.fixed_time
    }
}

} // verus!
