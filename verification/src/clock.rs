//! Times of day as the screen shows them.

use crate::text::{digit, opt_text};
use chrono::{DateTime, FixedOffset};
use vstd::prelude::*;

verus! {

/// A number below 100 in two digits.
pub open spec fn two_digits(n: int) -> Seq<char> {
    seq![digit((n / 10) as nat), digit((n % 10) as nat)]
}

/// The hour and the minute of a time in seconds since some midnight.
pub open spec fn hour_and_minute(secs: int) -> Seq<char> {
    two_digits(secs % 86_400 / 3600) + seq![':'] + two_digits(secs % 3600 / 60)
}

/// Whether there is a date for a time in seconds since the Unix epoch: from
/// the year -262143 to the year 262142.
pub open spec fn has_date(timestamp: int) -> bool {
    -8_334_601_228_800 <= timestamp <= 8_210_266_876_799
}

/// Whether a time zone can be that many seconds ahead of UTC: less than a day,
/// either way.
pub open spec fn has_zone(offset: int) -> bool {
    -86_400 < offset < 86_400
}

/// `DateTime::from_timestamp`, brought to the zone of `FixedOffset::east_opt`
/// and formatted with `%H:%M`: the hour and the minute, two digits each, that
/// the clocks of that zone show, or `None` where one of the first two has no
/// answer.
#[verifier::external_body]
fn formatted(timestamp: i64, offset: i32) -> (t: Option<String>)
    ensures
        opt_text(t) == (if has_date(timestamp as int) && has_zone(offset as int) {
            Some(hour_and_minute(timestamp + offset))
        } else {
            None
        }),
{
    let at = DateTime::from_timestamp(timestamp, 0)?;
    let zone = FixedOffset::east_opt(offset)?;
    Some(at.with_timezone(&zone).format("%H:%M").to_string())
}

/// The time of day, as hour and minute, of a time in seconds since the Unix
/// epoch, where the clocks are `offset` seconds ahead of UTC. It is empty where
/// there is no such date or no such zone.
pub fn time_of_day(timestamp: i64, offset: i32) -> (text: String)
    ensures
        text@ == (if has_date(timestamp as int) && has_zone(offset as int) {
            hour_and_minute(timestamp + offset)
        } else {
            Seq::empty()
        }),
{
    match formatted(timestamp, offset) {
        Some(text) => text,
        None => String::new(),
    }
}

} // verus!
