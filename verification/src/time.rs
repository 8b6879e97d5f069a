//! Timestamps: display formats and the time windows the services query by.
//! A timestamp is a count of milliseconds since the Unix epoch, UTC.

use vstd::prelude::*;
use std::fmt::Write;

verus! {

/// Date as `2024-01-31`.
pub const DTF_YMD: &'static str = "%Y-%m-%d";

/// Date and time with the hours of the offset, as `2024-01-31 08:00:00+08`.
pub const DTF_YMDHMSZ: &'static str = "%Y-%m-%d %H:%M:%S%:::z";

/// The offset of China Standard Time, in seconds east of UTC.
pub const TZ_FO_8_SECS: i32 = 28800;

/// What chrono writes, under the format `fmt`, for the instant that bson's
/// `DateTime::to_chrono` makes of `millis` (clamped to chrono's range), seen
/// at `offset_secs` east of UTC; `None` where chrono has no such offset or
/// the format holds an item chrono cannot write.
pub uninterp spec fn formatted_time(millis: i64, offset_secs: i32, fmt: Seq<char>) -> Option<Seq<char>>;

/// Builds the instant with `bson::DateTime::from_millis(millis).to_chrono()`
/// (which clamps an instant outside chrono's range to its least or greatest
/// instant), moves it to `chrono::FixedOffset::east_opt(offset_secs)` and
/// writes it with `DateTime::format`. The result is named `formatted_time`.
/// `east_opt` gives an offset for every count of seconds strictly within a
/// day either way, and for the two formats of this library every item is one
/// that chrono writes for any date, time and such an offset, so there the
/// result is stated to be `Some`; the text itself is left unsaid.
#[verifier::external_body]
fn format_timestamp(millis: i64, offset_secs: i32, fmt: &str) -> (r: Option<String>)
    ensures
        match r {
            Some(t) => formatted_time(millis, offset_secs, fmt@) == Some(t@),
            None => formatted_time(millis, offset_secs, fmt@) is None,
        },
        (-86400 < offset_secs < 86400 && (fmt@ == DTF_YMD@ || fmt@ == DTF_YMDHMSZ@)) ==> r is Some,
{
    let offset = chrono::FixedOffset::east_opt(offset_secs)?;
    let time = mongodb::bson::DateTime::from_millis(millis).to_chrono().with_timezone(&offset);
    let mut out = String::new();
    write!(out, "{}", time.format(fmt)).ok()?;
    Some(out)
}

/// Timestamp -> `Y-M-D`, in UTC.
pub fn bdt_to_ymd(millis: i64) -> (r: String)
    ensures
        formatted_time(millis, 0, DTF_YMD@) == Some(r@),
{
    format_timestamp(millis, 0, DTF_YMD).unwrap()
}

/// Timestamp -> `Y-M-D`, in China Standard Time (+08:00).
pub fn bdt_to_ymd8(millis: i64) -> (r: String)
    ensures
        formatted_time(millis, TZ_FO_8_SECS, DTF_YMD@) == Some(r@),
{
    format_timestamp(millis, TZ_FO_8_SECS, DTF_YMD).unwrap()
}

/// Timestamp -> `Y-M-D H:M:S+Z`, in UTC.
pub fn bdt_to_ymdhmsz(millis: i64) -> (r: String)
    ensures
        formatted_time(millis, 0, DTF_YMDHMSZ@) == Some(r@),
{
    format_timestamp(millis, 0, DTF_YMDHMSZ).unwrap()
}

/// Timestamp -> `Y-M-D H:M:S+Z`, in China Standard Time (+08:00).
pub fn bdt_to_ymdhmsz_8(millis: i64) -> (r: String)
    ensures
        formatted_time(millis, TZ_FO_8_SECS, DTF_YMDHMSZ@) == Some(r@),
{
    format_timestamp(millis, TZ_FO_8_SECS, DTF_YMDHMSZ).unwrap()
}

/// Milliseconds in a day.
pub const DAY_MILLIS: i64 = 86_400_000;

/// The instant `days` whole days before `now_millis`.
pub fn days_before(now_millis: i64, days: i64) -> (r: i64)
    requires
        0 <= days,
        days * DAY_MILLIS <= i64::MAX,
        now_millis - days * DAY_MILLIS >= i64::MIN,
    ensures
        r == now_millis - days * DAY_MILLIS,
{
    now_millis - days * DAY_MILLIS
}

} // verus!
