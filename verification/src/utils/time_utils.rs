//! Verified time arithmetic and formatting over unix-second timestamps.

use vstd::prelude::*;

use crate::utils::digits::{
    push_decimal, push_two_digits, spec_decimal, spec_two_digits,
};
use crate::external::push_char;
use crate::valid_timestamp;
use vstd::string::StringExecFns;

verus! {

/// A duration rendered as `h:mm:ss`, or `m:ss` under an hour.
pub open spec fn spec_format_duration(total_seconds: int) -> Seq<char> {
    let hours = total_seconds / 3600;
    let minutes = (total_seconds % 3600) / 60;
    let seconds = total_seconds % 60;
    if hours > 0 {
        spec_decimal(hours) + seq![':'] + spec_two_digits(minutes) + seq![':'] + spec_two_digits(
            seconds,
        )
    } else {
        spec_decimal(minutes) + seq![':'] + spec_two_digits(seconds)
    }
}

/// Renders a non-negative duration in seconds as `h:mm:ss`, or `m:ss`
/// under an hour.
pub fn format_duration(total_seconds: i64) -> (r: String)
    requires
        total_seconds >= 0,
    ensures
        r@ == spec_format_duration(total_seconds as int),
{
    let hours: i64 = total_seconds / 3600;
    let minutes: i64 = (total_seconds % 3600) / 60;
    let seconds: i64 = total_seconds % 60;
    let mut out: String = String::new();
    if hours > 0 {
        push_decimal(&mut out, hours as u64);
        push_char(&mut out, ':');
        push_two_digits(&mut out, minutes as u64);
        push_char(&mut out, ':');
        push_two_digits(&mut out, seconds as u64);
        proof {
            assert(out@ =~= spec_format_duration(total_seconds as int));
        }
    } else {
        push_decimal(&mut out, minutes as u64);
        push_char(&mut out, ':');
        push_two_digits(&mut out, seconds as u64);
        proof {
            assert(out@ =~= spec_format_duration(total_seconds as int));
        }
    }
    out
}

/// A past moment described relative to `now`: "just now" under a minute,
/// then whole minutes, hours and days ago, with the unit singular at one.
pub open spec fn spec_relative_time(datetime: int, now: int) -> Seq<char> {
    let diff = now - datetime;
    if diff < 60 {
        "just now"@
    } else if diff / 60 < 60 {
        let minutes = diff / 60;
        if minutes == 1 {
            "1 minute ago"@
        } else {
            spec_decimal(minutes) + " minutes ago"@
        }
    } else if diff / 3600 < 24 {
        let hours = diff / 3600;
        if hours == 1 {
            "1 hour ago"@
        } else {
            spec_decimal(hours) + " hours ago"@
        }
    } else {
        let days = diff / 86400;
        if days == 1 {
            "1 day ago"@
        } else {
            spec_decimal(days) + " days ago"@
        }
    }
}

/// Describes a past moment relative to `now`.
pub fn format_relative_time(datetime: i64, now: i64) -> (r: String)
    requires
        valid_timestamp(datetime),
        valid_timestamp(now),
    ensures
        r@ == spec_relative_time(datetime as int, now as int),
{
    let diff: i64 = now - datetime;
    if diff < 60 {
        return "just now".to_owned();
    }
    let minutes: i64 = diff / 60;
    if minutes < 60 {
        if minutes == 1 {
            return "1 minute ago".to_owned();
        }
        let mut out: String = String::new();
        push_decimal(&mut out, minutes as u64);
        out.append(" minutes ago");
        proof {
            assert(out@ =~= spec_relative_time(datetime as int, now as int));
        }
        return out;
    }
    let hours: i64 = diff / 3600;
    if hours < 24 {
        if hours == 1 {
            return "1 hour ago".to_owned();
        }
        let mut out: String = String::new();
        push_decimal(&mut out, hours as u64);
        out.append(" hours ago");
        proof {
            assert(out@ =~= spec_relative_time(datetime as int, now as int));
        }
        return out;
    }
    let days: i64 = diff / 86400;
    if days == 1 {
        return "1 day ago".to_owned();
    }
    let mut out: String = String::new();
    push_decimal(&mut out, days as u64);
    out.append(" days ago");
    proof {
        assert(out@ =~= spec_relative_time(datetime as int, now as int));
    }
    out
}

/// The moment a slot of `duration_minutes` ending a set started at
/// `start_time` is expected to finish.
pub fn estimate_end_time(start_time: i64, duration_minutes: i32) -> (r: i64)
    requires
        valid_timestamp(start_time),
    ensures
        r == start_time + (duration_minutes as int) * 60,
{
    start_time + (duration_minutes as i64) * 60
}

/// Minutes a performer at the given queue position waits, assuming each
/// earlier performer plays an average-length set.
pub fn calculate_queue_wait_time(position: i32, average_session_minutes: i32) -> (r: i64)
    requires
        position >= 1,
    ensures
        r == (position - 1) * (average_session_minutes as int),
{
    let waiting: i64 = (position - 1) as i64;
    let average: i64 = average_session_minutes as i64;
    proof {
        assert(-0x4000_0000_0000_0000int <= waiting * average <= 0x4000_0000_0000_0000int)
            by (nonlinear_arith)
            requires
                0 <= waiting < 0x8000_0000int,
                -0x8000_0000int <= average < 0x8000_0000int,
        ;
    }
    waiting * average
}

/// The UTC hour of day of a unix-second timestamp.
pub open spec fn spec_hour_of_day(t: int) -> int {
    (t % 86400) / 3600
}

/// Whether a registration time falls at or past the cutoff hour of its
/// UTC day.
pub fn is_late_arrival(registered_at: i64, cutoff_hour: u32) -> (r: bool)
    requires
        registered_at >= 0,
    ensures
        r == (spec_hour_of_day(registered_at as int) >= cutoff_hour),
{
    let hour: i64 = (registered_at % 86400) / 3600;
    hour >= (cutoff_hour as i64)
}

} // verus!
