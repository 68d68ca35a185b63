//! How the command line shows an instant: by its age when it is recent,
//! otherwise as a clock time that the local time zone decides.

use vstd::prelude::*;
use vstd::string::*;
use crate::clock::{valid_time, spec_parse_rfc3339, parse_rfc3339, now_micros};
use crate::text::{decimal, decimal_string, concat2};

verus! {

/// Microseconds in a minute.
pub const MICROS_PER_MINUTE: i128 = 60000000;

/// Microseconds in an hour.
pub const MICROS_PER_HOUR: i128 = 3600000000;

/// Microseconds in a day.
pub const MICROS_PER_DAY: i128 = 86400000000;

/// Characters of an unparsable timestamp that a message line keeps.
pub const RAW_STAMP_CHARS: usize = 19;

/// Characters of an unparsable timestamp that a live message line keeps.
pub const RAW_CLOCK_CHARS: usize = 16;

/// What an instant is shown as: finished text, or an instant to be shown in
/// the local time zone.
pub enum Stamp {
    Text(String),
    Local(i64),
}

/// The first `n` characters of a text (all of it when it is shorter).
pub open spec fn clipped(s: Seq<char>, n: nat) -> Seq<char> {
    if s.len() <= n {
        s
    } else {
        s.take(n as int)
    }
}

/// The first `n` characters of a text.
pub fn clip(s: &str, n: usize) -> (r: String)
    ensures
        r@ == clipped(s@, n as nat),
{
    let len = s.unicode_len();
    let end = if len < n {
        len
    } else {
        n
    };
    let r = String::from_str(s.substring_char(0, end));
    proof {
        if s@.len() <= n {
            assert(r@ =~= s@);
        } else {
            assert(r@ =~= s@.take(n as int));
        }
    }
    r
}

/// How an age (microseconds since the instant) reads: "just now" under a
/// minute (and for instants in the future), then whole minutes, hours or
/// days, rounded down; `None` from a week on.
pub open spec fn age_text(age: int) -> Option<Seq<char>> {
    if age < MICROS_PER_MINUTE {
        Some("just now"@)
    } else if age < MICROS_PER_HOUR {
        Some(decimal((age / MICROS_PER_MINUTE as int) as nat) + " min ago"@)
    } else if age < MICROS_PER_DAY {
        Some(decimal((age / MICROS_PER_HOUR as int) as nat) + " hours ago"@)
    } else if age < 7 * MICROS_PER_DAY {
        Some(decimal((age / MICROS_PER_DAY as int) as nat) + " days ago"@)
    } else {
        None
    }
}

/// The text of an age, when it is under a week.
pub fn age_label(age: i128) -> (r: Option<String>)
    ensures
        r is Some <==> age_text(age as int) is Some,
        r matches Some(t) ==> t@ == age_text(age as int)->0,
{
    if age < MICROS_PER_MINUTE {
        Some(String::from_str("just now"))
    } else if age < MICROS_PER_HOUR {
        let n = (age / MICROS_PER_MINUTE) as usize;
        Some(concat2(&decimal_string(n), " min ago"))
    } else if age < MICROS_PER_DAY {
        let n = (age / MICROS_PER_HOUR) as usize;
        Some(concat2(&decimal_string(n), " hours ago"))
    } else if age < 7 * MICROS_PER_DAY {
        let n = (age / MICROS_PER_DAY) as usize;
        Some(concat2(&decimal_string(n), " days ago"))
    } else {
        None
    }
}

/// How a message timestamp is shown at the instant `now`: "-" when there is
/// none; its age when it parses and is less than a week old; the parsed
/// instant, for local time, when it is older; the first characters of the
/// text when it does not parse.
pub open spec fn stamp_shows(ts: Option<Seq<char>>, now: i64, r: Stamp) -> bool {
    match ts {
        None => r matches Stamp::Text(t) && t@ == "-"@,
        Some(s) => match spec_parse_rfc3339(s) {
            Some(t) => match age_text(now - t) {
                Some(txt) => r matches Stamp::Text(x) && x@ == txt,
                None => r == Stamp::Local(t),
            },
            None => r matches Stamp::Text(x) && x@ == clipped(s, RAW_STAMP_CHARS as nat),
        },
    }
}

/// How a message timestamp is shown at the instant `now`.
pub fn timestamp_label(ts: Option<&str>, now: i64) -> (r: Stamp)
    requires
        valid_time(now),
    ensures
        stamp_shows(crate::text::opt_str(ts), now, r),
{
    match ts {
        None => Stamp::Text(String::from_str("-")),
        Some(s) => match parse_rfc3339(s) {
            Some(t) => {
                let age: i128 = now as i128 - t as i128;
                match age_label(age) {
                    Some(txt) => Stamp::Text(txt),
                    None => Stamp::Local(t),
                }
            },
            None => Stamp::Text(clip(s, RAW_STAMP_CHARS)),
        },
    }
}

/// How a message timestamp is shown now: as `timestamp_label` shows it at
/// the instant that the clock gave.
pub fn format_timestamp(ts: Option<&str>) -> (r: Stamp)
    ensures
        exists|now: i64| valid_time(now) && stamp_shows(crate::text::opt_str(ts), now, r),
{
    let now = now_micros();
    timestamp_label(ts, now)
}

/// How a live message shows its time: "??:??" when there is none; the parsed
/// instant, for a local clock time; the first characters of the text when it
/// does not parse.
pub open spec fn clock_shows(ts: Option<Seq<char>>, r: Stamp) -> bool {
    match ts {
        None => r matches Stamp::Text(t) && t@ == "??:??"@,
        Some(s) => match spec_parse_rfc3339(s) {
            Some(t) => r == Stamp::Local(t),
            None => r matches Stamp::Text(x) && x@ == clipped(s, RAW_CLOCK_CHARS as nat),
        },
    }
}

/// How a live message shows its time.
pub fn format_time(ts: Option<&str>) -> (r: Stamp)
    ensures
        clock_shows(crate::text::opt_str(ts), r),
{
    match ts {
        None => Stamp::Text(String::from_str("??:??")),
        Some(s) => match parse_rfc3339(s) {
            Some(t) => Stamp::Local(t),
            None => Stamp::Text(clip(s, RAW_CLOCK_CHARS)),
        },
    }
}

} // verus!
