//! Helpers for the debug log line.

use vstd::prelude::*;
use vstd::string::*;

verus! {

/// The last `n` characters of `s`, or all of `s` where it has no more.
pub fn string_take_end(s: &str, n: usize) -> (end: &str)
    ensures
        end@ == s@.subrange(
            if s@.len() > n {
                s@.len() - n
            } else {
                0
            },
            s@.len() as int,
        ),
{
    if n == 0 || s.is_empty() {
        proof {
            reveal_strlit("");
        }
        let none: &str = "";
        assert(none@ =~= s@.subrange(s@.len() as int, s@.len() as int));
        assert(s@.len() == 0 ==> none@ =~= s@.subrange(0, s@.len() as int));
        return none;
    }
    let total_chars = s.unicode_len();
    if n >= total_chars {
        assert(s@ =~= s@.subrange(0, s@.len() as int));
        return s;
    }
    s.substring_char(total_chars - n, total_chars)
}

/// The time of day, as hours, minutes and seconds, at a number of seconds since
/// some midnight.
pub fn time_of_day(secs: u64) -> (clock: (u64, u64, u64))
    ensures
        clock.0 == (secs % 86400) / 3600,
        clock.1 == (secs % 3600) / 60,
        clock.2 == secs % 60,
        clock.0 < 24,
        clock.1 < 60,
        clock.2 < 60,
        (secs % 86400) == clock.0 * 3600 + clock.1 * 60 + clock.2,
{
    let hours: u64 = (secs % 86400) / 3600;
    let minutes: u64 = (secs % 3600) / 60;
    let seconds: u64 = secs % 60;
    (hours, minutes, seconds)
}

} // verus!
