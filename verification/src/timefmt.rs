//! The `HH:MM` time-of-day format: schedule entries store times in this
//! shape and the scheduler matches them against the clock by exact string
//! equality.

use vstd::prelude::*;
use vstd::string::StrSliceExecFns;
use crate::text::{digit_val, is_digit};

verus! {

/// A well-formed time of day: exactly `HH:MM` with `00 <= HH <= 23` and
/// `00 <= MM <= 59`.
pub open spec fn valid_time(s: Seq<char>) -> bool {
    &&& s.len() == 5
    &&& is_digit(s[0])
    &&& is_digit(s[1])
    &&& s[2] == ':'
    &&& is_digit(s[3])
    &&& is_digit(s[4])
    &&& digit_val(s[0]) * 10 + digit_val(s[1]) <= 23
    &&& digit_val(s[3]) * 10 + digit_val(s[4]) <= 59
}

/// Minute-of-day encoded by a well-formed `HH:MM` string.
pub open spec fn time_minutes(s: Seq<char>) -> int {
    (digit_val(s[0]) * 10 + digit_val(s[1])) * 60 + digit_val(s[3]) * 10 + digit_val(s[4])
}

/// Decides whether `s` is a well-formed `HH:MM` time of day.
pub fn check_time(s: &str) -> (r: bool)
    ensures
        r == valid_time(s@),
{
    if s.unicode_len() != 5 {
        return false;
    }
    let h1 = s.get_char(0);
    let h2 = s.get_char(1);
    let c = s.get_char(2);
    let m1 = s.get_char(3);
    let m2 = s.get_char(4);
    if !(h1 >= '0' && h1 <= '9' && h2 >= '0' && h2 <= '9' && m1 >= '0' && m1 <= '9' && m2 >= '0'
        && m2 <= '9' && c == ':') {
        return false;
    }
    let hours: u32 = (h1 as u32 - 48) * 10 + (h2 as u32 - 48);
    let minutes: u32 = (m1 as u32 - 48) * 10 + (m2 as u32 - 48);
    hours <= 23 && minutes <= 59
}

} // verus!
