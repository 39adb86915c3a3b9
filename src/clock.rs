//! Local wall-clock time and its `[YYYY-MM-DD HH:MM:SS]` stamp.
use vstd::prelude::*;
use chrono::{Datelike, Timelike};
use crate::decimal::{decimal, four_digits, push_decimal, push_four_digits, push_two_digits, two_digits};

verus! {

/// A local calendar date and time of day, to the second.
#[derive(Clone, Copy, Debug, PartialEq, Eq, Structural)]
pub struct LocalTime {
    pub year: i32,
    pub month: u32,
    pub day: u32,
    pub hour: u32,
    pub minute: u32,
    pub second: u32,
}

impl LocalTime {
    /// Every field is within its calendar range.
    pub open spec fn wf(self) -> bool {
        &&& 1 <= self.month <= 12
        &&& 1 <= self.day <= 31
        &&& self.hour < 24
        &&& self.minute < 60
        &&& self.second < 60
    }
}

/// The year as written in a stamp: four digits from year 0 to 9999, otherwise a sign
/// followed by at least four digits.
pub open spec fn year_text(y: int) -> Seq<char> {
    if 0 <= y <= 9999 {
        four_digits(y as nat)
    } else {
        let mag: nat = if y < 0 { (-y) as nat } else { y as nat };
        seq![if y < 0 { '-' } else { '+' }] + if mag <= 9999 { four_digits(mag) } else { decimal(mag) }
    }
}

/// The stamp of a local time: `[YYYY-MM-DD HH:MM:SS]`.
pub open spec fn stamp_text(t: LocalTime) -> Seq<char> {
    seq!['['] + year_text(t.year as int) + seq!['-'] + two_digits(t.month as nat) + seq!['-']
        + two_digits(t.day as nat) + seq![' '] + two_digits(t.hour as nat) + seq![':']
        + two_digits(t.minute as nat) + seq![':'] + two_digits(t.second as nat) + seq![']']
}

/// Relies on chrono's `Local::now` with the `Datelike` and `Timelike` accessors: the
/// calendar fields of the local wall-clock time, month 1 to 12, day 1 to 31, hour 0 to 23,
/// minute and second 0 to 59, as chrono documents them.
#[verifier::external_body]
pub(crate) fn local_now() -> (r: LocalTime)
    ensures
        r.wf(),
{
    let now = chrono::Local::now();
    LocalTime {
        year: now.year(),
        month: now.month(),
        day: now.day(),
        hour: now.hour(),
        minute: now.minute(),
        second: now.second(),
    }
}

/// The stamp of a local time, `[YYYY-MM-DD HH:MM:SS]`.
pub fn format_stamp(t: &LocalTime) -> (r: String)
    requires
        t.wf(),
    ensures
        r@ == stamp_text(*t),
{
    proof {
        reveal_strlit("[");
        reveal_strlit("]");
        reveal_strlit("-");
        reveal_strlit("+");
        reveal_strlit(" ");
        reveal_strlit(":");
    }
    let mut s = String::new();
    s.append("[");
    let ghost before_year = s@;
    if 0 <= t.year && t.year <= 9999 {
        push_four_digits(&mut s, t.year as u64);
    } else {
        let mag: u64 = if t.year < 0 { (-(t.year as i64)) as u64 } else { t.year as u64 };
        if t.year < 0 {
            s.append("-");
        } else {
            s.append("+");
        }
        if mag <= 9999 {
            push_four_digits(&mut s, mag);
        } else {
            push_decimal(&mut s, mag);
        }
    }
    assert(s@ =~= before_year + year_text(t.year as int));
    s.append("-");
    push_two_digits(&mut s, t.month as u64);
    s.append("-");
    push_two_digits(&mut s, t.day as u64);
    s.append(" ");
    push_two_digits(&mut s, t.hour as u64);
    s.append(":");
    push_two_digits(&mut s, t.minute as u64);
    s.append(":");
    push_two_digits(&mut s, t.second as u64);
    s.append("]");
    assert(s@ =~= stamp_text(*t));
    s
}

} // verus!
