//! Minute-resolution local timestamps and their `YY_MM_DD_HH_MM` text.
use vstd::prelude::*;
use chrono::{Datelike, Timelike};

verus! {

/// A calendar instant at minute resolution, in the machine's local time zone.
#[derive(Clone, Copy, Debug, PartialEq, Eq)]
pub struct Stamp {
    pub year: i32,
    pub month: u32,
    pub day: u32,
    pub hour: u32,
    pub minute: u32,
}

impl Stamp {
    /// Every component lies in its calendar range.
    pub open spec fn wf(&self) -> bool {
        &&& 1 <= self.month <= 12
        &&& 1 <= self.day <= 31
        &&& self.hour < 24
        &&& self.minute < 60
    }

    /// Builds a stamp from its components.
    pub fn new(year: i32, month: u32, day: u32, hour: u32, minute: u32) -> (r: Stamp)
        requires
            1 <= month <= 12,
            1 <= day <= 31,
            hour < 24,
            minute < 60,
        ensures
            r.wf(),
            r == (Stamp { year, month, day, hour, minute }),
    {
        Stamp { year, month, day, hour, minute }
    }

    /// The stamp as `YY_MM_DD_HH_MM`.
    pub fn text(&self) -> (r: String)
        requires
            self.wf(),
        ensures
            r@ == stamp_text(*self),
    {
        let mut out = String::new();
        let y: i32 = self.year % 100;
        let yy: u32 = if y < 0 { (y + 100) as u32 } else { y as u32 };
        assert(yy as int == self.year as int % 100) by {
            assert(y as int == self.year as int - (self.year as int / 100) * 100
                || y as int == self.year as int - (self.year as int / 100) * 100 - 100);
        }
        push_two(&mut out, yy);
        push_underscore(&mut out);
        push_two(&mut out, self.month);
        push_underscore(&mut out);
        push_two(&mut out, self.day);
        push_underscore(&mut out);
        push_two(&mut out, self.hour);
        push_underscore(&mut out);
        push_two(&mut out, self.minute);
        assert(out@ =~= stamp_text(*self));
        out
    }
}

/// The ten decimal digits, in order.
pub open spec fn decimal_digits() -> Seq<char> {
    seq!['0', '1', '2', '3', '4', '5', '6', '7', '8', '9']
}

/// A number below 100 as two decimal digits, zero-padded.
pub open spec fn two_digits(v: int) -> Seq<char> {
    seq![decimal_digits()[v / 10], decimal_digits()[v % 10]]
}

/// `YY_MM_DD_HH_MM`: the year modulo 100 (Euclidean), then month, day, hour
/// and minute, each as two digits, joined by `_`.
pub open spec fn stamp_text(s: Stamp) -> Seq<char> {
    two_digits(s.year as int % 100) + seq!['_'] + two_digits(s.month as int) + seq!['_']
        + two_digits(s.day as int) + seq!['_'] + two_digits(s.hour as int) + seq!['_']
        + two_digits(s.minute as int)
}

fn digit_str(d: u32) -> (r: &'static str)
    requires
        d < 10,
    ensures
        r@ == seq![decimal_digits()[d as int]],
{
    proof {
        reveal_strlit("0");
        reveal_strlit("1");
        reveal_strlit("2");
        reveal_strlit("3");
        reveal_strlit("4");
        reveal_strlit("5");
        reveal_strlit("6");
        reveal_strlit("7");
        reveal_strlit("8");
        reveal_strlit("9");
    }
    let r = if d == 0 {
        "0"
    } else if d == 1 {
        "1"
    } else if d == 2 {
        "2"
    } else if d == 3 {
        "3"
    } else if d == 4 {
        "4"
    } else if d == 5 {
        "5"
    } else if d == 6 {
        "6"
    } else if d == 7 {
        "7"
    } else if d == 8 {
        "8"
    } else {
        "9"
    };
    assert(r@ =~= seq![decimal_digits()[d as int]]);
    r
}

fn push_two(out: &mut String, v: u32)
    requires
        v < 100,
    ensures
        final(out)@ == old(out)@ + two_digits(v as int),
{
    out.append(digit_str(v / 10));
    out.append(digit_str(v % 10));
    assert(final(out)@ =~= old(out)@ + two_digits(v as int));
}

fn push_underscore(out: &mut String)
    ensures
        final(out)@ == old(out)@ + seq!['_'],
{
    proof {
        reveal_strlit("_");
    }
    out.append("_");
    assert(final(out)@ =~= old(out)@ + seq!['_']);
}

/// Relies on chrono's `Local::now` for the current local time; the year,
/// month (1 to 12), day (1 to 31), hour (0 to 23) and minute (0 to 59) are
/// read through chrono's `Datelike` and `Timelike`, whose documentation gives
/// those ranges.
#[verifier::external_body]
fn local_now() -> (r: Stamp)
    ensures
        r.wf(),
{
    let now = chrono::Local::now();
    Stamp { year: now.year(), month: now.month(), day: now.day(), hour: now.hour(), minute: now.minute() }
}

/// The current local time at minute resolution.
pub fn now() -> (r: Stamp)
    ensures
        r.wf(),
{
    local_now()
}

} // verus!
