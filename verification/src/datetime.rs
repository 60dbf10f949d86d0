//! The time sampler: captures the current local time and renders it as
//! weekday, abbreviated month, date and 24-hour time. Only the clock read
//! itself is trusted; the rendering is verified.

use vstd::prelude::*;

use crate::text;

use chrono::Datelike;
use chrono::Timelike;

verus! {

/// A local calendar time broken into plain fields.
#[derive(Debug, PartialEq, Clone, Copy)]
pub struct LocalTime {
    /// Calendar year.
    pub year: i32,
    /// Month, `1..=12`.
    pub month: u8,
    /// Day of month, `1..=31`.
    pub day: u8,
    /// Hour, `0..=23`.
    pub hour: u8,
    /// Minute, `0..=59`.
    pub minute: u8,
    /// Days since Monday, `0..=6`.
    pub weekday: u8,
}

impl LocalTime {
    /// The ranges a calendar time's fields respect.
    pub open spec fn wf(self) -> bool {
        &&& 1 <= self.month <= 12
        &&& 1 <= self.day <= 31
        &&& self.hour <= 23
        &&& self.minute <= 59
        &&& self.weekday <= 6
    }
}

/// Relies on chrono's `Local::now` with the `Datelike`, `Timelike` and
/// `Weekday` accessors: the field ranges are the ones chrono documents.
#[verifier::external_body]
fn local_now() -> (t: LocalTime)
    ensures
        t.wf(),
{
    let now = chrono::Local::now();
    LocalTime {
        year: now.year(),
        month: now.month() as u8,
        day: now.day() as u8,
        hour: now.hour() as u8,
        minute: now.minute() as u8,
        weekday: now.weekday().num_days_from_monday() as u8,
    }
}

/// The full weekday name, Monday first.
pub open spec fn weekday_name(w: int) -> Seq<char> {
    if w == 0 {
        "Monday"@
    } else if w == 1 {
        "Tuesday"@
    } else if w == 2 {
        "Wednesday"@
    } else if w == 3 {
        "Thursday"@
    } else if w == 4 {
        "Friday"@
    } else if w == 5 {
        "Saturday"@
    } else {
        "Sunday"@
    }
}

/// The three-letter month name.
pub open spec fn month_abbr(m: int) -> Seq<char> {
    if m == 1 {
        "Jan"@
    } else if m == 2 {
        "Feb"@
    } else if m == 3 {
        "Mar"@
    } else if m == 4 {
        "Apr"@
    } else if m == 5 {
        "May"@
    } else if m == 6 {
        "Jun"@
    } else if m == 7 {
        "Jul"@
    } else if m == 8 {
        "Aug"@
    } else if m == 9 {
        "Sep"@
    } else if m == 10 {
        "Oct"@
    } else if m == 11 {
        "Nov"@
    } else {
        "Dec"@
    }
}

/// A year rendered at least four characters wide, zero-padded.
pub open spec fn pad4_seq(n: int) -> Seq<char> {
    if 0 <= n < 10 {
        "000"@ + text::dec_seq(n)
    } else if 10 <= n < 100 {
        "00"@ + text::dec_seq(n)
    } else if 100 <= n < 1000 {
        "0"@ + text::dec_seq(n)
    } else {
        text::int_seq(n)
    }
}

/// The displayed form of a local time: full weekday, month abbreviation,
/// zero-padded date and 24-hour time.
pub open spec fn datetime_text(t: LocalTime) -> Seq<char> {
    weekday_name(t.weekday as int) + " "@ + month_abbr(t.month as int) + " "@ + pad4_seq(
        t.year as int,
    ) + "-"@ + text::pad2_seq(t.month as int) + "-"@ + text::pad2_seq(t.day as int) + " "@
        + text::pad2_seq(t.hour as int) + ":"@ + text::pad2_seq(t.minute as int)
}

/// The full weekday name.
fn weekday_str(w: u8) -> (r: &'static str)
    requires
        w <= 6,
    ensures
        r@ == weekday_name(w as int),
{
    match w {
        0 => "Monday",
        1 => "Tuesday",
        2 => "Wednesday",
        3 => "Thursday",
        4 => "Friday",
        5 => "Saturday",
        _ => "Sunday",
    }
}

/// The three-letter month name.
fn month_str(m: u8) -> (r: &'static str)
    requires
        1 <= m <= 12,
    ensures
        r@ == month_abbr(m as int),
{
    match m {
        1 => "Jan",
        2 => "Feb",
        3 => "Mar",
        4 => "Apr",
        5 => "May",
        6 => "Jun",
        7 => "Jul",
        8 => "Aug",
        9 => "Sep",
        10 => "Oct",
        11 => "Nov",
        _ => "Dec",
    }
}

/// Renders a year at least four characters wide.
fn pad4_year(n: i32) -> (r: String)
    ensures
        r@ == pad4_seq(n as int),
{
    if 0 <= n && n < 10 {
        let mut s = String::from_str("000");
        let d = text::u64_to_dec(n as u64);
        s.append(d.as_str());
        s
    } else if 10 <= n && n < 100 {
        let mut s = String::from_str("00");
        let d = text::u64_to_dec(n as u64);
        s.append(d.as_str());
        s
    } else if 100 <= n && n < 1000 {
        let mut s = String::from_str("0");
        let d = text::u64_to_dec(n as u64);
        s.append(d.as_str());
        s
    } else {
        text::i128_to_dec(n as i128)
    }
}

/// Renders a local time in the engine's fixed pattern.
fn render_datetime(t: &LocalTime) -> (r: String)
    requires
        t.wf(),
    ensures
        r@ == datetime_text(*t),
{
    let mut out = String::from_str(weekday_str(t.weekday));
    out.append(" ");
    out.append(month_str(t.month));
    out.append(" ");
    let y = pad4_year(t.year);
    out.append(y.as_str());
    out.append("-");
    let mo = text::pad2_i128(t.month as i128);
    out.append(mo.as_str());
    out.append("-");
    let d = text::pad2_i128(t.day as i128);
    out.append(d.as_str());
    out.append(" ");
    let h = text::pad2_i128(t.hour as i128);
    out.append(h.as_str());
    out.append(":");
    let mi = text::pad2_i128(t.minute as i128);
    out.append(mi.as_str());
    out
}

/// The time sampler's state: the last rendered timestamp.
#[derive(Debug, PartialEq, Clone)]
pub struct Time {
    /// The rendered local time, empty before the first update.
    pub val: String,
}

impl Time {
    /// A sampler that has not read the clock yet; it renders as the empty
    /// string.
    pub fn init() -> (t: Time)
        ensures
            t.val@ == Seq::<char>::empty(),
    {
        Time { val: String::new() }
    }

    /// How a clock read transforms the sampler: whatever moment the clock
    /// reports, the new rendering is the fixed pattern applied to a
    /// well-formed calendar time.
    pub open spec fn step_rel(pre: Time, post: Time) -> bool {
        exists|t: LocalTime| t.wf() && post.val@ == datetime_text(t)
    }

    /// Reads the clock and renders it, as `step_rel` says.
    pub fn update(&mut self)
        ensures
            Time::step_rel(*old(self), *final(self)),
    {
        let now = local_now();
        self.val = render_datetime(&now);
    }

    /// The rendered timestamp.
    pub fn output(&self) -> (r: String)
        ensures
            r@ == self.val@,
    {
        self.val.clone()
    }
}

} // verus!
