//! Timestamps and their page renderings.
//!
//! A timestamp carries seconds since the epoch and the author's UTC
//! offset, and is rendered in that offset (not the machine's time zone,
//! which would make the output depend on the environment).  The civil
//! date is computed from the day number with the era-based closed form
//! over floor divisions.

use vstd::prelude::*;
use vstd::arithmetic::div_mod::{
    lemma_fundamental_div_mod,
    lemma_fundamental_div_mod_converse,
};
use crate::textfmt::{dec_spec, u64_to_dec, u64_to_dec_padded, zero_pad_spec};

verus! {

/// A commit timestamp: seconds since the epoch, and the UTC offset the
/// author recorded, in minutes.
#[derive(Clone, Copy, Debug, PartialEq, Eq, Structural)]
pub struct Time {
    pub seconds: i64,
    pub offset_minutes: i32,
}

/// Floor division by a positive divisor (the quotient rounds toward
/// minus infinity, so the remainder is never negative).
fn floor_div(a: i128, b: i128) -> (q: i128)
    requires
        b > 0,
        a > i128::MIN,
    ensures
        q == a as int / b as int,
{
    if a >= 0 {
        let q = ((a as u128) / (b as u128)) as i128;
        proof {
            assert(a as int / b as int == (a as u128) as int / (b as u128) as int);
        }
        q
    } else {
        let na = (-a) as u128;
        let nb = b as u128;
        let q0 = na / nb;
        let r0 = na % nb;
        proof {
            lemma_fundamental_div_mod(na as int, nb as int);
            assert(q0 as int >= 0 && nb as int >= 1 ==> nb as int * q0 as int
                >= q0 as int) by (nonlinear_arith);
        }
        if r0 == 0 {
            proof {
                assert((a as int) == (-(q0 as int)) * (b as int) + 0) by (nonlinear_arith)
                    requires
                        (na as int) == (nb as int) * (q0 as int) + (r0 as int),
                        r0 as int == 0,
                        a as int == -(na as int),
                        b as int == nb as int,
                ;
                lemma_fundamental_div_mod_converse(a as int, b as int, -(q0 as int), 0);
            }
            -(q0 as i128)
        } else {
            proof {
                assert((a as int) == (-(q0 as int) - 1) * (b as int) + (b as int - r0 as int))
                    by (nonlinear_arith)
                    requires
                        (na as int) == (nb as int) * (q0 as int) + (r0 as int),
                        a as int == -(na as int),
                        b as int == nb as int,
                ;
                lemma_fundamental_div_mod_converse(
                    a as int,
                    b as int,
                    -(q0 as int) - 1,
                    b as int - r0 as int,
                );
            }
            -(q0 as i128) - 1
        }
    }
}

/// The moment a timestamp names, shifted into its own UTC offset.
pub open spec fn local_secs(t: Time) -> int {
    t.seconds + t.offset_minutes * 60
}

/// The day number (days since the epoch, floor) of a timestamp.
pub open spec fn epoch_days(t: Time) -> int {
    local_secs(t) / 86400
}

/// The second of the day of a timestamp.
pub open spec fn second_of_day(t: Time) -> int {
    local_secs(t) % 86400
}

/// The civil `(year, month, day)` of a day number, by the era-based
/// closed form: an era is 146097 days (400 years); the year of era and
/// day of year follow from floor divisions, and the internal month
/// count starts in March so the leap day falls last.
pub open spec fn civil_of_days(z: int) -> (int, int, int) {
    let z2 = z + 719468;
    let era = z2 / 146097;
    let doe = z2 % 146097;
    let yoe = (doe - doe / 1460 + doe / 36524 - doe / 146096) / 365;
    let y = yoe + era * 400;
    let doy = doe - (365 * yoe + yoe / 4 - yoe / 100);
    let mp = (5 * doy + 2) / 153;
    let d = doy - (153 * mp + 2) / 5 + 1;
    let m = if mp < 10 {
        mp + 3
    } else {
        mp - 9
    };
    (
        if m <= 2 {
            y + 1
        } else {
            y
        },
        m,
        d,
    )
}

/// The weekday of a day number: 0 is Sunday (day 0, 1970-01-01, was a
/// Thursday, weekday 4).
pub open spec fn weekday_of_days(z: int) -> int {
    (z + 4) % 7
}

/// Computes the civil date of a day number.
fn civil_from_days(z: i128) -> (r: (i128, u64, u64))
    requires
        -200000000000000 <= z <= 200000000000000,
    ensures
        (r.0 as int, r.1 as int, r.2 as int) == civil_of_days(z as int),
        1 <= r.1 <= 12,
        1 <= r.2 <= 31,
        -600000000000 <= r.0 <= 600000000000,
{
    let z2 = z + 719468;
    let era = floor_div(z2, 146097);
    let doe = z2 - era * 146097;
    proof {
        lemma_fundamental_div_mod(z2 as int, 146097);
    }
    let t1 = floor_div(doe, 1460);
    let t2 = floor_div(doe, 36524);
    let t3 = floor_div(doe, 146096);
    let yoe = floor_div(doe - t1 + t2 - t3, 365);
    proof {
        lemma_fundamental_div_mod((doe - t1 + t2 - t3) as int, 365);
    }
    let y = yoe + era * 400;
    let t4 = floor_div(yoe, 4);
    let t5 = floor_div(yoe, 100);
    let doy = doe - (365 * yoe + t4 - t5);
    proof {
        lemma_fundamental_div_mod(doe as int, 1460);
        lemma_fundamental_div_mod(doe as int, 36524);
        lemma_fundamental_div_mod(doe as int, 146096);
        lemma_fundamental_div_mod(yoe as int, 4);
        lemma_fundamental_div_mod(yoe as int, 100);
        assert(0 <= doy <= 365);
    }
    let mp = floor_div(5 * doy + 2, 153);
    let d = doy - floor_div(153 * mp + 2, 5) + 1;
    proof {
        lemma_fundamental_div_mod((5 * doy + 2) as int, 153);
        lemma_fundamental_div_mod((153 * mp + 2) as int, 5);
        assert(0 <= mp <= 11);
        assert(1 <= d <= 31);
    }
    let m = if mp < 10 {
        mp + 3
    } else {
        mp - 9
    };
    let yy = if m <= 2 {
        y + 1
    } else {
        y
    };
    (yy, m as u64, d as u64)
}

/// The short English month name, `m` from 1 to 12.
pub open spec fn month_name_spec(m: int) -> Seq<char> {
    if m == 1 {
        "Jan"@
    } else if m == 2 {
        "Feb"@
    } else if m == 3 {
        "Mar"@
    } else if m == 4 {
        "Apr"@
    } else if m == 5 {
        "May"@
    } else if m == 6 {
        "Jun"@
    } else if m == 7 {
        "Jul"@
    } else if m == 8 {
        "Aug"@
    } else if m == 9 {
        "Sep"@
    } else if m == 10 {
        "Oct"@
    } else if m == 11 {
        "Nov"@
    } else {
        "Dec"@
    }
}

/// The short English weekday name, `wd` from 0 (Sunday) to 6.
pub open spec fn weekday_name_spec(wd: int) -> Seq<char> {
    if wd == 0 {
        "Sun"@
    } else if wd == 1 {
        "Mon"@
    } else if wd == 2 {
        "Tue"@
    } else if wd == 3 {
        "Wed"@
    } else if wd == 4 {
        "Thu"@
    } else if wd == 5 {
        "Fri"@
    } else {
        "Sat"@
    }
}

fn month_name(m: u64) -> (r: &'static str)
    requires
        1 <= m <= 12,
    ensures
        r@ == month_name_spec(m as int),
{
    if m == 1 {
        "Jan"
    } else if m == 2 {
        "Feb"
    } else if m == 3 {
        "Mar"
    } else if m == 4 {
        "Apr"
    } else if m == 5 {
        "May"
    } else if m == 6 {
        "Jun"
    } else if m == 7 {
        "Jul"
    } else if m == 8 {
        "Aug"
    } else if m == 9 {
        "Sep"
    } else if m == 10 {
        "Oct"
    } else if m == 11 {
        "Nov"
    } else {
        "Dec"
    }
}

fn weekday_name(wd: u64) -> (r: &'static str)
    requires
        wd <= 6,
    ensures
        r@ == weekday_name_spec(wd as int),
{
    if wd == 0 {
        "Sun"
    } else if wd == 1 {
        "Mon"
    } else if wd == 2 {
        "Tue"
    } else if wd == 3 {
        "Wed"
    } else if wd == 4 {
        "Thu"
    } else if wd == 5 {
        "Fri"
    } else {
        "Sat"
    }
}

/// A number zero-padded to two digits.
pub open spec fn pad2_spec(n: int) -> Seq<char> {
    zero_pad_spec(dec_spec(n), 2)
}

/// A year: zero-padded to four digits, with a minus sign before the
/// digits when negative.
pub open spec fn year_spec(y: int) -> Seq<char> {
    if y >= 0 {
        zero_pad_spec(dec_spec(y), 4)
    } else {
        "-"@ + dec_spec(-y)
    }
}

/// The civil clock parts of a timestamp: hour, minute, second.
pub open spec fn hour_spec(t: Time) -> int {
    second_of_day(t) / 3600
}

pub open spec fn minute_spec(t: Time) -> int {
    second_of_day(t) % 3600 / 60
}

pub open spec fn sec_spec(t: Time) -> int {
    second_of_day(t) % 60
}

/// `YYYY-MM-DD hh:mm`, the machine-readable form.
pub open spec fn date_time_spec(t: Time) -> Seq<char> {
    let c = civil_of_days(epoch_days(t));
    year_spec(c.0) + "-"@ + pad2_spec(c.1) + "-"@ + pad2_spec(c.2) + " "@ + pad2_spec(
        hour_spec(t),
    ) + ":"@ + pad2_spec(minute_spec(t))
}

/// `DD/MM/YYYY hh:mm`, the short human-readable form.
pub open spec fn date_spec(t: Time) -> Seq<char> {
    let c = civil_of_days(epoch_days(t));
    pad2_spec(c.2) + "/"@ + pad2_spec(c.1) + "/"@ + year_spec(c.0) + " "@ + pad2_spec(
        hour_spec(t),
    ) + ":"@ + pad2_spec(minute_spec(t))
}

/// The sign character of the recorded UTC offset.
pub open spec fn offset_sign_spec(t: Time) -> Seq<char> {
    if t.offset_minutes < 0 {
        "-"@
    } else {
        "+"@
    }
}

/// The whole hours of the recorded UTC offset, zero-padded to four
/// digits.
pub open spec fn offset_hours_spec(t: Time) -> Seq<char> {
    zero_pad_spec(dec_spec(abs_offset_minutes(t) / 60), 4)
}

pub open spec fn abs_offset_minutes(t: Time) -> int {
    if t.offset_minutes < 0 {
        -(t.offset_minutes as int)
    } else {
        t.offset_minutes as int
    }
}

/// `Www, DD Mon YYYY hh:mm:ss +hhhh`, the long human-readable form.
pub open spec fn full_date_spec(t: Time) -> Seq<char> {
    let c = civil_of_days(epoch_days(t));
    weekday_name_spec(weekday_of_days(epoch_days(t))) + ", "@ + pad2_spec(c.2) + " "@
        + month_name_spec(c.1) + " "@ + year_spec(c.0) + " "@ + pad2_spec(hour_spec(t))
        + ":"@ + pad2_spec(minute_spec(t)) + ":"@ + pad2_spec(sec_spec(t)) + " "@
        + offset_sign_spec(t) + offset_hours_spec(t)
}

/// The civil parts of a timestamp, computed once for the renderers:
/// year, month, day, weekday, hour, minute, second.
fn civil_parts(t: Time) -> (r: (i64, u64, u64, u64, u32, u32, u32))
    ensures
        r.0 as int == civil_of_days(epoch_days(t)).0,
        r.1 as int == civil_of_days(epoch_days(t)).1,
        r.2 as int == civil_of_days(epoch_days(t)).2,
        r.3 as int == weekday_of_days(epoch_days(t)),
        r.4 as int == hour_spec(t),
        r.5 as int == minute_spec(t),
        r.6 as int == sec_spec(t),
        1 <= r.1 <= 12,
        1 <= r.2 <= 31,
        r.3 <= 6,
        r.4 < 24,
        r.5 < 60,
        r.6 < 60,
{
    let secs: i128 = (t.seconds as i128) + (t.offset_minutes as i128) * 60;
    let days = floor_div(secs, 86400);
    let sod = (secs - days * 86400) as u32;
    proof {
        lemma_fundamental_div_mod(secs as int, 86400);
    }
    let (y, m, d) = civil_from_days(days);
    let wd = ((days + 4) - floor_div(days + 4, 7) * 7) as u64;
    proof {
        lemma_fundamental_div_mod((days + 4) as int, 7);
    }
    let h = sod / 3600;
    let mi = (sod % 3600) / 60;
    let s = sod % 60;
    (y as i64, m, d, wd, h, mi, s)
}

/// Renders a year.
fn render_year(y: i64) -> (out: String)
    ensures
        out@ == year_spec(y as int),
{
    if y >= 0 {
        u64_to_dec_padded(y as u64, 4)
    } else {
        let mut out = String::new();
        out.append("-");
        out.append(u64_to_dec((-(y as i128)) as u64).as_str());
        proof {
            assert(out@ =~= year_spec(y as int));
        }
        out
    }
}

/// A timestamp rendered as `YYYY-MM-DD hh:mm`.
#[derive(Clone, Copy, Debug)]
pub struct DateTime(pub Time);

impl DateTime {
    pub fn render(&self) -> (out: String)
        ensures
            out@ == date_time_spec(self.0),
    {
        let (y, m, d, _wd, h, mi, _s) = civil_parts(self.0);
        let mut out = render_year(y);
        out.append("-");
        out.append(u64_to_dec_padded(m, 2).as_str());
        out.append("-");
        out.append(u64_to_dec_padded(d, 2).as_str());
        out.append(" ");
        out.append(u64_to_dec_padded(h as u64, 2).as_str());
        out.append(":");
        out.append(u64_to_dec_padded(mi as u64, 2).as_str());
        out
    }
}

/// A timestamp rendered as `DD/MM/YYYY hh:mm`.
#[derive(Clone, Copy, Debug)]
pub struct Date(pub Time);

impl Date {
    pub fn render(&self) -> (out: String)
        ensures
            out@ == date_spec(self.0),
    {
        let (y, m, d, _wd, h, mi, _s) = civil_parts(self.0);
        let mut out = u64_to_dec_padded(d, 2);
        out.append("/");
        out.append(u64_to_dec_padded(m, 2).as_str());
        out.append("/");
        out.append(render_year(y).as_str());
        out.append(" ");
        out.append(u64_to_dec_padded(h as u64, 2).as_str());
        out.append(":");
        out.append(u64_to_dec_padded(mi as u64, 2).as_str());
        out
    }
}

/// A timestamp rendered as `Www, DD Mon YYYY hh:mm:ss` with the
/// recorded UTC offset appended.
#[derive(Clone, Copy, Debug)]
pub struct FullDate(pub Time);

impl FullDate {
    pub fn render(&self) -> (out: String)
        ensures
            out@ == full_date_spec(self.0),
    {
        let (y, m, d, wd, h, mi, s) = civil_parts(self.0);
        let mut out = weekday_name(wd).to_owned();
        out.append(", ");
        out.append(u64_to_dec_padded(d, 2).as_str());
        out.append(" ");
        out.append(month_name(m));
        out.append(" ");
        out.append(render_year(y).as_str());
        out.append(" ");
        out.append(u64_to_dec_padded(h as u64, 2).as_str());
        out.append(":");
        out.append(u64_to_dec_padded(mi as u64, 2).as_str());
        out.append(":");
        out.append(u64_to_dec_padded(s as u64, 2).as_str());
        out.append(" ");
        let t = self.0;
        let off_abs: u64 = if t.offset_minutes < 0 {
            out.append("-");
            (-(t.offset_minutes as i64)) as u64
        } else {
            out.append("+");
            t.offset_minutes as u64
        };
        out.append(u64_to_dec_padded(off_abs / 60, 4).as_str());
        out
    }
}

} // verus!
