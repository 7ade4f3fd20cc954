//! Durations as text: `1h 30m`, `1h 30m 15s`, `1h`, `1小时30分钟`.
//!
//! Hours, minutes and seconds are taken with Rust's integer division and
//! remainder, which truncate toward zero, so a negative duration shows
//! negative parts.

use vstd::prelude::*;
use crate::text::{push_signed_decimal, push_str, signed_decimal};

verus! {

/// Division truncating toward zero, as Rust's `/` on integers.
pub open spec fn tdiv(a: int, b: int) -> int {
    if a >= 0 {
        a / b
    } else {
        -((-a) / b)
    }
}

/// The remainder of [`tdiv`], as Rust's `%` on integers.
pub open spec fn trem(a: int, b: int) -> int {
    a - b * tdiv(a, b)
}

/// The whole hours of a duration in seconds.
pub open spec fn hours_of(s: int) -> int {
    tdiv(s, 3600)
}

/// The minutes past the whole hours.
pub open spec fn minutes_of(s: int) -> int {
    tdiv(trem(s, 3600), 60)
}

/// The seconds past the whole minutes.
pub open spec fn seconds_of(s: int) -> int {
    trem(s, 60)
}

/// Text of a number.
pub open spec fn num(n: int) -> Seq<char> {
    signed_decimal(n)
}

/// `1h 30m`; under an hour `30m 15s`; under a minute `15s`.
pub open spec fn short_text(s: int) -> Seq<char> {
    if hours_of(s) > 0 {
        num(hours_of(s)) + "h "@ + num(minutes_of(s)) + "m"@
    } else if minutes_of(s) > 0 {
        num(minutes_of(s)) + "m "@ + num(seconds_of(s)) + "s"@
    } else {
        num(seconds_of(s)) + "s"@
    }
}

/// `1h 30m 15s`; under an hour `30m 15s`; under a minute `15s`.
pub open spec fn full_text(s: int) -> Seq<char> {
    if hours_of(s) > 0 {
        num(hours_of(s)) + "h "@ + num(minutes_of(s)) + "m "@ + num(seconds_of(s)) + "s"@
    } else if minutes_of(s) > 0 {
        num(minutes_of(s)) + "m "@ + num(seconds_of(s)) + "s"@
    } else {
        num(seconds_of(s)) + "s"@
    }
}

/// `1h`; under an hour `30m`; under a minute `15s`.
pub open spec fn minimal_text(s: int) -> Seq<char> {
    if hours_of(s) > 0 {
        num(hours_of(s)) + "h"@
    } else if minutes_of(s) > 0 {
        num(minutes_of(s)) + "m"@
    } else {
        num(seconds_of(s)) + "s"@
    }
}

/// `1小时30分钟`; under an hour `30分钟`; under a minute `15秒`.
pub open spec fn chinese_text(s: int) -> Seq<char> {
    if hours_of(s) > 0 {
        num(hours_of(s)) + "小时"@ + num(minutes_of(s)) + "分钟"@
    } else if minutes_of(s) > 0 {
        num(minutes_of(s)) + "分钟"@
    } else {
        num(seconds_of(s)) + "秒"@
    }
}

/// `1h 30m`, or `30m` under an hour.
pub open spec fn hours_minutes_text(s: int) -> Seq<char> {
    if hours_of(s) > 0 {
        num(hours_of(s)) + "h "@ + num(minutes_of(s)) + "m"@
    } else {
        num(minutes_of(s)) + "m"@
    }
}

/// A number of minutes as `1h 30m`, or `30m` under an hour.
pub open spec fn minutes_text(m: int) -> Seq<char> {
    if tdiv(m, 60) > 0 {
        num(tdiv(m, 60)) + "h "@ + num(trem(m, 60)) + "m"@
    } else {
        num(trem(m, 60)) + "m"@
    }
}

/// A number of minutes as `1小时30分钟`, or `30分钟` under an hour.
pub open spec fn minutes_chinese_text(m: int) -> Seq<char> {
    if tdiv(m, 60) > 0 {
        num(tdiv(m, 60)) + "小时"@ + num(trem(m, 60)) + "分钟"@
    } else {
        num(trem(m, 60)) + "分钟"@
    }
}

proof fn lemma_nonneg_parts(a: int)
    requires
        a >= 0,
    ensures
        a == 3600 * (a / 3600) + 60 * ((a % 3600) / 60) + a % 60,
        0 <= (a % 3600) / 60 < 60,
        a % 60 == (a % 3600) % 60,
{
    let q = a / 3600;
    let r = a % 3600;
    assert(a == 3600 * q + r && 0 <= r < 3600) by (nonlinear_arith)
        requires
            q == a / 3600,
            r == a % 3600,
            a >= 0,
    ;
    let m = r / 60;
    let x = r % 60;
    assert(r == 60 * m + x && 0 <= x < 60 && 0 <= m < 60) by (nonlinear_arith)
        requires
            m == r / 60,
            x == r % 60,
            0 <= r < 3600,
    ;
    assert(a % 60 == x) by (nonlinear_arith)
        requires
            a == 3600 * q + 60 * m + x,
            0 <= x < 60,
            q >= 0,
            m >= 0,
    {
        assert(a == 60 * (60 * q + m) + x);
    }
}

/// The parts of a duration recombine into it: the hours, the minutes past
/// them and the seconds past those, each truncated toward zero.
pub proof fn lemma_duration_parts(a: int)
    ensures
        a == 3600 * hours_of(a) + 60 * minutes_of(a) + seconds_of(a),
        -60 < minutes_of(a) < 60,
        -60 < seconds_of(a) < 60,
        a >= 0 ==> 0 <= minutes_of(a) && 0 <= seconds_of(a),
{
    if a >= 0 {
        lemma_nonneg_parts(a);
        assert(trem(a, 3600) == a % 3600);
        assert(trem(a, 60) == a % 60);
        assert(trem(a, 3600) >= 0);
    } else {
        lemma_nonneg_parts(-a);
        assert(trem(a, 3600) == -((-a) % 3600));
        assert(trem(a, 60) == -((-a) % 60));
        assert(tdiv(trem(a, 3600), 60) == -(((-a) % 3600) / 60));
    }
}

/// The hours, minutes and seconds of a duration in seconds.
pub fn duration_parts(seconds: i64) -> (p: (i64, i64, i64))
    ensures
        p.0 == hours_of(seconds as int),
        p.1 == minutes_of(seconds as int),
        p.2 == seconds_of(seconds as int),
{
    let hours = seconds / 3600;
    let rem = seconds % 3600;
    let minutes = rem / 60;
    let secs = seconds % 60;
    (hours, minutes, secs)
}

/// Appends a number and its unit.
fn push_part(s: &mut String, n: i64, unit: &str)
    ensures
        final(s)@ == old(s)@ + num(n as int) + unit@,
{
    push_signed_decimal(s, n);
    push_str(s, unit);
}

/// A duration as `1h 30m`, `30m 15s` or `15s`.
pub fn format_duration(seconds: i64) -> (s: String)
    ensures
        s@ == short_text(seconds as int),
{
    let (h, m, x) = duration_parts(seconds);
    let mut s = String::new();
    if h > 0 {
        push_part(&mut s, h, "h ");
        push_part(&mut s, m, "m");
    } else if m > 0 {
        push_part(&mut s, m, "m ");
        push_part(&mut s, x, "s");
    } else {
        push_part(&mut s, x, "s");
    }
    assert(s@ =~= short_text(seconds as int));
    s
}

/// A duration as `1h 30m 15s`, `30m 15s` or `15s`.
pub fn format_duration_full(seconds: i64) -> (s: String)
    ensures
        s@ == full_text(seconds as int),
{
    let (h, m, x) = duration_parts(seconds);
    let mut s = String::new();
    if h > 0 {
        push_part(&mut s, h, "h ");
        push_part(&mut s, m, "m ");
        push_part(&mut s, x, "s");
    } else if m > 0 {
        push_part(&mut s, m, "m ");
        push_part(&mut s, x, "s");
    } else {
        push_part(&mut s, x, "s");
    }
    assert(s@ =~= full_text(seconds as int));
    s
}

/// A duration as `1h`, `30m` or `15s`.
pub fn format_duration_short(seconds: i64) -> (s: String)
    ensures
        s@ == minimal_text(seconds as int),
{
    let (h, m, x) = duration_parts(seconds);
    let mut s = String::new();
    if h > 0 {
        push_part(&mut s, h, "h");
    } else if m > 0 {
        push_part(&mut s, m, "m");
    } else {
        push_part(&mut s, x, "s");
    }
    assert(s@ =~= minimal_text(seconds as int));
    s
}

/// A duration as `1小时30分钟`, `30分钟` or `15秒`.
pub fn format_duration_chinese(seconds: i64) -> (s: String)
    ensures
        s@ == chinese_text(seconds as int),
{
    let (h, m, x) = duration_parts(seconds);
    let mut s = String::new();
    if h > 0 {
        push_part(&mut s, h, "小时");
        push_part(&mut s, m, "分钟");
    } else if m > 0 {
        push_part(&mut s, m, "分钟");
    } else {
        push_part(&mut s, x, "秒");
    }
    assert(s@ =~= chinese_text(seconds as int));
    s
}

/// A duration as `1h 30m`, or `30m` under an hour.
pub fn format_hours_minutes(seconds: i64) -> (s: String)
    ensures
        s@ == hours_minutes_text(seconds as int),
{
    let (h, m, _x) = duration_parts(seconds);
    let mut s = String::new();
    if h > 0 {
        push_part(&mut s, h, "h ");
        push_part(&mut s, m, "m");
    } else {
        push_part(&mut s, m, "m");
    }
    assert(s@ =~= hours_minutes_text(seconds as int));
    s
}

/// A number of minutes as `1h 30m`, or `30m` under an hour.
pub fn format_minutes(minutes: i32) -> (s: String)
    ensures
        s@ == minutes_text(minutes as int),
{
    let h = minutes / 60;
    let m = minutes % 60;
    let mut s = String::new();
    if h > 0 {
        push_part(&mut s, h as i64, "h ");
        push_part(&mut s, m as i64, "m");
    } else {
        push_part(&mut s, m as i64, "m");
    }
    assert(s@ =~= minutes_text(minutes as int));
    s
}

/// A number of minutes as `1小时30分钟`, or `30分钟` under an hour.
pub fn format_minutes_chinese(minutes: i32) -> (s: String)
    ensures
        s@ == minutes_chinese_text(minutes as int),
{
    let h = minutes / 60;
    let m = minutes % 60;
    let mut s = String::new();
    if h > 0 {
        push_part(&mut s, h as i64, "小时");
        push_part(&mut s, m as i64, "分钟");
    } else {
        push_part(&mut s, m as i64, "分钟");
    }
    assert(s@ =~= minutes_chinese_text(minutes as int));
    s
}

} // verus!
