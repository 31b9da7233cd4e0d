//! The `uptime` command: how long the bot has been running.
use vstd::prelude::*;

use crate::text::{decimal, push_decimal_i64};

verus! {

/// `a / b` rounded toward zero, as Rust divides integers (`b > 0`).
pub open spec fn trunc_div(a: int, b: int) -> int {
    if a >= 0 {
        a / b
    } else {
        -((-a) / b)
    }
}

/// The remainder of `trunc_div`, with the sign of `a`, as Rust's `%`.
pub open spec fn trunc_rem(a: int, b: int) -> int {
    a - b * trunc_div(a, b)
}

/// An uptime of `s` seconds as `"{days}d {hours}h {minutes}m {seconds}s"`:
/// whole days, then the hours, minutes and seconds left over, as a duration's
/// `whole_days`, `whole_hours % 24`, `whole_minutes % 60` and
/// `whole_seconds % 60` give them.
pub open spec fn uptime_spec(s: int) -> Seq<char> {
    decimal(trunc_div(s, 86400)) + "d "@ + decimal(trunc_rem(trunc_div(s, 3600), 24)) + "h "@
        + decimal(trunc_rem(trunc_div(s, 60), 60)) + "m "@ + decimal(trunc_rem(s, 60)) + "s"@
}

/// The parts of a non-negative uptime add back up to it, and hours, minutes
/// and seconds stay below a day, an hour and a minute.
pub proof fn lemma_uptime_parts(s: int)
    requires
        s >= 0,
    ensures
        trunc_div(s, 86400) * 86400 + trunc_rem(trunc_div(s, 3600), 24) * 3600 + trunc_rem(
            trunc_div(s, 60),
            60,
        ) * 60 + trunc_rem(s, 60) == s,
        0 <= trunc_rem(trunc_div(s, 3600), 24) < 24,
        0 <= trunc_rem(trunc_div(s, 60), 60) < 60,
        0 <= trunc_rem(s, 60) < 60,
{
    let d = s / 86400;
    let h = s / 3600;
    let m = s / 60;
    assert(h / 24 == d);
    assert(m / 60 == h);
}

/// `m / d`, negated when `negative` (as Rust divides a negative value).
fn signed_part(negative: bool, m: u64, d: u64, r: u64) -> (v: i64)
    requires
        d > 0,
        r > 0,
        m <= 9223372036854775808,
        !negative ==> m <= 9223372036854775807,
    ensures
        v == (if negative {
            -(((m / d) % r) as int)
        } else {
            ((m / d) % r) as int
        }),
{
    let q = (m / d) % r;
    assert(q <= m) by (nonlinear_arith)
        requires
            d > 0,
            r > 0,
            q == (m / d) % r,
    ;
    if q == 9223372036854775808 {
        return i64::MIN;
    }
    if negative {
        -(q as i64)
    } else {
        q as i64
    }
}

/// The uptime text for `seconds` (see `uptime_spec`).
pub fn uptime_text(seconds: i64) -> (r: String)
    ensures
        r@ == uptime_spec(seconds as int),
{
    let negative = seconds < 0;
    let m: u64 = if seconds == i64::MIN {
        9223372036854775808u64
    } else if negative {
        (-seconds) as u64
    } else {
        seconds as u64
    };
    let days = signed_part(negative, m, 86400, 18446744073709551615);
    let hours = signed_part(negative, m, 3600, 24);
    let minutes = signed_part(negative, m, 60, 60);
    let secs = signed_part(negative, m, 1, 60);
    proof {
        let s = seconds as int;
        assert(m / 86400 < 18446744073709551615);
        assert(days == trunc_div(s, 86400));
        assert(hours == trunc_rem(trunc_div(s, 3600), 24));
        assert(minutes == trunc_rem(trunc_div(s, 60), 60));
        assert(secs == trunc_rem(s, 60));
    }
    let mut out = String::new();
    push_decimal_i64(&mut out, days);
    out.append("d ");
    push_decimal_i64(&mut out, hours);
    out.append("h ");
    push_decimal_i64(&mut out, minutes);
    out.append("m ");
    push_decimal_i64(&mut out, secs);
    out.append("s");
    out
}

/// The answer of `uptime`, given the seconds since the bot started, if its
/// start time is known.
pub fn cmd(elapsed_seconds: Option<i64>) -> (r: String)
    ensures
        match elapsed_seconds {
            Some(s) => r@ == uptime_spec(s as int),
            None => r@ == "Error: Start time not set."@,
        },
{
    match elapsed_seconds {
        Some(s) => uptime_text(s),
        None => {
            let mut r = String::new();
            r.append("Error: Start time not set.");
            r
        },
    }
}

} // verus!
