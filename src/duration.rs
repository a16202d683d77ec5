//! Breaking a count of seconds into days, hours, minutes and seconds, and the
//! two textual renderings of such a breakdown.

use vstd::prelude::*;
use crate::text::{dec_text, int_text, push_char, push_decimal};

verus! {

/// A count of seconds split into whole days, hours, minutes and seconds.
#[derive(Clone, Copy, Debug, PartialEq, Eq, Structural)]
pub struct Breakdown {
    pub days: u64,
    pub hours: u64,
    pub minutes: u64,
    pub seconds: u64,
}

/// The breakdown of `t` seconds by floor division.
pub open spec fn breakdown_of(t: nat) -> Breakdown {
    Breakdown {
        days: (t / 86400) as u64,
        hours: ((t / 3600) % 24) as u64,
        minutes: ((t / 60) % 60) as u64,
        seconds: (t % 60) as u64,
    }
}

/// One unit of a rendering: the number followed by the unit's letter.
pub open spec fn unit_text(n: nat, u: char) -> Seq<char> {
    dec_text(n).push(u)
}

/// Text of the units from hours down, space separated.
pub open spec fn hms_text(b: Breakdown) -> Seq<char> {
    unit_text(b.hours as nat, 'h') + seq![' '] + ms_text(b)
}

/// Text of minutes and seconds, space separated.
pub open spec fn ms_text(b: Breakdown) -> Seq<char> {
    unit_text(b.minutes as nat, 'm') + seq![' '] + unit_text(b.seconds as nat, 's')
}

/// Text of all four units, space separated.
pub open spec fn dhms_text(b: Breakdown) -> Seq<char> {
    unit_text(b.days as nat, 'd') + seq![' '] + hms_text(b)
}

/// The adaptive rendering: it starts at seconds and grows one unit at a time
/// only while the remaining count of larger units is not zero.
pub open spec fn adaptive_text(t: nat) -> Seq<char> {
    let b = breakdown_of(t);
    if t / 60 == 0 {
        unit_text(b.seconds as nat, 's')
    } else if t / 3600 == 0 {
        ms_text(b)
    } else if t / 86400 == 0 {
        hms_text(b)
    } else {
        dhms_text(b)
    }
}

/// The suppressed-leading rendering: every unit from the first non-zero one
/// among days, hours and minutes is shown; seconds are always shown.
pub open spec fn suppressed_text(t: nat) -> Seq<char> {
    let b = breakdown_of(t);
    if b.days != 0 {
        dhms_text(b)
    } else if b.hours != 0 {
        hms_text(b)
    } else if b.minutes != 0 {
        ms_text(b)
    } else {
        unit_text(b.seconds as nat, 's')
    }
}

/// Splits a non-negative count of seconds. Negative counts are not taken:
/// a duration here is never negative.
pub fn decompose(total: u64) -> (r: Breakdown)
    ensures
        r == breakdown_of(total as nat),
{
    Breakdown {
        days: total / 86400,
        hours: (total / 3600) % 24,
        minutes: (total / 60) % 60,
        seconds: total % 60,
    }
}

fn push_unit(s: &mut String, n: u64, u: char)
    ensures
        final(s)@ == old(s)@ + unit_text(n as nat, u),
{
    push_decimal(s, n);
    push_char(s, u);
    assert(final(s)@ =~= old(s)@ + unit_text(n as nat, u));
}

fn push_ms(s: &mut String, b: Breakdown)
    ensures
        final(s)@ == old(s)@ + ms_text(b),
{
    push_unit(s, b.minutes, 'm');
    push_char(s, ' ');
    push_unit(s, b.seconds, 's');
    assert(final(s)@ =~= old(s)@ + ms_text(b));
}

fn push_hms(s: &mut String, b: Breakdown)
    ensures
        final(s)@ == old(s)@ + hms_text(b),
{
    push_unit(s, b.hours, 'h');
    push_char(s, ' ');
    push_ms(s, b);
    assert(final(s)@ =~= old(s)@ + hms_text(b));
}

fn push_dhms(s: &mut String, b: Breakdown)
    ensures
        final(s)@ == old(s)@ + dhms_text(b),
{
    push_unit(s, b.days, 'd');
    push_char(s, ' ');
    push_hms(s, b);
    assert(final(s)@ =~= old(s)@ + dhms_text(b));
}

/// The adaptive rendering of `total` seconds, as shown for the running entry.
pub fn adaptive(total: u64) -> (r: String)
    ensures
        r@ == adaptive_text(total as nat),
{
    let b = decompose(total);
    let mut s = String::new();
    if total < 60 {
        push_unit(&mut s, b.seconds, 's');
    } else if total < 3600 {
        push_ms(&mut s, b);
    } else if total < 86400 {
        push_hms(&mut s, b);
    } else {
        push_dhms(&mut s, b);
    }
    assert(s@ =~= adaptive_text(total as nat));
    s
}

/// The suppressed-leading rendering of `total` seconds, as offered to report
/// queries.
pub fn suppressed(total: u64) -> (r: String)
    ensures
        r@ == suppressed_text(total as nat),
{
    let b = decompose(total);
    let mut s = String::new();
    if b.days != 0 {
        push_dhms(&mut s, b);
    } else if b.hours != 0 {
        push_hms(&mut s, b);
    } else if b.minutes != 0 {
        push_ms(&mut s, b);
    } else {
        push_unit(&mut s, b.seconds, 's');
    }
    assert(s@ =~= suppressed_text(total as nat));
    s
}

/// The elapsed time from `start` to `now` in adaptive rendering.
pub fn calc(now: i64, start: i64) -> (r: String)
    requires
        start <= now,
    ensures
        r@ == adaptive_text((now - start) as nat),
{
    let dur: u64 = (now as i128 - start as i128) as u64;
    adaptive(dur)
}

/// One argument handed to a scalar function by the store: an integer, or a
/// value of another storage class.
#[derive(Clone, Copy, Debug, PartialEq, Eq, Structural)]
pub enum ScalarArg {
    Integer(i64),
    Other,
}

/// Whether the store value holds a duration: a count of seconds is stored as
/// an integer.
pub fn is_duration(a: &ScalarArg) -> (r: bool)
    ensures
        r == (a is Integer),
{
    match a {
        ScalarArg::Integer(_) => true,
        ScalarArg::Other => false,
    }
}

/// The seconds that a scalar call works on: exactly one argument, an integer,
/// not negative. Other calls give no result.
pub open spec fn scalar_seconds(args: Seq<ScalarArg>) -> Option<nat> {
    if args.len() == 1 && args[0] is Integer && args[0]->Integer_0 >= 0 {
        Some(args[0]->Integer_0 as nat)
    } else {
        None
    }
}

fn seconds_arg(args: &Vec<ScalarArg>) -> (r: Option<u64>)
    ensures
        r matches Some(v) ==> scalar_seconds(args@) == Some(v as nat),
        r is None ==> scalar_seconds(args@) is None,
{
    if args.len() != 1 || !is_duration(&args[0]) {
        return None;
    }
    match args[0] {
        ScalarArg::Integer(v) => {
            if v < 0 {
                None
            } else {
                Some(v as u64)
            }
        },
        ScalarArg::Other => None,
    }
}

/// The `minutes(x)` scalar: the minutes within the hour.
pub fn minutes(args: &Vec<ScalarArg>) -> (r: Option<i64>)
    ensures
        r == (match scalar_seconds(args@) {
            Some(t) => Some(((t / 60) % 60) as i64),
            None => None,
        }),
{
    match seconds_arg(args) {
        Some(t) => Some(((t / 60) % 60) as i64),
        None => None,
    }
}

/// The `hours(x)` scalar: the hours within the day.
pub fn hours(args: &Vec<ScalarArg>) -> (r: Option<i64>)
    ensures
        r == (match scalar_seconds(args@) {
            Some(t) => Some(((t / 3600) % 24) as i64),
            None => None,
        }),
{
    match seconds_arg(args) {
        Some(t) => Some(((t / 3600) % 24) as i64),
        None => None,
    }
}

/// The `days(x)` scalar: the whole days.
pub fn days(args: &Vec<ScalarArg>) -> (r: Option<i64>)
    ensures
        r == (match scalar_seconds(args@) {
            Some(t) => Some((t / 86400) as i64),
            None => None,
        }),
{
    match seconds_arg(args) {
        Some(t) => Some((t / 86400) as i64),
        None => None,
    }
}

/// The `duration(x)` scalar: the suppressed-leading rendering.
pub fn duration_repr(args: &Vec<ScalarArg>) -> (r: Option<String>)
    ensures
        r is Some <==> scalar_seconds(args@) is Some,
        r matches Some(s) ==> s@ == suppressed_text(scalar_seconds(args@)->Some_0),
{
    match seconds_arg(args) {
        Some(t) => Some(suppressed(t)),
        None => None,
    }
}

} // verus!
