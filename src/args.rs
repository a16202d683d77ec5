//! Command-line values: a duration written as `[[h:]m:]s`, and a local date
//! and time.

use vstd::prelude::*;
use crate::text::{dec_text, push_char, push_decimal};
use chrono::TimeZone;

verus! {

/// The value of a string of decimal digits.
pub open spec fn digits_value(s: Seq<char>) -> nat
    decreases s.len(),
{
    if s.len() == 0 {
        0
    } else {
        digits_value(s.drop_last()) * 10 + (s.last() as u32 - 48) as nat
    }
}

/// Every character is a decimal digit.
pub open spec fn all_digits(s: Seq<char>) -> bool {
    forall|i: int| 0 <= i < s.len() ==> '0' <= #[trigger] s[i] && s[i] <= '9'
}

/// What parsing a `u64` from `s` gives: an optional `+`, then one or more
/// decimal digits whose value fits.
pub open spec fn u64_parse(s: Seq<char>) -> Option<u64> {
    let body = if s.len() > 0 && s[0] == '+' { s.drop_first() } else { s };
    if body.len() > 0 && all_digits(body) && digits_value(body) <= u64::MAX {
        Some(digits_value(body) as u64)
    } else {
        None
    }
}

/// Relies on `<u64 as FromStr>::from_str`: an optional `+` and then decimal
/// digits only, of a value that fits; anything else is an error.
#[verifier::external_body]
fn parse_u64(s: &str) -> (r: Option<u64>)
    ensures
        r == u64_parse(s@),
{
    s.parse::<u64>().ok()
}

/// The `Debug` text of a string: quoted, with escapes.
pub uninterp spec fn debug_text_of(s: Seq<char>) -> Seq<char>;

/// Relies on `<str as Debug>::fmt`: the quoted, escaped text of a string, a
/// function of the string alone.
#[verifier::external_body]
fn debug_str(s: &str) -> (r: String)
    ensures
        r@ == debug_text_of(s@),
{
    format!("{s:?}")
}

/// The pieces of `s` between the `:` separators; one piece when there is none.
pub open spec fn split_colon(s: Seq<char>) -> Seq<Seq<char>>
    decreases s.len(),
{
    if s.len() == 0 {
        seq![Seq::empty()]
    } else {
        let r = split_colon(s.drop_last());
        if s.last() == ':' {
            r.push(Seq::empty())
        } else {
            r.update(r.len() - 1, r.last().push(s.last()))
        }
    }
}

proof fn lemma_split_nonempty(s: Seq<char>)
    ensures
        split_colon(s).len() >= 1,
    decreases s.len(),
{
    if s.len() > 0 {
        lemma_split_nonempty(s.drop_last());
    }
}

/// A count of whole seconds.
#[derive(Clone, Copy, Debug, PartialEq, Eq, Structural)]
pub struct Duration {
    pub seconds: u64,
}

/// The error for a text of more than three components.
pub open spec fn too_many_text(s: Seq<char>) -> Seq<char> {
    debug_text_of(s) + " has to many components"@
}

/// The error for a component that is not a number.
pub open spec fn not_number_text(s: Seq<char>, part: Seq<char>) -> Seq<char> {
    debug_text_of(s) + " is invalid because "@ + debug_text_of(part) + " is not a number"@
}

/// The error for a component of 60 or more.
pub open spec fn too_large_text(s: Seq<char>, t: nat) -> Seq<char> {
    debug_text_of(s) + " is invalid because "@ + dec_text(t) + " >= 60"@
}

/// The seconds that the components give, each read as a number below 60 and
/// worth 60 times the next one; or the error for the first one that is not.
pub open spec fn parts_seconds(s: Seq<char>, parts: Seq<Seq<char>>) -> Result<nat, Seq<char>>
    decreases parts.len(),
{
    if parts.len() == 0 {
        Ok(0)
    } else {
        match parts_seconds(s, parts.drop_last()) {
            Err(e) => Err(e),
            Ok(acc) => match u64_parse(parts.last()) {
                None => Err(not_number_text(s, parts.last())),
                Some(t) => if t >= 60 {
                    Err(too_large_text(s, t as nat))
                } else {
                    Ok(acc * 60 + t as nat)
                },
            },
        }
    }
}

/// What parsing a duration from `s` gives.
pub open spec fn duration_parse(s: Seq<char>) -> Result<nat, Seq<char>> {
    if split_colon(s).len() > 3 {
        Err(too_many_text(s))
    } else {
        parts_seconds(s, split_colon(s))
    }
}

proof fn lemma_parts_bound(s: Seq<char>, parts: Seq<Seq<char>>)
    ensures
        parts_seconds(s, parts) matches Ok(v) ==> v < pow60(parts.len()),
    decreases parts.len(),
{
    if parts.len() > 0 {
        lemma_parts_bound(s, parts.drop_last());
        let n = parts.len() - 1;
        if let Ok(acc) = parts_seconds(s, parts.drop_last()) {
            assert(acc * 60 + 59 < pow60(parts.len())) by (nonlinear_arith)
                requires
                    acc < pow60(n as nat),
                    pow60(parts.len()) == pow60(n as nat) * 60,
            ;
        }
    }
}

/// The first component that fails decides the error.
proof fn lemma_first_error_stays(s: Seq<char>, parts: Seq<Seq<char>>, k: int)
    requires
        0 <= k <= parts.len(),
        parts_seconds(s, parts.take(k)) is Err,
    ensures
        parts_seconds(s, parts) == parts_seconds(s, parts.take(k)),
    decreases parts.len(),
{
    if k == parts.len() {
        assert(parts.take(k) =~= parts);
    } else {
        assert(parts.drop_last().take(k) =~= parts.take(k));
        lemma_first_error_stays(s, parts.drop_last(), k);
    }
}

/// 60 to the power `n`.
pub open spec fn pow60(n: nat) -> nat
    decreases n,
{
    if n == 0 {
        1
    } else {
        pow60((n - 1) as nat) * 60
    }
}

/// The texts of a sequence of strings.
pub open spec fn strings_view(v: Seq<String>) -> Seq<Seq<char>> {
    v.map_values(|p: String| p@)
}

/// Splits `s` at each `:`.
fn split_at_colons(s: &str) -> (r: Vec<String>)
    ensures
        strings_view(r@) == split_colon(s@),
{
    let mut parts: Vec<String> = Vec::new();
    let mut cur = String::new();
    let n = s.unicode_len();
    let mut i: usize = 0;
    while i < n
        invariant
            n == s@.len(),
            i <= n,
            strings_view(parts@).push(cur@) == split_colon(s@.take(i as int)),
        decreases n - i,
    {
        let c = s.get_char(i);
        proof {
            assert(s@.take(i as int + 1).drop_last() =~= s@.take(i as int));
            lemma_split_nonempty(s@.take(i as int));
        }
        let ghost before = strings_view(parts@);
        if c == ':' {
            let done = cur;
            parts.push(done);
            cur = String::new();
            assert(strings_view(parts@) =~= before.push(done@));
            assert(strings_view(parts@).push(cur@) =~= split_colon(s@.take(i as int + 1)));
        } else {
            push_char(&mut cur, c);
            assert(strings_view(parts@).push(cur@) =~= split_colon(s@.take(i as int + 1)));
        }
        i += 1;
    }
    assert(s@.take(i as int) =~= s@);
    let ghost before = strings_view(parts@);
    parts.push(cur);
    assert(strings_view(parts@) =~= before.push(cur@));
    parts
}

impl Duration {
    /// Parses `[[h:]m:]s`, each component a number below 60.
    pub fn parse(s: &str) -> (r: Result<Duration, String>)
        ensures
            duration_parse(s@) matches Ok(v) ==> r matches Ok(d) && d.seconds == v,
            duration_parse(s@) matches Err(e) ==> r matches Err(m) && m@ == e,
    {
        let parts = split_at_colons(s);
        let ghost pv = strings_view(parts@);
        if parts.len() > 3 {
            let m = debug_str(s);
            return Err(m.concat(" has to many components"));
        }
        let mut seconds: u64 = 0;
        let mut i: usize = 0;
        while i < parts.len()
            invariant
                i <= parts.len() <= 3,
                pv == strings_view(parts@),
                pv == split_colon(s@),
                parts_seconds(s@, pv.take(i as int)) == Ok::<nat, Seq<char>>(seconds as nat),
            decreases parts.len() - i,
        {
            proof {
                assert(pv.take(i as int + 1).drop_last() =~= pv.take(i as int));
                assert(pv.take(i as int + 1).last() == parts@[i as int]@);
                lemma_parts_bound(s@, pv.take(i as int));
                assert(pow60(0) == 1);
                assert(pow60(1) == 60);
                assert(pow60(2) == 3600);
            }
            let part = parts[i].as_str();
            let t = match parse_u64(part) {
                None => {
                    let mut m = debug_str(s);
                    m.append(" is invalid because ");
                    let p = debug_str(part);
                    m.append(p.as_str());
                    m.append(" is not a number");
                    proof {
                        assert(m@ =~= not_number_text(s@, pv[i as int]));
                        assert(part@ == pv[i as int]);
                        assert(parts_seconds(s@, pv.take(i as int + 1)) == Err::<nat, Seq<char>>(m@));
                        lemma_first_error_stays(s@, pv, i as int + 1);
                    }
                    return Err(m);
                },
                Some(t) => t,
            };
            if t >= 60 {
                let mut m = debug_str(s);
                m.append(" is invalid because ");
                push_decimal(&mut m, t);
                m.append(" >= 60");
                proof {
                    assert(m@ =~= too_large_text(s@, t as nat));
                    assert(part@ == pv[i as int]);
                    assert(parts_seconds(s@, pv.take(i as int + 1)) == Err::<nat, Seq<char>>(m@));
                    lemma_first_error_stays(s@, pv, i as int + 1);
                }
                return Err(m);
            }
            seconds = seconds * 60 + t;
            i += 1;
        }
        assert(pv.take(i as int) =~= pv);
        Ok(Duration { seconds })
    }
}

impl std::str::FromStr for Duration {
    type Err = String;

    fn from_str(s: &str) -> Result<Duration, String> {
        Duration::parse(s)
    }
}

#[verifier::external_type_specification]
#[verifier::external_body]
pub struct ExNaiveDateTime(chrono::NaiveDateTime);

#[verifier::external_type_specification]
#[verifier::external_body]
pub struct ExParseError(chrono::ParseError);

/// Relies on chrono's `FromStr` for `NaiveDateTime`: reads a date and time
/// without a time zone. Nothing is promised of what it accepts.
#[verifier::external_body]
fn parse_naive(s: &str) -> (r: Result<chrono::NaiveDateTime, chrono::ParseError>) {
    s.parse::<chrono::NaiveDateTime>()
}

/// Relies on chrono's `Display` for `ParseError`: the error's text.
#[verifier::external_body]
fn parse_error_text(e: &chrono::ParseError) -> (r: String) {
    e.to_string()
}

/// Relies on chrono's `Local::from_local_datetime`: the instant (seconds since
/// the epoch and the nanoseconds past them) when the machine's time zone maps
/// the local date and time to exactly one instant, else `None`. This depends
/// on the machine's time zone: nothing is promised.
#[verifier::external_body]
fn local_instant(n: &chrono::NaiveDateTime) -> (r: Option<(i64, u32)>) {
    match chrono::Local.from_local_datetime(n) {
        chrono::MappedLocalTime::Single(t) => Some((t.timestamp(), t.timestamp_subsec_nanos())),
        _ => None,
    }
}

/// The start of the error for a text that is not a date and time; the
/// reader's own message follows.
pub open spec fn date_error_prefix(s: Seq<char>) -> Seq<char> {
    debug_text_of(s) + " is not a date time: "@
}

/// An instant given on the command line in local time.
#[derive(Clone, Copy, Debug, PartialEq, Eq, Structural)]
pub struct Timestamp {
    /// Seconds since the epoch.
    pub seconds: i64,
    /// Nanoseconds past `seconds`.
    pub nanos: u32,
}

impl Timestamp {
    /// The timestamp from the mapping of a local date and time to instants:
    /// the instant when there is exactly one, else an error.
    pub fn from_local(mapped: Option<(i64, u32)>) -> (r: Result<Timestamp, String>)
        ensures
            mapped matches Some(m) ==> r == Ok::<Timestamp, String>(Timestamp { seconds: m.0, nanos: m.1 }),
            mapped is None ==> (r matches Err(e) && e@ == "unable to convert date to localtime"@),
    {
        match mapped {
            Some((seconds, nanos)) => Ok(Timestamp { seconds, nanos }),
            None => Err(String::from_str("unable to convert date to localtime")),
        }
    }

    /// Parses a local date and time such as `2024-9-23T16:30:00`.
    pub fn parse(s: &str) -> (r: Result<Timestamp, String>)
        ensures
            r matches Err(e) ==> e@ == "unable to convert date to localtime"@
                || e@.take(date_error_prefix(s@).len() as int) == date_error_prefix(s@),
    {
        match parse_naive(s) {
            Err(e) => {
                let mut m = debug_str(s);
                m.append(" is not a date time: ");
                let ghost prefix = m@;
                let t = parse_error_text(&e);
                m.append(t.as_str());
                assert(m@.take(prefix.len() as int) =~= prefix);
                Err(m)
            },
            Ok(n) => Timestamp::from_local(local_instant(&n)),
        }
    }
}

impl std::str::FromStr for Timestamp {
    type Err = String;

    fn from_str(s: &str) -> Result<Timestamp, String> {
        Timestamp::parse(s)
    }
}

} // verus!
