//! Elapsed-duration phrases for notifications.
//!
//! A non-negative number of seconds is rendered as `D days H hours M minutes`,
//! omitting every unit that is zero except minutes, which are always shown
//! when days and hours are both zero (so a zero duration reads "0 minutes").
//! Hour and minute words vary only between singular and plural; the day count
//! additionally offers the three grammatical classes (singular / few / many,
//! selected by `days mod 10` and `days mod 100`) that languages with
//! Slavic-style plural rules need.

use vstd::prelude::*;

verus! {

pub const SECONDS_PER_MINUTE: u64 = 60;
pub const SECONDS_PER_HOUR: u64 = 3600;
pub const SECONDS_PER_DAY: u64 = 86400;

/// The decimal digit character for a value below ten.
pub open spec fn digit_char(d: nat) -> char {
    if d == 0 { '0' }
    else if d == 1 { '1' }
    else if d == 2 { '2' }
    else if d == 3 { '3' }
    else if d == 4 { '4' }
    else if d == 5 { '5' }
    else if d == 6 { '6' }
    else if d == 7 { '7' }
    else if d == 8 { '8' }
    else { '9' }
}

/// Decimal rendering of a natural number, most significant digit first.
pub open spec fn spec_decimal(n: nat) -> Seq<char>
    decreases n,
{
    if n < 10 {
        seq![digit_char(n)]
    } else {
        spec_decimal(n / 10) + seq![digit_char(n % 10)]
    }
}

/// Whole days in a duration.
pub open spec fn spec_days(secs: nat) -> nat {
    secs / (SECONDS_PER_DAY as nat)
}

/// Whole hours left over after the days.
pub open spec fn spec_hours(secs: nat) -> nat {
    (secs % (SECONDS_PER_DAY as nat)) / (SECONDS_PER_HOUR as nat)
}

/// Whole minutes left over after the days and hours.
pub open spec fn spec_minutes(secs: nat) -> nat {
    (secs % (SECONDS_PER_HOUR as nat)) / (SECONDS_PER_MINUTE as nat)
}

/// A count followed by its unit word: singular at exactly one, else plural.
pub open spec fn spec_count_phrase(n: nat, one: Seq<char>, other: Seq<char>) -> Seq<char> {
    spec_decimal(n) + seq![' '] + (if n == 1 { one } else { other })
}

pub open spec fn spec_day_phrase(n: nat) -> Seq<char> {
    spec_count_phrase(n, "day"@, "days"@)
}

pub open spec fn spec_hour_phrase(n: nat) -> Seq<char> {
    spec_count_phrase(n, "hour"@, "hours"@)
}

pub open spec fn spec_minute_phrase(n: nat) -> Seq<char> {
    spec_count_phrase(n, "minute"@, "minutes"@)
}

/// The full phrase: day, hour and minute segments separated by single
/// spaces, zero segments omitted, minutes kept when nothing else is shown.
pub open spec fn spec_duration_phrase(secs: nat) -> Seq<char> {
    let d = spec_days(secs);
    let h = spec_hours(secs);
    let m = spec_minutes(secs);
    if d > 0 {
        spec_day_phrase(d)
            + (if h > 0 { seq![' '] + spec_hour_phrase(h) } else { Seq::<char>::empty() })
            + (if m > 0 { seq![' '] + spec_minute_phrase(m) } else { Seq::<char>::empty() })
    } else if h > 0 {
        spec_hour_phrase(h)
            + (if m > 0 { seq![' '] + spec_minute_phrase(m) } else { Seq::<char>::empty() })
    } else {
        spec_minute_phrase(m)
    }
}

fn digit_str(d: u64) -> (r: &'static str)
    requires
        d < 10,
    ensures
        r@ == seq![digit_char(d as nat)],
{
    proof {
        reveal_strlit("0");
        reveal_strlit("1");
        reveal_strlit("2");
        reveal_strlit("3");
        reveal_strlit("4");
        reveal_strlit("5");
        reveal_strlit("6");
        reveal_strlit("7");
        reveal_strlit("8");
        reveal_strlit("9");
    }
    if d == 0 { "0" }
    else if d == 1 { "1" }
    else if d == 2 { "2" }
    else if d == 3 { "3" }
    else if d == 4 { "4" }
    else if d == 5 { "5" }
    else if d == 6 { "6" }
    else if d == 7 { "7" }
    else if d == 8 { "8" }
    else { "9" }
}

/// Decimal rendering of a number, without sign or padding.
pub fn u64_to_string(n: u64) -> (r: String)
    ensures
        r@ == spec_decimal(n as nat),
    decreases n,
{
    if n < 10 {
        String::from_str(digit_str(n))
    } else {
        let prefix = u64_to_string(n / 10);
        prefix.concat(digit_str(n % 10))
    }
}

/// Split a duration into whole days, leftover hours and leftover minutes.
pub fn duration_parts(secs: u64) -> (r: (u64, u64, u64))
    ensures
        r.0 == spec_days(secs as nat),
        r.1 == spec_hours(secs as nat),
        r.2 == spec_minutes(secs as nat),
{
    (secs / SECONDS_PER_DAY, (secs % SECONDS_PER_DAY) / SECONDS_PER_HOUR, (secs % SECONDS_PER_HOUR) / SECONDS_PER_MINUTE)
}

fn count_phrase(n: u64, one: &str, other: &str) -> (r: String)
    ensures
        r@ == spec_count_phrase(n as nat, one@, other@),
{
    proof {
        reveal_strlit(" ");
    }
    let mut s = u64_to_string(n);
    s.append(" ");
    assert(s@ == spec_decimal(n as nat) + seq![' ']);
    if n == 1 {
        s.append(one);
    } else {
        s.append(other);
    }
    s
}

/// Render an elapsed duration as an English phrase, for example
/// "2 days 5 hours 1 minute" or, for a duration under a minute, "0 minutes".
pub fn format_duration(secs: u64) -> (r: String)
    ensures
        r@ == spec_duration_phrase(secs as nat),
{
    proof {
        reveal_strlit(" ");
    }
    let (d, h, m) = duration_parts(secs);
    if d > 0 {
        let mut s = count_phrase(d, "day", "days");
        if h > 0 {
            s.append(" ");
            let hp = count_phrase(h, "hour", "hours");
            s.append(hp.as_str());
        }
        if m > 0 {
            s.append(" ");
            let mp = count_phrase(m, "minute", "minutes");
            s.append(mp.as_str());
        }
        s
    } else if h > 0 {
        let mut s = count_phrase(h, "hour", "hours");
        if m > 0 {
            s.append(" ");
            let mp = count_phrase(m, "minute", "minutes");
            s.append(mp.as_str());
        }
        s
    } else {
        count_phrase(m, "minute", "minutes")
    }
}

/// Grammatical class of a day count, for languages whose counted nouns
/// distinguish singular, few and many forms.
#[derive(Clone, Copy, Debug, PartialEq, Eq, Structural)]
pub enum PluralClass {
    /// Counts ending in 1, except those ending in 11.
    Singular,
    /// Counts ending in 2 through 4, except those ending in 12 through 14.
    Few,
    /// Everything else.
    Many,
}

/// Class selection by the last digit and the last two digits: 1, 21, 31 are
/// singular while 11 is many; 2 through 4, 22 through 24 are few while 12
/// through 14 are many.
pub open spec fn spec_day_class(n: nat) -> PluralClass {
    if n % 10 == 1 && n % 100 != 11 {
        PluralClass::Singular
    } else if 2 <= n % 10 && n % 10 <= 4 && !(12 <= n % 100 && n % 100 <= 14) {
        PluralClass::Few
    } else {
        PluralClass::Many
    }
}

/// The grammatical class a day count takes.
pub fn day_plural_class(days: u64) -> (c: PluralClass)
    ensures
        c == spec_day_class(days as nat),
{
    let last = days % 10;
    let last_two = days % 100;
    if last == 1 && last_two != 11 {
        PluralClass::Singular
    } else if 2 <= last && last <= 4 && !(12 <= last_two && last_two <= 14) {
        PluralClass::Few
    } else {
        PluralClass::Many
    }
}

/// The day-count form selected among the three supplied grammatical forms.
pub open spec fn spec_day_form(n: nat, one: Seq<char>, few: Seq<char>, many: Seq<char>) -> Seq<char> {
    match spec_day_class(n) {
        PluralClass::Singular => one,
        PluralClass::Few => few,
        PluralClass::Many => many,
    }
}

/// Pick the day-count word among locale-supplied forms by plural class.
pub fn day_form<'a>(days: u64, one: &'a str, few: &'a str, many: &'a str) -> (r: &'a str)
    ensures
        r@ == spec_day_form(days as nat, one@, few@, many@),
{
    match day_plural_class(days) {
        PluralClass::Singular => one,
        PluralClass::Few => few,
        PluralClass::Many => many,
    }
}

/// Render a day count with locale-supplied singular / few / many forms,
/// for example `21` with forms for a Slavic-style language taking the
/// singular form while `11` takes the many form.
pub fn format_days_with_forms(days: u64, one: &str, few: &str, many: &str) -> (r: String)
    ensures
        r@ == spec_decimal(days as nat) + seq![' '] + spec_day_form(days as nat, one@, few@, many@),
{
    proof {
        reveal_strlit(" ");
    }
    let mut s = u64_to_string(days);
    s.append(" ");
    s.append(day_form(days, one, few, many));
    s
}

} // verus!
