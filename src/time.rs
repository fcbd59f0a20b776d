use vstd::prelude::*;
use vstd::arithmetic::div_mod::lemma_fundamental_div_mod_converse;
use crate::error::GeoError;

verus! {

/// Seconds in one day.
pub const SECONDS_PER_DAY: u64 = 86400;

/// Seconds in one month of the composite calendar, where every month has 31
/// days.
pub const SECONDS_PER_MONTH: u64 = 2678400;

/// Seconds in one year of the composite calendar: twelve months of 31 days.
pub const SECONDS_PER_YEAR: u64 = 32140800;

/// Calendar-like fields of a composite time.
#[derive(Debug, Clone, Copy, PartialEq, Eq, Structural)]
pub struct CalendarTime {
    pub year: u64,
    pub month: u64,
    pub day: u64,
    pub hour: u64,
    pub minute: u64,
    pub second: u64,
}

/// The composite time of a date and a time of day: seconds counted from
/// year 0, with every month taken to have 31 days, day 1 and month 1 counting
/// as index 0.
pub open spec fn composite_time(
    year: int,
    month: int,
    day: int,
    hour: int,
    minute: int,
    second: int,
) -> int {
    ((((year * 12 + (month - 1)) * 31 + (day - 1)) * 24 + hour) * 60 + minute) * 60 + second
}

/// The calendar fields of the composite time `t`: the inverse of
/// [`composite_time`] on fields within their ranges.
pub open spec fn calendar_of(t: int) -> CalendarTime {
    let minutes = t / 60;
    let hours = minutes / 60;
    let days = hours / 24;
    let months = days / 31;
    CalendarTime {
        year: (months / 12) as u64,
        month: (months % 12 + 1) as u64,
        day: (days % 31 + 1) as u64,
        hour: (hours % 24) as u64,
        minute: (minutes % 60) as u64,
        second: (t % 60) as u64,
    }
}

/// Splits a composite time back into calendar fields. The result is a true
/// calendar date only where the month really has 31 days.
pub fn time_fields(time: u64) -> (r: CalendarTime)
    ensures
        r == calendar_of(time as int),
{
    let mut run = time;
    let second = run % 60;
    run = run / 60;
    let minute = run % 60;
    run = run / 60;
    let hour = run % 24;
    run = run / 24;
    let day = run % 31 + 1;
    run = run / 31;
    let month = run % 12 + 1;
    let year = run / 12;
    CalendarTime { year, month, day, hour, minute, second }
}

/// Decoding a composite time gives back the fields it was encoded from, for
/// any year and for month, day, hour, minute and second within their ranges.
pub proof fn lemma_time_round_trip(
    year: nat,
    month: nat,
    day: nat,
    hour: nat,
    minute: nat,
    second: nat,
)
    requires
        1 <= month <= 12,
        1 <= day <= 31,
        hour < 24,
        minute < 60,
        second < 60,
        composite_time(year as int, month as int, day as int, hour as int, minute as int, second as int)
            <= u64::MAX,
    ensures
        calendar_of(
            composite_time(year as int, month as int, day as int, hour as int, minute as int, second as int),
        ) == (CalendarTime {
            year: year as u64,
            month: month as u64,
            day: day as u64,
            hour: hour as u64,
            minute: minute as u64,
            second: second as u64,
        }),
{
    let months = year * 12 + (month - 1);
    let days = months * 31 + (day - 1);
    let hours = days * 24 + hour;
    let minutes = hours * 60 + minute;
    let t = minutes * 60 + second;
    assert(months >= 0 && days >= 0 && hours >= 0 && minutes >= 0) by (nonlinear_arith)
        requires
            months == year * 12 + (month - 1),
            days == months * 31 + (day - 1),
            hours == days * 24 + hour,
            minutes == hours * 60 + minute,
            month >= 1,
            day >= 1,
    ;
    lemma_fundamental_div_mod_converse(t, 60, minutes, second as int);
    lemma_fundamental_div_mod_converse(minutes, 60, hours, minute as int);
    lemma_fundamental_div_mod_converse(hours, 24, days, hour as int);
    lemma_fundamental_div_mod_converse(days, 31, months, day - 1);
    lemma_fundamental_div_mod_converse(months, 12, year as int, month - 1);
    assert(year <= u64::MAX) by (nonlinear_arith)
        requires
            t <= u64::MAX,
            t == minutes * 60 + second,
            minutes == hours * 60 + minute,
            hours == days * 24 + hour,
            days == months * 31 + (day - 1),
            months == year * 12 + (month - 1),
            month >= 1,
            day >= 1,
    ;
}

/// An ASCII decimal digit.
pub open spec fn is_digit(b: u8) -> bool {
    48 <= b <= 57
}

/// The value of a string of ASCII decimal digits.
pub open spec fn decimal_value(s: Seq<u8>) -> int
    decreases s.len(),
{
    if s.len() == 0 {
        0
    } else {
        decimal_value(s.drop_last()) * 10 + (s.last() - 48)
    }
}

/// Ten to the power `n`.
pub open spec fn pow10(n: nat) -> nat
    decreases n,
{
    if n == 0 {
        1
    } else {
        10 * pow10((n - 1) as nat)
    }
}

proof fn lemma_pow10_mono(a: nat, b: nat)
    requires
        a <= b,
    ensures
        1 <= pow10(a) <= pow10(b),
    decreases b,
{
    if b > a {
        lemma_pow10_mono(a, (b - 1) as nat);
    } else if a > 0 {
        lemma_pow10_mono((a - 1) as nat, (a - 1) as nat);
    }
}

pub proof fn lemma_decimal_bound(s: Seq<u8>)
    requires
        forall|i: int| 0 <= i < s.len() ==> is_digit(#[trigger] s[i]),
    ensures
        0 <= decimal_value(s) < pow10(s.len()),
    decreases s.len(),
{
    if s.len() > 0 {
        let p = s.drop_last();
        assert(forall|i: int| 0 <= i < p.len() ==> is_digit(#[trigger] p[i]) && p[i] == s[i]);
        lemma_decimal_bound(p);
    }
}

proof fn lemma_decimal_prefix(s: Seq<u8>, k: int)
    requires
        0 <= k <= s.len(),
        forall|i: int| 0 <= i < s.len() ==> is_digit(#[trigger] s[i]),
    ensures
        decimal_value(s.subrange(0, k)) <= decimal_value(s),
    decreases s.len(),
{
    if k < s.len() {
        let p = s.drop_last();
        assert(forall|i: int| 0 <= i < p.len() ==> is_digit(#[trigger] p[i]) && p[i] == s[i]);
        lemma_decimal_prefix(p, k);
        lemma_decimal_bound(p);
        assert(p.subrange(0, k) =~= s.subrange(0, k));
    } else {
        assert(s.subrange(0, k) =~= s);
    }
}

/// Parses a non-empty string of ASCII decimal digits whose value fits in 64
/// bits; any other byte, no byte at all, or a value too large is a malformed
/// date field.
pub fn get_num(bytes: &[u8]) -> (r: Result<u64, GeoError>)
    ensures
        r is Ok <==> bytes@.len() > 0 && (forall|i: int|
            0 <= i < bytes@.len() ==> is_digit(#[trigger] bytes@[i])) && decimal_value(bytes@)
            <= u64::MAX,
        r matches Ok(v) ==> v == decimal_value(bytes@),
        r is Err ==> r == Err::<u64, GeoError>(GeoError::BadDate),
{
    if bytes.len() == 0 {
        return Err(GeoError::BadDate);
    }
    let mut v: u64 = 0;
    let mut i: usize = 0;
    while i < bytes.len()
        invariant
            i <= bytes@.len(),
            forall|k: int| 0 <= k < i ==> is_digit(#[trigger] bytes@[k]),
            v == decimal_value(bytes@.subrange(0, i as int)),
        decreases bytes@.len() - i,
    {
        let b = bytes[i];
        if b < 48 || b > 57 {
            return Err(GeoError::BadDate);
        }
        let d = (b - 48) as u64;
        proof {
            assert(bytes@.subrange(0, i + 1).drop_last() =~= bytes@.subrange(0, i as int));
        }
        if v > (u64::MAX - d) / 10 {
            proof {
                assert(v * 10 + d > u64::MAX) by (nonlinear_arith)
                    requires
                        v > (u64::MAX - d) / 10,
                        d <= 9,
                ;
                if forall|k: int| 0 <= k < bytes@.len() ==> is_digit(#[trigger] bytes@[k]) {
                    lemma_decimal_prefix(bytes@, i + 1);
                }
            }
            return Err(GeoError::BadDate);
        }
        proof {
            assert(v * 10 + d <= u64::MAX) by (nonlinear_arith)
                requires
                    v <= (u64::MAX - d) / 10,
                    d <= 9,
            ;
        }
        v = v * 10 + d;
        i += 1;
    }
    proof {
        assert(bytes@.subrange(0, i as int) =~= bytes@);
    }
    Ok(v)
}

} // verus!
