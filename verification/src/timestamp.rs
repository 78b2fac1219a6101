//! UTC timestamps of the shape `YYYY-MM-DDTHH:MM:SS[.fff]Z`, read into
//! milliseconds since the Unix epoch.

use vstd::prelude::*;
use vstd::string::StringSliceAdditionalSpecFns;

verus! {

/// Whether a year of the proleptic Gregorian calendar is a leap year.
pub open spec fn leap_year(year: int) -> bool {
    (year % 4 == 0 && year % 100 != 0) || year % 400 == 0
}

/// The number of days of a month (`0` for a month outside `1..=12`).
pub open spec fn month_length(year: int, month: int) -> int {
    if month == 1 || month == 3 || month == 5 || month == 7 || month == 8 || month == 10 || month
        == 12 {
        31
    } else if month == 4 || month == 6 || month == 9 || month == 11 {
        30
    } else if month == 2 {
        if leap_year(year) {
            29
        } else {
            28
        }
    } else {
        0
    }
}

/// Whether year, month and day name a day of the calendar.
pub open spec fn valid_date(year: int, month: int, day: int) -> bool {
    1 <= month <= 12 && 1 <= day <= month_length(year, month)
}

/// Days from 1970-01-01 to the given date, counted by eras of 400 years that
/// start on the first of March.
pub open spec fn epoch_days(year: int, month: int, day: int) -> int {
    let y = if month <= 2 { year - 1 } else { year };
    let era = y / 400;
    let yoe = y - era * 400;
    let mp = if month > 2 { month - 3 } else { month + 9 };
    let doy = (153 * mp + 2) / 5 + day - 1;
    let doe = yoe * 365 + yoe / 4 - yoe / 100 + doy;
    era * 146097 + doe - 719468
}

/// Whether the year is a Gregorian leap year.
fn is_leap_year(year: i32) -> (res: bool)
    ensures
        res == leap_year(year as int),
{
    (year % 4 == 0 && year % 100 != 0) || year % 400 == 0
}

/// The number of days of a month of a year.
fn days_in_month(year: i32, month: u32) -> (res: u32)
    ensures
        res == month_length(year as int, month as int),
{
    if month == 1 || month == 3 || month == 5 || month == 7 || month == 8 || month == 10 || month
        == 12 {
        31
    } else if month == 4 || month == 6 || month == 9 || month == 11 {
        30
    } else if month == 2 {
        if is_leap_year(year) {
            29
        } else {
            28
        }
    } else {
        0
    }
}

/// The day number of a valid date since the Unix epoch, `None` for an
/// invalid one.
fn days_from_civil(year: i32, month: u32, day: u32) -> (res: Option<i64>)
    requires
        -1_000_000 <= year <= 1_000_000,
    ensures
        res == (if valid_date(year as int, month as int, day as int) {
            Some(epoch_days(year as int, month as int, day as int) as i64)
        } else {
            None
        }),
{
    if !(1 <= month && month <= 12) || day == 0 || day > days_in_month(year, month) {
        return None;
    }
    let adjusted_year: i32 = if month <= 2 { year - 1 } else { year };
    let era: i32 = if adjusted_year >= 0 {
        adjusted_year / 400
    } else {
        -((399 - adjusted_year) / 400)
    };
    proof {
        let a = adjusted_year as int;
        if a < 0 {
            assert(-((399 - a) / 400) == a / 400) by (nonlinear_arith)
                requires
                    a < 0,
            ;
        }
    }
    let year_of_era: i32 = adjusted_year - era * 400;
    let m: i32 = month as i32;
    let day_of_year: i32 = (153 * (m + if m > 2 { -3 } else { 9 }) + 2) / 5 + day as i32 - 1;
    let day_of_era: i32 = year_of_era * 365 + year_of_era / 4 - year_of_era / 100 + day_of_year;
    Some((era as i64) * 146_097 + day_of_era as i64 - 719_468)
}


/// Whether a byte is an ASCII digit.
pub open spec fn is_digit_byte(b: u8) -> bool {
    48 <= b <= 57
}

/// Whether every byte is an ASCII digit.
pub open spec fn all_digit_bytes(b: Seq<u8>) -> bool {
    forall|i: int| 0 <= i < b.len() ==> is_digit_byte(#[trigger] b[i])
}

/// The value of a run of ASCII digits, most significant first.
pub open spec fn digit_bytes_value(b: Seq<u8>) -> int
    decreases b.len(),
{
    if b.len() == 0 {
        0
    } else {
        digit_bytes_value(b.drop_last()) * 10 + (b.last() - 48)
    }
}

/// What `FromStr` of a signed integer type gives for text short enough not to
/// overflow it: an optional `+` or `-`, then at least one digit.
pub open spec fn signed_text_value(b: Seq<u8>) -> Option<int> {
    if b.len() > 0 && (b[0] == 43 || b[0] == 45) {
        let d = b.drop_first();
        if d.len() > 0 && all_digit_bytes(d) {
            Some(
                if b[0] == 45 {
                    -digit_bytes_value(d)
                } else {
                    digit_bytes_value(d)
                },
            )
        } else {
            None
        }
    } else if b.len() > 0 && all_digit_bytes(b) {
        Some(digit_bytes_value(b))
    } else {
        None
    }
}

/// What `FromStr` of an unsigned integer type gives for text short enough not
/// to overflow it: an optional `+`, then at least one digit.
pub open spec fn unsigned_text_value(b: Seq<u8>) -> Option<int> {
    let d = if b.len() > 0 && b[0] == 43 { b.drop_first() } else { b };
    if d.len() > 0 && all_digit_bytes(d) {
        Some(digit_bytes_value(d))
    } else {
        None
    }
}

/// The fraction text after the seconds, padded with zeros on the right to
/// three places, as `format!("{:0<3}")` does.
pub open spec fn padded_fraction(f: Seq<u8>) -> Seq<u8> {
    let g = f.take(if f.len() < 3 { f.len() as int } else { 3 });
    g + Seq::new((3 - g.len()) as nat, |i: int| 48u8)
}

/// The milliseconds written after the seconds: nothing means zero; a `.`
/// is followed by the first three characters, padded with zeros.
pub open spec fn fraction_millis(f: Seq<u8>) -> Option<int> {
    if f.len() == 0 {
        Some(0)
    } else if f[0] == 46 {
        signed_text_value(padded_fraction(f.drop_first()))
    } else {
        None
    }
}

/// The shape check of a timestamp: long enough, the separators in place and a
/// final `Z`.
pub open spec fn timestamp_shape(b: Seq<u8>) -> bool {
    &&& b.len() >= 20
    &&& b[4] == 45
    &&& b[7] == 45
    &&& b[10] == 84
    &&& b[13] == 58
    &&& b[16] == 58
    &&& b.last() == 90
}

/// Milliseconds since the Unix epoch of a UTC timestamp given as UTF-8 bytes,
/// or `None` where it is not read as one.
pub open spec fn timestamp_millis(b: Seq<u8>) -> Option<int> {
    if !timestamp_shape(b) {
        None
    } else {
        let year = signed_text_value(b.subrange(0, 4));
        let month = unsigned_text_value(b.subrange(5, 7));
        let day = unsigned_text_value(b.subrange(8, 10));
        let hour = signed_text_value(b.subrange(11, 13));
        let minute = signed_text_value(b.subrange(14, 16));
        let second = signed_text_value(b.subrange(17, 19));
        let millis = fraction_millis(b.subrange(19, b.len() - 1));
        if year is None || month is None || day is None || hour is None || minute is None
            || second is None || millis is None {
            None
        } else if !valid_date(year->0, month->0, day->0) {
            None
        } else {
            let days = epoch_days(year->0, month->0, day->0);
            Some(
                (((days * 24 + hour->0) * 60 + minute->0) * 60 + second->0) * 1000
                    + millis->0,
            )
        }
    }
}

/// Ten to the power `n`.
pub open spec fn pow10(n: int) -> int
    decreases n,
{
    if n <= 0 {
        1
    } else {
        10 * pow10(n - 1)
    }
}

/// Reads `b[from..to]` as a short integer, signed or not.
#[verifier::loop_isolation(false)]
fn parse_short_int(b: &[u8], from: usize, to: usize, signed: bool) -> (res: Option<i64>)
    requires
        from < to <= b.len(),
        to - from <= 4,
    ensures
        ({
            let expected = if signed {
                signed_text_value(b@.subrange(from as int, to as int))
            } else {
                unsigned_text_value(b@.subrange(from as int, to as int))
            };
            &&& res is Some <==> expected is Some
            &&& res matches Some(v) ==> v == expected->0 && -9999 <= v <= 9999
            &&& res matches Some(v) ==> (!signed ==> v >= 0)
        }),
{
    let ghost t = b@.subrange(from as int, to as int);
    let mut i = from;
    let mut negative = false;
    if b[i] == 43 || (signed && b[i] == 45) {
        negative = b[i] == 45;
        i = i + 1;
    }
    let ghost d = b@.subrange(i as int, to as int);
    assert(i == from + 1 ==> d =~= t.drop_first());
    assert(i == from ==> d =~= t);
    if i >= to {
        return None;
    }
    let start = i;
    let mut value: i64 = 0;
    while i < to
        invariant
            from <= start <= i <= to <= b.len(),
            to - from <= 4,
            d == b@.subrange(start as int, to as int),
            all_digit_bytes(d.take(i - start)),
            value == digit_bytes_value(d.take(i - start)),
            0 <= value < pow10(i - start),
        decreases to - i,
    {
        let c = b[i];
        assert(d.take(i + 1 - start).drop_last() =~= d.take(i - start));
        assert(d[i - start] == c);
        if !(48 <= c && c <= 57) {
            assert(!is_digit_byte(d[i - start]));
            return None;
        }
        proof {
            reveal_with_fuel(pow10, 5);
            assert(pow10(i + 1 - start) == 10 * pow10(i - start));
            assert(pow10(i - start) <= 1000);
        }
        value = value * 10 + (c - 48) as i64;
        i = i + 1;
    }
    proof {
        reveal_with_fuel(pow10, 5);
    }
    assert(d.take(i - start) =~= d);
    if negative {
        Some(-value)
    } else {
        Some(value)
    }
}


/// The milliseconds of the fraction text `b[from..to]`.
fn parse_fraction(b: &[u8], from: usize, to: usize) -> (res: Option<i64>)
    requires
        from <= to <= b.len(),
    ensures
        ({
            let expected = fraction_millis(b@.subrange(from as int, to as int));
            &&& res is Some <==> expected is Some
            &&& res matches Some(v) ==> v == expected->0 && -999 <= v <= 999
        }),
{
    let ghost f = b@.subrange(from as int, to as int);
    if from == to {
        return Some(0);
    }
    if b[from] != 46 {
        return None;
    }
    let mut padded: Vec<u8> = Vec::new();
    let mut i = from + 1;
    while i < to && padded.len() < 3
        invariant
            from + 1 <= i <= to <= b.len(),
            padded.len() == i - from - 1,
            padded.len() <= 3,
            padded@ == b@.subrange(from + 1, i as int),
        decreases to - i,
    {
        padded.push(b[i]);
        i = i + 1;
    }
    let ghost g = padded@;
    while padded.len() < 3
        invariant
            g.len() <= padded.len() <= 3,
            padded@ == g + Seq::new((padded.len() - g.len()) as nat, |k: int| 48u8),
        decreases 3 - padded.len(),
    {
        padded.push(48);
        assert(padded@ =~= g + Seq::new((padded.len() - g.len()) as nat, |k: int| 48u8));
    }
    proof {
        let rest = f.drop_first();
        assert(g =~= rest.take(if rest.len() < 3 { rest.len() as int } else { 3 }));
        assert(padded@ =~= padded_fraction(rest));
        assert(padded@.subrange(0, 3) =~= padded@);
    }
    let r = parse_short_int(&padded, 0, 3, true);
    proof {
        if let Some(v) = r {
            reveal_with_fuel(digit_bytes_value, 4);
            let p = padded@;
            if p[0] == 43 || p[0] == 45 {
                assert(p.drop_first().drop_last().drop_last().len() == 0);
            }
        }
    }
    r
}

/// `parse_rfc3339_utc_millis`: milliseconds since the Unix epoch of a UTC
/// timestamp such as `2026-05-16T20:14:29.101Z`.
pub fn parse_rfc3339_utc_millis(timestamp: &str) -> (res: Option<i64>)
    ensures
        res matches Some(v) ==> timestamp_millis(timestamp.spec_bytes()) == Some(v as int),
        res is None ==> timestamp_millis(timestamp.spec_bytes()) is None,
{
    let b = timestamp.as_bytes();
    let n = b.len();
    if n < 20 || b[4] != 45 || b[7] != 45 || b[10] != 84 || b[13] != 58 || b[16] != 58 || b[n
        - 1] != 90 {
        return None;
    }
    let year = match parse_short_int(b, 0, 4, true) {
        Some(v) => v,
        None => return None,
    };
    let month = match parse_short_int(b, 5, 7, false) {
        Some(v) => v,
        None => return None,
    };
    let day = match parse_short_int(b, 8, 10, false) {
        Some(v) => v,
        None => return None,
    };
    let hour = match parse_short_int(b, 11, 13, true) {
        Some(v) => v,
        None => return None,
    };
    let minute = match parse_short_int(b, 14, 16, true) {
        Some(v) => v,
        None => return None,
    };
    let second = match parse_short_int(b, 17, 19, true) {
        Some(v) => v,
        None => return None,
    };
    let millis = match parse_fraction(b, 19, n - 1) {
        Some(v) => v,
        None => return None,
    };
    assert(0 <= month && 0 <= day);
    let days = match days_from_civil(year as i32, month as u32, day as u32) {
        Some(d) => d,
        None => return None,
    };
    proof {
        lemma_epoch_days_bounds(year as int, month as int, day as int);
    }
    Some((((days * 24 + hour) * 60 + minute) * 60 + second) * 1_000 + millis)
}

proof fn lemma_epoch_days_bounds(year: int, month: int, day: int)
    requires
        -9999 <= year <= 9999,
        valid_date(year, month, day),
    ensures
        -5_000_000 <= epoch_days(year, month, day) <= 5_000_000,
{
    let y = if month <= 2 { year - 1 } else { year };
    let era = y / 400;
    assert(-26 <= era <= 25);
    let yoe = y - era * 400;
    assert(0 <= yoe < 400);
    let mp = if month > 2 { month - 3 } else { month + 9 };
    assert(0 <= (153 * mp + 2) / 5 <= 400);
}


/// The day after a valid date.
pub open spec fn next_day(year: int, month: int, day: int) -> (int, int, int) {
    if day < month_length(year, month) {
        (year, month, day + 1)
    } else if month < 12 {
        (year, month + 1, 1)
    } else {
        (year + 1, 1, 1)
    }
}

/// 1970-01-01 is day zero.
pub proof fn epoch_is_day_zero()
    ensures
        epoch_days(1970, 1, 1) == 0,
{
    assert(epoch_days(1970, 1, 1) == 0);
}

/// The days of the year that starts on the first of March of `a` (in the
/// era count of `epoch_days`).
spec fn march_year_start(a: int) -> int {
    let era = a / 400;
    let yoe = a - era * 400;
    era * 146097 + yoe * 365 + yoe / 4 - yoe / 100
}

proof fn lemma_march_year_length(a: int)
    ensures
        march_year_start(a + 1) - march_year_start(a) == 365 + if leap_year(a + 1) {
            1int
        } else {
            0int
        },
{
    let era = a / 400;
    let yoe = a - era * 400;
    assert(0 <= yoe < 400);
    assert(a == era * 400 + yoe);
    if yoe < 399 {
        assert((a + 1) / 400 == era) by (nonlinear_arith)
            requires
                a == era * 400 + yoe,
                0 <= yoe < 399,
        ;
        assert((a + 1) % 4 == (yoe + 1) % 4) by (nonlinear_arith)
            requires
                a == era * 400 + yoe,
        ;
        assert((a + 1) % 100 == (yoe + 1) % 100) by (nonlinear_arith)
            requires
                a == era * 400 + yoe,
        ;
        assert((a + 1) % 400 == yoe + 1) by (nonlinear_arith)
            requires
                a == era * 400 + yoe,
                0 <= yoe < 399,
        ;
        assert((yoe + 1) / 4 - yoe / 4 == if (yoe + 1) % 4 == 0 { 1int } else { 0int });
        assert((yoe + 1) / 100 - yoe / 100 == if (yoe + 1) % 100 == 0 { 1int } else { 0int });
    } else {
        assert((a + 1) / 400 == era + 1) by (nonlinear_arith)
            requires
                a == era * 400 + yoe,
                yoe == 399,
        ;
        assert((a + 1) % 400 == 0) by (nonlinear_arith)
            requires
                a == era * 400 + 399,
        ;
        assert((a + 1) - (era + 1) * 400 == 0);
    }
}

proof fn lemma_epoch_days_split(year: int, month: int, day: int)
    ensures
        epoch_days(year, month, day) == march_year_start(if month <= 2 { year - 1 } else { year })
            + (153 * (if month > 2 { month - 3 } else { month + 9 }) + 2) / 5 + day - 1 - 719468,
{
}

/// The day after a valid date is a valid date, one day later.
pub proof fn next_day_is_one_day_later(year: int, month: int, day: int)
    requires
        valid_date(year, month, day),
    ensures
        ({
            let (y, m, d) = next_day(year, month, day);
            valid_date(y, m, d) && epoch_days(y, m, d) == epoch_days(year, month, day) + 1
        }),
{
    let (y, m, d) = next_day(year, month, day);
    lemma_epoch_days_split(year, month, day);
    lemma_epoch_days_split(y, m, d);
    if day < month_length(year, month) {
    } else if month == 2 {
        lemma_march_year_length(year - 1);
    } else if month < 12 {
        assert(month == 1 || (3 <= month <= 11));
    } else {
    }
}

} // verus!
