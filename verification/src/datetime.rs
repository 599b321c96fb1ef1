//! Calendar dates and times of day, as the sentences carry them: a time as
//! `hhmmss` with a decimal fraction, a date as `ddmmyy`.

use vstd::prelude::*;
use chrono::Datelike;
use crate::num::all_dec_digits;
use crate::num::dec_digits_value;
use crate::num::is_dec_digit;
use crate::num::lemma_digits_value_bound;
use crate::num::pow10;
use crate::num::pow10_u64;
use crate::num::lemma_pow10_mono;

verus! {

/// A time of day, to nanosecond precision.
#[derive(Clone, Copy, Debug, PartialEq, Eq, Structural)]
pub struct GpsTime {
    pub hour: u8,
    pub minute: u8,
    pub second: u8,
    pub nanos: u32,
}

impl GpsTime {
    /// A well-formed time of day.
    pub open spec fn wf(&self) -> bool {
        self.hour <= 23 && self.minute <= 59 && self.second <= 59 && self.nanos < 1000000000
    }
}

/// Days of each month of a year, with the leap rule of the Gregorian
/// calendar.
pub open spec fn is_leap_year(year: int) -> bool {
    year % 4 == 0 && (year % 100 != 0 || year % 400 == 0)
}

pub open spec fn days_in_month(year: int, month: int) -> int {
    if month == 2 {
        if is_leap_year(year) {
            29
        } else {
            28
        }
    } else if month == 4 || month == 6 || month == 9 || month == 11 {
        30
    } else {
        31
    }
}

/// A calendar date.
#[derive(Clone, Copy, Debug, PartialEq, Eq, Structural)]
pub struct GpsDate {
    pub year: i32,
    pub month: u8,
    pub day: u8,
}

impl GpsDate {
    /// A well-formed date names a day that exists in its month and year.
    pub open spec fn wf(&self) -> bool {
        &&& 1 <= self.month <= 12
        &&& 1 <= self.day
        &&& self.day as int <= days_in_month(self.year as int, self.month as int)
    }
}

/// A date with a time of day.
#[derive(Clone, Copy, Debug, PartialEq, Eq, Structural)]
pub struct GpsDateTime {
    pub date: GpsDate,
    pub time: GpsTime,
}

impl GpsDateTime {
    pub open spec fn wf(&self) -> bool {
        self.date.wf() && self.time.wf()
    }
}

/// The current UTC date.
///
/// Relies on chrono's `Utc::now` and `NaiveDate`: `date_naive` hands back the
/// current calendar date, and a `NaiveDate` always names a day that exists.
#[verifier::external_body]
pub fn today_utc() -> (r: GpsDate)
    ensures
        r.wf(),
{
    let now = chrono::Utc::now().date_naive();
    GpsDate { year: now.year(), month: now.month() as u8, day: now.day() as u8 }
}

/// Does `s` spell a time of day as `hhmmss` followed by a dot and one to
/// nine fraction digits?
pub open spec fn time_field_ok(s: Seq<u8>) -> bool {
    &&& s.len() >= 8
    &&& s.len() <= 16
    &&& all_dec_digits(s.take(6))
    &&& s[6] == 46
    &&& all_dec_digits(s.skip(7))
    &&& dec_digits_value(s.subrange(0, 2)) <= 23
    &&& dec_digits_value(s.subrange(2, 4)) <= 59
    &&& dec_digits_value(s.subrange(4, 6)) <= 59
}

/// The time of day spelled by an accepted time field: the fraction digits
/// are a decimal fraction of one second, kept to nanosecond precision.
pub open spec fn time_field_value(s: Seq<u8>) -> GpsTime {
    GpsTime {
        hour: dec_digits_value(s.subrange(0, 2)) as u8,
        minute: dec_digits_value(s.subrange(2, 4)) as u8,
        second: dec_digits_value(s.subrange(4, 6)) as u8,
        nanos: (dec_digits_value(s.skip(7)) * pow10((9 - (s.len() - 7)) as nat)) as u32,
    }
}

/// Parses a time-of-day field, `hhmmss.f` to `hhmmss.fffffffff`.
#[verifier::loop_isolation(false)]
pub fn parse_time(s: &[u8]) -> (r: Option<GpsTime>)
    ensures
        match r {
            Some(t) => time_field_ok(s@) && t == time_field_value(s@) && t.wf(),
            None => !time_field_ok(s@),
        },
{
    if s.len() < 8 || s.len() > 16 {
        return None;
    }
    let mut i: usize = 0;
    while i < 6
        invariant
            0 <= i <= 6,
            forall|k: int| 0 <= k < i ==> is_dec_digit(#[trigger] s@[k]),
        decreases 6 - i,
    {
        let c = s[i];
        if c < 48 || c > 57 {
            proof {
                assert(s@.take(6)[i as int] == c);
            }
            return None;
        }
        i = i + 1;
    }
    proof {
        assert(forall|k: int| 0 <= k < 6 ==> s@.take(6)[k] == #[trigger] s@[k]);
    }
    if s[6] != 46 {
        return None;
    }
    let mut j: usize = 7;
    while j < s.len()
        invariant
            7 <= j <= s@.len(),
            forall|k: int| 7 <= k < j ==> is_dec_digit(#[trigger] s@[k]),
        decreases s@.len() - j,
    {
        let c = s[j];
        if c < 48 || c > 57 {
            proof {
                assert(s@.skip(7)[j - 7] == c);
            }
            return None;
        }
        j = j + 1;
    }
    proof {
        assert(forall|k: int| 0 <= k < s@.len() - 7 ==> s@.skip(7)[k] == #[trigger] s@[k + 7]);
        assert(all_dec_digits(s@.skip(7)));
        assert(forall|k: int| 0 <= k < 2 ==> s@.subrange(0, 2)[k] == #[trigger] s@[k]);
        assert(forall|k: int| 0 <= k < 2 ==> s@.subrange(2, 4)[k] == #[trigger] s@[k + 2]);
        assert(forall|k: int| 0 <= k < 2 ==> s@.subrange(4, 6)[k] == #[trigger] s@[k + 4]);
        assert(s@.subrange(0, 2) =~= crate::num::uint_digits(s@.subrange(0, 2)));
        assert(s@.subrange(2, 4) =~= crate::num::uint_digits(s@.subrange(2, 4)));
        assert(s@.subrange(4, 6) =~= crate::num::uint_digits(s@.subrange(4, 6)));
    }
    let hour = match crate::num::parse_uint(&s[0..2], 23) {
        Some(v) => v as u8,
        None => {
            return None;
        },
    };
    let minute = match crate::num::parse_uint(&s[2..4], 59) {
        Some(v) => v as u8,
        None => {
            return None;
        },
    };
    let second = match crate::num::parse_uint(&s[4..6], 59) {
        Some(v) => v as u8,
        None => {
            return None;
        },
    };
    let frac: &[u8] = &s[7..s.len()];
    proof {
        assert(frac@ =~= s@.skip(7));
        assert(frac@ =~= crate::num::uint_digits(frac@));
        lemma_digits_value_bound(frac@);
        lemma_pow10_add(frac@.len() as nat, (9 - frac@.len()) as nat);
        assert(pow10(9) == 1000000000) by {
            reveal_with_fuel(pow10, 11);
        }
        lemma_pow10_mono(frac@.len() as nat, 9);
    }
    let frac_value = match crate::num::parse_uint(frac, u64::MAX) {
        Some(v) => v,
        None => {
            return None;
        },
    };
    let mult = pow10_u64((9 - (s.len() - 7)) as u8);
    proof {
        assert(frac_value * mult < 1000000000) by (nonlinear_arith)
            requires
                frac_value < pow10(frac@.len() as nat),
                mult == pow10((9 - frac@.len()) as nat),
                1 <= frac@.len() <= 9,
                pow10(frac@.len() as nat) * pow10((9 - frac@.len()) as nat) == pow10(9),
                pow10(9) == 1000000000,
        ;
    }
    let nanos: u32 = ((frac_value as u64) * mult) as u32;
    Some(GpsTime { hour, minute, second, nanos })
}

/// `pow10` turns a sum of exponents into a product.
pub proof fn lemma_pow10_add(a: nat, b: nat)
    ensures
        pow10(a + b) == pow10(a) * pow10(b),
    decreases a,
{
    if a > 0 {
        lemma_pow10_add((a - 1) as nat, b);
        assert(pow10(((a - 1) + b) as nat) == pow10((a - 1) as nat) * pow10(b));
        assert((a + b - 1) as nat == ((a - 1) + b) as nat);
        assert(pow10(a + b) == 10 * pow10((a + b - 1) as nat));
        assert(pow10(a) == 10 * pow10((a - 1) as nat));
        assert(10 * (pow10((a - 1) as nat) * pow10(b)) == (10 * pow10((a - 1) as nat)) * pow10(
            b,
        )) by (nonlinear_arith);
        assert(pow10(a + b) == pow10(a) * pow10(b));
    } else {
        assert(pow10(a) == 1);
        assert(a + b == b);
        assert(pow10(a + b) == pow10(b));
    }
}

/// Does `s` spell a date as `ddmmyy`, naming a day that exists?
pub open spec fn date_field_ok(s: Seq<u8>) -> bool {
    &&& s.len() == 6
    &&& all_dec_digits(s)
    &&& 1 <= dec_digits_value(s.subrange(2, 4)) <= 12
    &&& 1 <= dec_digits_value(s.subrange(0, 2))
    &&& dec_digits_value(s.subrange(0, 2)) as int <= days_in_month(
        date_field_year(s),
        dec_digits_value(s.subrange(2, 4)) as int,
    )
}

/// The year named by a two-digit year field: values up to 68 fall in the
/// 2000s, the rest in the 1900s.
pub open spec fn date_field_year(s: Seq<u8>) -> int {
    let y2 = dec_digits_value(s.subrange(4, 6)) as int;
    if y2 <= 68 {
        2000 + y2
    } else {
        1900 + y2
    }
}

/// The date spelled by an accepted date field.
pub open spec fn date_field_value(s: Seq<u8>) -> GpsDate {
    GpsDate {
        year: date_field_year(s) as i32,
        month: dec_digits_value(s.subrange(2, 4)) as u8,
        day: dec_digits_value(s.subrange(0, 2)) as u8,
    }
}

/// Parses a date field, `ddmmyy`; two-digit years are read as 1969 to 2068.
#[verifier::loop_isolation(false)]
pub fn parse_date(s: &[u8]) -> (r: Option<GpsDate>)
    ensures
        match r {
            Some(d) => date_field_ok(s@) && d == date_field_value(s@) && d.wf(),
            None => !date_field_ok(s@),
        },
{
    if s.len() != 6 {
        return None;
    }
    let mut i: usize = 0;
    while i < 6
        invariant
            0 <= i <= 6,
            s@.len() == 6,
            forall|k: int| 0 <= k < i ==> is_dec_digit(#[trigger] s@[k]),
        decreases 6 - i,
    {
        let c = s[i];
        if c < 48 || c > 57 {
            return None;
        }
        i = i + 1;
    }
    proof {
        assert(s@.subrange(0, 2) =~= crate::num::uint_digits(s@.subrange(0, 2)));
        assert(s@.subrange(2, 4) =~= crate::num::uint_digits(s@.subrange(2, 4)));
        assert(s@.subrange(4, 6) =~= crate::num::uint_digits(s@.subrange(4, 6)));
        assert(forall|k: int| 0 <= k < 2 ==> s@.subrange(0, 2)[k] == #[trigger] s@[k]);
        assert(forall|k: int| 0 <= k < 2 ==> s@.subrange(2, 4)[k] == #[trigger] s@[k + 2]);
        assert(forall|k: int| 0 <= k < 2 ==> s@.subrange(4, 6)[k] == #[trigger] s@[k + 4]);
        lemma_digits_value_bound(s@.subrange(0, 2));
        lemma_digits_value_bound(s@.subrange(2, 4));
        lemma_digits_value_bound(s@.subrange(4, 6));
        assert(pow10(2) == 100) by {
            reveal_with_fuel(pow10, 3);
        }
    }
    let day = match crate::num::parse_uint(&s[0..2], 99) {
        Some(v) => v as u8,
        None => {
            return None;
        },
    };
    let month = match crate::num::parse_uint(&s[2..4], 99) {
        Some(v) => v as u8,
        None => {
            return None;
        },
    };
    let y2 = match crate::num::parse_uint(&s[4..6], 99) {
        Some(v) => v as u16,
        None => {
            return None;
        },
    };
    let year: i32 = if y2 <= 68 {
        2000 + y2 as i32
    } else {
        1900 + y2 as i32
    };
    if month < 1 || month > 12 || day < 1 {
        return None;
    }
    let max_day: u8 = if month == 2 {
        if (year % 4 == 0) && (year % 100 != 0 || year % 400 == 0) {
            29
        } else {
            28
        }
    } else if month == 4 || month == 6 || month == 9 || month == 11 {
        30
    } else {
        31
    };
    if day > max_day {
        return None;
    }
    Some(GpsDate { year, month, day })
}

} // verus!
