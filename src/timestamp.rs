use vstd::prelude::*;

verus! {

/// A calendar instant in UTC, to the second.
#[derive(Clone, Copy, Debug, PartialEq, Eq, Structural)]
pub struct Timestamp {
    pub year: u32,
    pub month: u32,
    pub day: u32,
    pub hour: u32,
    pub minute: u32,
    pub second: u32,
}

pub open spec fn is_leap_year(year: int) -> bool {
    (year % 4 == 0 && year % 100 != 0) || year % 400 == 0
}

pub open spec fn days_in_month(year: int, month: int) -> int {
    if month == 2 {
        if is_leap_year(year) { 29 } else { 28 }
    } else if month == 4 || month == 6 || month == 9 || month == 11 {
        30
    } else {
        31
    }
}

/// `year`, `month`, `day` name a day of the proleptic Gregorian calendar.
pub open spec fn is_valid_date(year: int, month: int, day: int) -> bool {
    1 <= month <= 12 && 1 <= day <= days_in_month(year, month)
}

pub open spec fn is_valid_time(hour: int, minute: int, second: int) -> bool {
    0 <= hour < 24 && 0 <= minute < 60 && 0 <= second < 60
}

/// Relies on chrono::NaiveDate::from_ymd_opt: `Some` exactly for an existing
/// calendar day (for years well inside chrono's range).
#[verifier::external_body]
fn chrono_date_exists(year: i32, month: u32, day: u32) -> (r: bool)
    requires
        0 <= year <= 9999,
    ensures
        r == is_valid_date(year as int, month as int, day as int),
{
    chrono::NaiveDate::from_ymd_opt(year, month, day).is_some()
}

/// Relies on chrono::NaiveTime::from_hms_opt: `Some` exactly when the hour is
/// below 24 and the minute and second below 60.
#[verifier::external_body]
fn chrono_time_exists(hour: u32, minute: u32, second: u32) -> (r: bool)
    ensures
        r == is_valid_time(hour as int, minute as int, second as int),
{
    chrono::NaiveTime::from_hms_opt(hour, minute, second).is_some()
}

impl Timestamp {
    pub open spec fn wf(&self) -> bool {
        &&& self.year <= 9999
        &&& is_valid_date(self.year as int, self.month as int, self.day as int)
        &&& is_valid_time(self.hour as int, self.minute as int, self.second as int)
    }

    /// Builds the instant from its fields when they name a real date and time.
    pub(crate) fn from_parts(year: u32, month: u32, day: u32, hour: u32, minute: u32, second: u32) -> (r:
        Option<Timestamp>)
        requires
            year <= 9999,
        ensures
            r == (if is_valid_date(year as int, month as int, day as int) && is_valid_time(
                hour as int,
                minute as int,
                second as int,
            ) {
                Some(Timestamp { year, month, day, hour, minute, second })
            } else {
                None::<Timestamp>
            }),
            r matches Some(t) ==> t.wf(),
    {
        if chrono_date_exists(year as i32, month, day) && chrono_time_exists(hour, minute, second) {
            Some(Timestamp { year, month, day, hour, minute, second })
        } else {
            None
        }
    }
}

pub open spec fn digit_char(d: int) -> char {
    if d == 0 {
        '0'
    } else if d == 1 {
        '1'
    } else if d == 2 {
        '2'
    } else if d == 3 {
        '3'
    } else if d == 4 {
        '4'
    } else if d == 5 {
        '5'
    } else if d == 6 {
        '6'
    } else if d == 7 {
        '7'
    } else if d == 8 {
        '8'
    } else {
        '9'
    }
}

/// `n` written in decimal with exactly `width` digits, zero-padded on the left
/// (the high digits beyond `width` are dropped).
pub open spec fn padded(n: nat, width: nat) -> Seq<char>
    decreases width,
{
    if width == 0 {
        Seq::empty()
    } else {
        padded(n / 10, (width - 1) as nat).push(digit_char((n % 10) as int))
    }
}

/// The compact numeric stamp `YYYYMMDDHHMMSS`.
pub open spec fn stamp_of(t: Timestamp) -> Seq<char> {
    padded(t.year as nat, 4) + padded(t.month as nat, 2) + padded(t.day as nat, 2) + padded(
        t.hour as nat,
        2,
    ) + padded(t.minute as nat, 2) + padded(t.second as nat, 2)
}

pub(crate) fn digit_str(d: u32) -> (r: &'static str)
    requires
        d < 10,
    ensures
        r@ == seq![digit_char(d as int)],
{
    proof {
        reveal_strlit("0");
        reveal_strlit("1");
        reveal_strlit("2");
        reveal_strlit("3");
        reveal_strlit("4");
        reveal_strlit("5");
        reveal_strlit("6");
        reveal_strlit("7");
        reveal_strlit("8");
        reveal_strlit("9");
    }
    if d == 0 {
        "0"
    } else if d == 1 {
        "1"
    } else if d == 2 {
        "2"
    } else if d == 3 {
        "3"
    } else if d == 4 {
        "4"
    } else if d == 5 {
        "5"
    } else if d == 6 {
        "6"
    } else if d == 7 {
        "7"
    } else if d == 8 {
        "8"
    } else {
        "9"
    }
}

fn append_padded(out: &mut String, n: u32, width: u32)
    requires
        width <= 10,
    ensures
        final(out)@ == old(out)@ + padded(n as nat, width as nat),
    decreases width,
{
    if width > 0 {
        append_padded(out, n / 10, width - 1);
        out.append(digit_str(n % 10));
        assert(padded(n as nat, width as nat) == padded((n / 10) as nat, (width - 1) as nat).push(
            digit_char((n % 10) as int),
        ));
        assert(final(out)@ =~= old(out)@ + padded(n as nat, width as nat));
    }
}

impl Timestamp {
    /// Writes the instant as `YYYYMMDDHHMMSS`.
    pub fn format_stamp(&self) -> (r: String)
        ensures
            r@ == stamp_of(*self),
    {
        let mut out = String::new();
        append_padded(&mut out, self.year, 4);
        append_padded(&mut out, self.month, 2);
        append_padded(&mut out, self.day, 2);
        append_padded(&mut out, self.hour, 2);
        append_padded(&mut out, self.minute, 2);
        append_padded(&mut out, self.second, 2);
        assert(out@ =~= stamp_of(*self));
        out
    }
}

} // verus!
