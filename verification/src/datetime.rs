use vstd::prelude::*;

verus! {

/// A calendar date held as plain year, month and day numbers.
#[derive(Clone, Copy, PartialEq, Eq, Structural, Debug)]
pub struct Date {
    pub year: i32,
    pub month: u8,
    pub day: u8,
}

/// A time of day held as plain hour, minute and second numbers.
#[derive(Clone, Copy, PartialEq, Eq, Structural, Debug)]
pub struct Time {
    pub hour: u8,
    pub minute: u8,
    pub second: u8,
}

/// A wall-clock instant: a date together with a time of day.
#[derive(Clone, Copy, PartialEq, Eq, Structural, Debug)]
pub struct DateTime {
    pub date: Date,
    pub time: Time,
}

pub open spec fn is_leap_year(year: int) -> bool {
    (year % 4 == 0 && year % 100 != 0) || year % 400 == 0
}

pub open spec fn days_in_month(year: int, month: int) -> int {
    if month == 2 {
        if is_leap_year(year) {
            29
        } else {
            28
        }
    } else if month == 4 || month == 6 || month == 9 || month == 11 {
        30
    } else {
        31
    }
}

impl Date {
    /// The month is a real month and the day exists in that month of
    /// that year, February 29 only in leap years.
    pub open spec fn wf(self) -> bool {
        &&& 1 <= self.month <= 12
        &&& 1 <= self.day <= days_in_month(self.year as int, self.month as int)
    }

    /// Builds a date, accepting exactly the well-formed ones.
    pub fn new(year: i32, month: u8, day: u8) -> (d: Option<Date>)
        ensures
            match d {
                Some(x) => x == (Date { year, month, day }) && x.wf(),
                None => !(Date { year, month, day }).wf(),
            },
    {
        let limit = days_in_month_exec(year, month);
        if 1 <= month && month <= 12 && 1 <= day && day <= limit {
            Some(Date { year, month, day })
        } else {
            None
        }
    }
}

/// How many days the given month of the given year has; 0 when the
/// month number is out of range.
pub fn days_in_month_exec(year: i32, month: u8) -> (n: u8)
    ensures
        1 <= month <= 12 ==> n == days_in_month(year as int, month as int),
        !(1 <= month <= 12) ==> n == 0,
{
    if month < 1 || month > 12 {
        0
    } else if month == 2 {
        if (year % 4 == 0 && year % 100 != 0) || year % 400 == 0 {
            29
        } else {
            28
        }
    } else if month == 4 || month == 6 || month == 9 || month == 11 {
        30
    } else {
        31
    }
}

impl Time {
    pub open spec fn wf(self) -> bool {
        self.hour < 24 && self.minute < 60 && self.second < 60
    }

    /// Builds a time of day, accepting exactly the well-formed ones.
    pub fn new(hour: u8, minute: u8, second: u8) -> (t: Option<Time>)
        ensures
            match t {
                Some(x) => x == (Time { hour, minute, second }) && x.wf(),
                None => !(Time { hour, minute, second }).wf(),
            },
    {
        if hour < 24 && minute < 60 && second < 60 {
            Some(Time { hour, minute, second })
        } else {
            None
        }
    }
}

impl DateTime {
    pub open spec fn wf(self) -> bool {
        self.date.wf() && self.time.wf()
    }

    /// Builds an instant, accepting exactly the well-formed ones.
    pub fn new(date: Date, time: Time) -> (dt: Option<DateTime>)
        ensures
            match dt {
                Some(x) => x == (DateTime { date, time }) && x.wf(),
                None => !(DateTime { date, time }).wf(),
            },
    {
        if date.wf_exec() && time.wf_exec() {
            Some(DateTime { date, time })
        } else {
            None
        }
    }
}

impl Date {
    /// Runtime check of `wf`.
    pub fn wf_exec(&self) -> (b: bool)
        ensures
            b == self.wf(),
    {
        let limit = days_in_month_exec(self.year, self.month);
        1 <= self.month && self.month <= 12 && 1 <= self.day && self.day <= limit
    }
}

impl Time {
    /// Runtime check of `wf`.
    pub fn wf_exec(&self) -> (b: bool)
        ensures
            b == self.wf(),
    {
        self.hour < 24 && self.minute < 60 && self.second < 60
    }
}

} // verus!
