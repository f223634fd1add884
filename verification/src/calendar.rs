//! Service calendars: which days a transit service operates. Dates are plain
//! day numbers counted from an epoch, so the calendar logic is exact integer
//! arithmetic; the weekday follows from the day number alone.

use vstd::prelude::*;

use crate::identifiers::ServiceIdentifier;

verus! {

/// A day of the week.
#[derive(Clone, Copy, Debug, PartialEq, Eq, Structural)]
pub enum Weekday {
    Mon,
    Tue,
    Wed,
    Thu,
    Fri,
    Sat,
    Sun,
}

/// The day's number counted from Monday, one through seven.
pub open spec fn weekday_number(w: Weekday) -> int {
    match w {
        Weekday::Mon => 1,
        Weekday::Tue => 2,
        Weekday::Wed => 3,
        Weekday::Thu => 4,
        Weekday::Fri => 5,
        Weekday::Sat => 6,
        Weekday::Sun => 7,
    }
}

/// The day's single flag bit: bit `number_from_monday`.
pub open spec fn day_bit(w: Weekday) -> u8 {
    match w {
        Weekday::Mon => 2,
        Weekday::Tue => 4,
        Weekday::Wed => 8,
        Weekday::Thu => 16,
        Weekday::Fri => 32,
        Weekday::Sat => 64,
        Weekday::Sun => 128,
    }
}

impl Weekday {
    pub fn number_from_monday(&self) -> (r: u8)
        ensures
            r == weekday_number(*self),
    {
        match self {
            Weekday::Mon => 1,
            Weekday::Tue => 2,
            Weekday::Wed => 3,
            Weekday::Thu => 4,
            Weekday::Fri => 5,
            Weekday::Sat => 6,
            Weekday::Sun => 7,
        }
    }
}

/// A calendar date as a plain day number: days since the epoch day, which
/// was a Thursday.
#[derive(Clone, Copy, Debug, PartialEq, Eq, Structural)]
pub struct ServiceDate {
    pub days: i64,
}

/// The weekday of a day number: the epoch day is a Thursday.
pub open spec fn weekday_of_days(d: int) -> Weekday {
    let m = d % 7;
    if m == 0 {
        Weekday::Thu
    } else if m == 1 {
        Weekday::Fri
    } else if m == 2 {
        Weekday::Sat
    } else if m == 3 {
        Weekday::Sun
    } else if m == 4 {
        Weekday::Mon
    } else if m == 5 {
        Weekday::Tue
    } else {
        Weekday::Wed
    }
}

impl ServiceDate {
    pub fn new(days: i64) -> (r: ServiceDate)
        ensures
            r.days == days,
    {
        ServiceDate { days }
    }

    /// The weekday this date falls on.
    pub fn weekday(&self) -> (r: Weekday)
        requires
            self.days > i64::MIN,
        ensures
            r == weekday_of_days(self.days as int),
    {
        let m: i64 = if self.days >= 0 {
            self.days % 7
        } else {
            let r: i64 = (-self.days) % 7;
            if r == 0 {
                0
            } else {
                7 - r
            }
        };
        proof {
            if self.days < 0 {
                let d = self.days as int;
                assert((if (-d) % 7 == 0 {
                    0int
                } else {
                    7 - ((-d) % 7)
                }) == d % 7) by (nonlinear_arith)
                    requires
                        d < 0,
                ;
            }
        }
        if m == 0 {
            Weekday::Thu
        } else if m == 1 {
            Weekday::Fri
        } else if m == 2 {
            Weekday::Sat
        } else if m == 3 {
            Weekday::Sun
        } else if m == 4 {
            Weekday::Mon
        } else if m == 5 {
            Weekday::Tue
        } else {
            Weekday::Wed
        }
    }
}

/// Compact flags for which weekdays a service runs.
#[derive(Clone, Copy, Debug, Default)]
pub struct WeekdayFlags {
    pub flags: u8,
}

impl WeekdayFlags {
    /// Whether the day's flag is set.
    pub open spec fn contains_spec(self, w: Weekday) -> bool {
        self.flags & day_bit(w) != 0
    }

    pub fn new() -> (r: WeekdayFlags)
        ensures
            r.flags == 0,
            forall|w: Weekday| !r.contains_spec(w),
    {
        let r = WeekdayFlags { flags: 0 };
        proof {
            assert forall|w: Weekday| !r.contains_spec(w) by {
                let b = day_bit(w);
                assert(0u8 & b == 0) by (bit_vector);
            }
        }
        r
    }

    /// Set the day's flag, leaving every other day as it was.
    pub fn set(&mut self, weekday: Weekday)
        ensures
            final(self).flags == old(self).flags | day_bit(weekday),
            final(self).contains_spec(weekday),
            forall|w: Weekday| w != weekday ==> final(self).contains_spec(w) == old(
                self,
            ).contains_spec(w),
    {
        let bit = day_flag(weekday);
        self.flags = self.flags | bit;
        proof {
            lemma_or_bit(old(self).flags, day_bit(weekday));
            assert forall|w: Weekday| w != weekday implies self.contains_spec(w) == old(
                self,
            ).contains_spec(w) by {
                lemma_bits_disjoint(weekday, w);
                lemma_or_other(old(self).flags, day_bit(weekday), day_bit(w));
            }
        }
    }

    /// Clear the day's flag, leaving every other day as it was.
    pub fn unset(&mut self, weekday: Weekday)
        ensures
            !final(self).contains_spec(weekday),
            forall|w: Weekday| w != weekday ==> final(self).contains_spec(w) == old(
                self,
            ).contains_spec(w),
    {
        let bit = day_flag(weekday);
        self.flags = self.flags & !bit;
        proof {
            lemma_andnot_bit(old(self).flags, day_bit(weekday));
            assert forall|w: Weekday| w != weekday implies self.contains_spec(w) == old(
                self,
            ).contains_spec(w) by {
                lemma_bits_disjoint(weekday, w);
                lemma_andnot_other(old(self).flags, day_bit(weekday), day_bit(w));
            }
        }
    }

    /// Whether the service runs on the given weekday.
    pub fn contains(&self, weekday: Weekday) -> (r: bool)
        ensures
            r == self.contains_spec(weekday),
    {
        let bit = day_flag(weekday);
        (self.flags & bit) != 0
    }

    /// Build the flags from one answer per day.
    pub fn from_bools(
        mon: bool,
        tue: bool,
        wed: bool,
        thu: bool,
        fri: bool,
        sat: bool,
        sun: bool,
    ) -> (r: WeekdayFlags)
        ensures
            r.contains_spec(Weekday::Mon) == mon,
            r.contains_spec(Weekday::Tue) == tue,
            r.contains_spec(Weekday::Wed) == wed,
            r.contains_spec(Weekday::Thu) == thu,
            r.contains_spec(Weekday::Fri) == fri,
            r.contains_spec(Weekday::Sat) == sat,
            r.contains_spec(Weekday::Sun) == sun,
    {
        let mut flags = WeekdayFlags::new();
        if mon {
            flags.set(Weekday::Mon);
        }
        if tue {
            flags.set(Weekday::Tue);
        }
        if wed {
            flags.set(Weekday::Wed);
        }
        if thu {
            flags.set(Weekday::Thu);
        }
        if fri {
            flags.set(Weekday::Fri);
        }
        if sat {
            flags.set(Weekday::Sat);
        }
        if sun {
            flags.set(Weekday::Sun);
        }
        flags
    }
}

/// The day's flag bit, executable form.
fn day_flag(w: Weekday) -> (r: u8)
    ensures
        r == day_bit(w),
{
    match w {
        Weekday::Mon => 2,
        Weekday::Tue => 4,
        Weekday::Wed => 8,
        Weekday::Thu => 16,
        Weekday::Fri => 32,
        Weekday::Sat => 64,
        Weekday::Sun => 128,
    }
}

proof fn lemma_or_bit(f: u8, b: u8)
    ensures
        (f | b) & b == b,
{
    assert((f | b) & b == b) by (bit_vector);
}

proof fn lemma_or_other(f: u8, b: u8, c: u8)
    requires
        b & c == 0,
    ensures
        ((f | b) & c) == (f & c),
{
    assert(b & c == 0 ==> ((f | b) & c) == (f & c)) by (bit_vector);
}

proof fn lemma_andnot_bit(f: u8, b: u8)
    ensures
        (f & !b) & b == 0,
{
    assert((f & !b) & b == 0) by (bit_vector);
}

proof fn lemma_andnot_other(f: u8, b: u8, c: u8)
    requires
        b & c == 0,
    ensures
        ((f & !b) & c) == (f & c),
{
    assert(b & c == 0 ==> ((f & !b) & c) == (f & c)) by (bit_vector);
}

/// Distinct weekdays use distinct flag bits.
proof fn lemma_bits_disjoint(a: Weekday, b: Weekday)
    requires
        a != b,
    ensures
        day_bit(a) & day_bit(b) == 0,
{
    let x = day_bit(a);
    let y = day_bit(b);
    assert(x & y == 0) by (bit_vector)
        requires
            x != y,
            (x == 2 || x == 4 || x == 8 || x == 16 || x == 32 || x == 64 || x == 128),
            (y == 2 || y == 4 || y == 8 || y == 16 || y == 32 || y == 64 || y == 128),
    ;
}

/// Determines which days a transit service operates: a regular weekday
/// schedule between two dates, with explicitly added and removed exception
/// dates.
#[derive(Clone, Debug)]
pub struct ServiceCalendar {
    pub service_id: ServiceIdentifier,
    pub start_date: ServiceDate,
    pub end_date: ServiceDate,
    pub weekdays: WeekdayFlags,
    /// Service runs on these dates regardless of the regular schedule.
    pub added_dates: Vec<ServiceDate>,
    /// Service does not run on these dates regardless of the regular
    /// schedule.
    pub removed_dates: Vec<ServiceDate>,
}

/// Whether the list holds the date.
pub open spec fn holds_date(v: Seq<ServiceDate>, d: ServiceDate) -> bool {
    exists|i: int| 0 <= i < v.len() && v[i].days == d.days
}

/// The calendar's rule: explicit additions first, then explicit removals,
/// then the regular date range and weekday schedule.
pub open spec fn spec_runs_on(c: ServiceCalendar, date: ServiceDate) -> bool {
    if holds_date(c.added_dates@, date) {
        true
    } else if holds_date(c.removed_dates@, date) {
        false
    } else if date.days < c.start_date.days || date.days > c.end_date.days {
        false
    } else {
        c.weekdays.contains_spec(weekday_of_days(date.days as int))
    }
}

impl ServiceCalendar {
    /// Check whether the service runs on a given date.
    pub fn runs_on(&self, date: ServiceDate) -> (r: bool)
        requires
            date.days > i64::MIN,
        ensures
            r == spec_runs_on(*self, date),
    {
        if contains_date(&self.added_dates, date) {
            return true;
        }
        if contains_date(&self.removed_dates, date) {
            return false;
        }
        if date.days < self.start_date.days || date.days > self.end_date.days {
            return false;
        }
        self.weekdays.contains(date.weekday())
    }
}

fn contains_date(v: &Vec<ServiceDate>, d: ServiceDate) -> (r: bool)
    ensures
        r == holds_date(v@, d),
{
    let mut k: usize = 0;
    while k < v.len()
        invariant
            0 <= k <= v@.len(),
            forall|i: int| 0 <= i < k ==> (#[trigger] v@[i]).days != d.days,
        decreases v@.len() - k,
    {
        if v[k].days == d.days {
            return true;
        }
        k = k + 1;
    }
    false
}

} // verus!
