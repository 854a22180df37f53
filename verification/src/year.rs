//! A calendar year bound to its schedule.

use chrono::FixedOffset;
use vstd::prelude::*;

use crate::constants::MAX_PLAIN_SMONTH;
use crate::date::SmoitalDate;
use crate::layout::{
    day_of_smonth, days_before, lemma_day_located, lemma_days_before_grows,
    lemma_days_before_next, lemma_located_in, smonth_length, smonth_of_day,
};
use crate::offset::offset_seconds;
use crate::schedule::SmonthSchedule;

verus! {

/// Whether `date` is a date of the year `year` in the layout whose long
/// smonths are `long`: the year matches, and the day is one of the days of
/// the smonth.
pub open spec fn date_in_year(long: Set<nat>, year: i32, date: SmoitalDate) -> bool {
    &&& date.year == year
    &&& 1 <= date.day <= smonth_length(long, date.smonth as nat)
}

/// The day-of-year index (0-based) of a date of the year.
pub open spec fn day_index_of_date(long: Set<nat>, date: SmoitalDate) -> int {
    days_before(long, date.smonth as nat) + date.day - 1
}

/// Whether the day index of `date` fits in `u32`. It does for every smonth up
/// to `MAX_PLAIN_SMONTH`, whatever the layout.
pub open spec fn day_index_fits(long: Set<nat>, date: SmoitalDate) -> bool {
    date.smonth <= MAX_PLAIN_SMONTH || day_index_of_date(long, date) <= u32::MAX
}

/// The date of the year `year` on which the day with index `day_of_year`
/// falls.
pub open spec fn date_of_day_index(long: Set<nat>, year: i32, day_of_year: nat) -> SmoitalDate {
    SmoitalDate {
        year,
        smonth: smonth_of_day(long, day_of_year) as u32,
        day: day_of_smonth(long, day_of_year) as u32,
    }
}

/// One calendar year together with the schedule that lays it out.
pub struct SmoitalYear<S: SmonthSchedule> {
    pub year: i32,
    schedule: S,
}

/// What a `SmoitalYear` binds together.
pub struct YearBinding<S> {
    /// The number of the year.
    pub year: i32,
    /// The schedule of the year.
    pub schedule: S,
}

impl<S: SmonthSchedule> View for SmoitalYear<S> {
    type V = YearBinding<S>;

    closed spec fn view(&self) -> YearBinding<S> {
        YearBinding { year: self.year, schedule: self.schedule }
    }
}

impl<S: SmonthSchedule> SmoitalYear<S> {
    /// The schedule that this year is bound to.
    pub open spec fn bound_schedule(&self) -> S {
        self@.schedule
    }

    /// The long smonths of this year.
    pub open spec fn long_smonths(&self) -> Set<nat> {
        self@.schedule.long_smonths()
    }

    /// Whether `date` is a date of this year.
    pub open spec fn has_date(&self, date: SmoitalDate) -> bool {
        date_in_year(self.long_smonths(), self@.year, date)
    }

    /// Binds the year `year` to `schedule`.
    pub fn new(year: i32, schedule: S) -> (bound: Self)
        ensures
            bound@ == (YearBinding { year, schedule }),
    {
        Self { year, schedule }
    }

    /// Returns the UTC offset of the day with index `day_of_year` (0-based).
    pub fn timezone_offset_for_day(&self, day_of_year: u32) -> (offset: FixedOffset)
        ensures
            offset_seconds(offset) == 60 * self.bound_schedule().midnight_offset_minutes(
                day_of_year as nat,
            ),
    {
        self.schedule.get_timezone_offset(day_of_year)
    }

    /// Returns the UTC offset of `date`, or `None` if `date` is not a date of
    /// this year.
    pub fn timezone_offset_for_date(&self, date: &SmoitalDate) -> (offset: Option<FixedOffset>)
        requires
            self.has_date(*date) ==> day_index_fits(self.long_smonths(), *date),
        ensures
            offset is Some <==> self.has_date(*date),
            offset matches Some(o) ==> offset_seconds(o) == 60
                * self.bound_schedule().midnight_offset_minutes(
                day_index_of_date(self.long_smonths(), *date) as nat,
            ),
    {
        match self.day_of_year(date) {
            Some(day) => Some(self.timezone_offset_for_day(day)),
            None => None,
        }
    }

    /// Returns the day-of-year index (0-based) of `date`, or `None` if `date`
    /// is not a date of this year: if its year is another, its day is 0, or
    /// its day exceeds the length of its smonth.
    pub fn day_of_year(&self, date: &SmoitalDate) -> (day_of_year: Option<u32>)
        requires
            self.has_date(*date) ==> day_index_fits(self.long_smonths(), *date),
        ensures
            day_of_year is Some <==> self.has_date(*date),
            day_of_year matches Some(day) ==> day == day_index_of_date(
                self.long_smonths(),
                *date,
            ),
    {
        if date.year != self.year || date.day == 0 {
            return None;
        }
        let ghost long = self.long_smonths();
        let mut day_index: u64 = 0;
        let mut smonth_idx: u32 = 0;
        while smonth_idx < date.smonth
            invariant
                long == self.long_smonths(),
                smonth_idx <= date.smonth,
                day_index == days_before(long, smonth_idx as nat),
            decreases date.smonth - smonth_idx,
        {
            proof {
                lemma_days_before_next(long, smonth_idx as nat);
                lemma_days_before_grows(long, 0, smonth_idx as nat);
            }
            day_index += self.schedule.get_smonth_length(smonth_idx) as u64;
            smonth_idx += 1;
        }
        let smonth_len: u32 = self.schedule.get_smonth_length(date.smonth);
        if date.day > smonth_len {
            return None;
        }
        proof {
            lemma_days_before_grows(long, 0, date.smonth as nat);
        }
        Some((day_index + (date.day - 1) as u64) as u32)
    }

    /// Returns the date on which the day with index `day_of_year` (0-based)
    /// falls. Every day index has a date; it may lie in a smonth beyond the
    /// usual length of a year.
    pub fn date_from_day(&self, day_of_year: u32) -> (date: SmoitalDate)
        ensures
            date == date_of_day_index(self.long_smonths(), self@.year, day_of_year as nat),
            self.has_date(date),
            day_index_of_date(self.long_smonths(), date) == day_of_year,
    {
        let ghost long = self.long_smonths();
        let mut remaining: u32 = day_of_year;
        let mut smonth_idx: u32 = 0;
        loop
            invariant
                long == self.long_smonths(),
                days_before(long, smonth_idx as nat) + remaining == day_of_year,
            decreases remaining,
        {
            let smonth_len: u32 = self.schedule.get_smonth_length(smonth_idx);
            proof {
                lemma_days_before_next(long, smonth_idx as nat);
                lemma_days_before_grows(long, 0, smonth_idx as nat);
            }
            if remaining < smonth_len {
                proof {
                    lemma_located_in(long, smonth_idx as nat, day_of_year as nat);
                }
                return SmoitalDate { year: self.year, smonth: smonth_idx, day: remaining + 1 };
            }
            remaining -= smonth_len;
            smonth_idx += 1;
        }
    }

    /// Access the underlying schedule.
    pub fn schedule(&self) -> (schedule: &S)
        ensures
            *schedule == self.bound_schedule(),
    {
        &self.schedule
    }
}

/// Round trip from a date: the date of the day index of a date of the year
/// is that date again.
pub proof fn lemma_date_round_trip<S: SmonthSchedule>(year: SmoitalYear<S>, date: SmoitalDate)
    requires
        year.has_date(date),
    ensures
        date_of_day_index(
            year.long_smonths(),
            year@.year,
            day_index_of_date(year.long_smonths(), date) as nat,
        ) == date,
{
    let long = year.long_smonths();
    lemma_days_before_next(long, date.smonth as nat);
    lemma_located_in(long, date.smonth as nat, day_index_of_date(long, date) as nat);
}

/// Round trip from a day index: the date of a day index is a date of the
/// year, and its day index is the one it was made from.
pub proof fn lemma_day_round_trip<S: SmonthSchedule>(year: SmoitalYear<S>, day_of_year: nat)
    requires
        day_of_year <= u32::MAX,
    ensures
        year.has_date(date_of_day_index(year.long_smonths(), year@.year, day_of_year)),
        day_index_of_date(
            year.long_smonths(),
            date_of_day_index(year.long_smonths(), year@.year, day_of_year),
        ) == day_of_year,
{
    let long = year.long_smonths();
    lemma_day_located(long, day_of_year);
    lemma_days_before_grows(long, 0, smonth_of_day(long, day_of_year));
}

} // verus!
