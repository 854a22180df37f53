//! Smonth schedules: which smonths of a year are long, and the UTC offset of
//! every day of the year.

use chrono::FixedOffset;
use vstd::prelude::*;

use crate::constants::{
    C1_SECONDS, C2_HUNDREDTHS, C3_HUNDREDTHS, MAX_FIRST_LONG_SMONTH, SMOL_DAYS_PER_YEAR,
    STEP_SECONDS,
};
use crate::date::formula_offset_minutes;
use crate::heuristic::{
    first_long_smonth, heuristic_offset_minutes, lemma_filter_take_step,
    lemma_first_long_smonth_range, lemma_rounded_40min, lemma_smol_days_all_kept,
    lemma_wrapped_minutes, nonnegative, rounded_40min, smol_day_candidates, smol_days,
    smol_days_before, smol_spacings, start_offset_minutes, strictly_before, wrapped_minutes,
};
use crate::layout::{
    day_of_smonth, days_before, lemma_day_located, lemma_days_before_grows,
    lemma_days_before_next, lemma_located_in, smonth_length, smonth_of_day, LONG_SMONTH_DAYS,
    STANDARD_SMONTH_DAYS,
};
use crate::offset::offset_seconds;

verus! {

/// The offset of the Smol day, in minutes east of UTC: UTC-12:00.
pub const SMOL_DAY_OFFSET_MINUTES: i32 = -720;

/// The layout of a year and the UTC offset of each of its days.
pub trait SmonthSchedule {
    /// The indices (0-based) of the smonths that are 37 days long.
    spec fn long_smonths(&self) -> Set<nat>;

    /// The UTC offset of the day with index `day_of_year`, in minutes east of
    /// UTC.
    spec fn midnight_offset_minutes(&self, day_of_year: nat) -> int;

    /// Returns true if the smonth at the given index is 37 days long.
    fn is_smol_smonth(&self, smonth_index: u32) -> (long: bool)
        ensures
            long == self.long_smonths().contains(smonth_index as nat),
    ;

    /// Returns the length of the smonth in days: 37 if it is long, else 36.
    fn get_smonth_length(&self, smonth_index: u32) -> (length: u32)
        ensures
            length == smonth_length(self.long_smonths(), smonth_index as nat),
    {
        if self.is_smol_smonth(smonth_index) {
            LONG_SMONTH_DAYS
        } else {
            STANDARD_SMONTH_DAYS
        }
    }

    /// Returns the UTC offset of the day with index `day_of_year` (0-based).
    /// It is less than a day away from UTC.
    fn get_timezone_offset(&self, day_of_year: u32) -> (offset: FixedOffset)
        ensures
            offset_seconds(offset) == 60 * self.midnight_offset_minutes(day_of_year as nat),
            -1440 < self.midnight_offset_minutes(day_of_year as nat) < 1440,
    ;
}

/// The offset, in minutes east of UTC, of the day with index `day_of_year` in
/// a year whose offsets restart with every smonth: the Smol day of a long
/// smonth is pinned to UTC-12:00, every other day follows the standard
/// formula on its position within its smonth.
pub open spec fn smonth_offset_minutes(long: Set<nat>, day_of_year: nat) -> int {
    let smonth = smonth_of_day(long, day_of_year);
    let day = day_of_smonth(long, day_of_year);
    if long.contains(smonth) && day == 37 {
        SMOL_DAY_OFFSET_MINUTES as int
    } else {
        formula_offset_minutes(day as int)
    }
}

/// The pin of the Smol day agrees with the standard formula, which gives day
/// 37 the offset UTC-12:00: every day has the offset that the formula gives
/// its position within its smonth, and no offset is more than 12 hours away
/// from UTC.
pub proof fn lemma_smonth_offset_follows_formula(long: Set<nat>, day_of_year: nat)
    ensures
        smonth_offset_minutes(long, day_of_year) == formula_offset_minutes(
            day_of_smonth(long, day_of_year) as int,
        ),
        -720 <= smonth_offset_minutes(long, day_of_year) <= 720,
{
    lemma_day_located(long, day_of_year);
}

/// The two parameters of an equatorial schedule.
pub struct EquatorialPattern {
    /// Index of the first long smonth.
    pub first_long: nat,
    /// The distances from `first_long` at which long smonths lie.
    pub offsets: Seq<nat>,
}

impl EquatorialPattern {
    /// The pattern of every equatorial schedule: long smonths at the indices
    /// 6, 7, 9, 10, 12, 14 and 16.
    pub open spec fn standard() -> EquatorialPattern {
        EquatorialPattern { first_long: 6, offsets: seq![0, 1, 3, 4, 6, 8, 10] }
    }

    /// The long smonths of the pattern: those at a listed distance from the
    /// first one. The pattern does not repeat.
    pub open spec fn long_smonths(self) -> Set<nat> {
        Set::new(
            |smonth: nat|
                smonth >= self.first_long && self.offsets.contains(
                    (smonth - self.first_long) as nat,
                ),
        )
    }
}

/// The equatorial schedule: a fixed pattern that is used unchanged every
/// year. A run of standard smonths is followed by a cluster of long ones.
pub struct EquatorialSchedule {
    first_long_smonth_index: u32,
    long_smonth_offsets: [u32; 7],
}

impl View for EquatorialSchedule {
    type V = EquatorialPattern;

    closed spec fn view(&self) -> EquatorialPattern {
        EquatorialPattern {
            first_long: self.first_long_smonth_index as nat,
            offsets: self.long_smonth_offsets@.map_values(|offset: u32| offset as nat),
        }
    }
}

impl Default for EquatorialSchedule {
    fn default() -> (schedule: Self)
        ensures
            schedule@ == EquatorialPattern::standard(),
    {
        let schedule = Self {
            first_long_smonth_index: 6,
            long_smonth_offsets: [0, 1, 3, 4, 6, 8, 10],
        };
        assert(schedule@.offsets =~= EquatorialPattern::standard().offsets);
        schedule
    }
}

impl EquatorialSchedule {
    /// The equatorial schedule. There is only one.
    pub fn new() -> (schedule: Self)
        ensures
            schedule@ == EquatorialPattern::standard(),
    {
        Self::default()
    }
}

impl SmonthSchedule for EquatorialSchedule {
    open spec fn long_smonths(&self) -> Set<nat> {
        self@.long_smonths()
    }

    open spec fn midnight_offset_minutes(&self, day_of_year: nat) -> int {
        smonth_offset_minutes(self@.long_smonths(), day_of_year)
    }

    fn is_smol_smonth(&self, smonth_index: u32) -> (long: bool) {
        if smonth_index < self.first_long_smonth_index {
            return false;
        }
        let relative_index: u32 = smonth_index - self.first_long_smonth_index;
        let mut i: usize = 0;
        while i < 7
            invariant
                i <= 7,
                relative_index == smonth_index - self@.first_long,
                forall|k: int| 0 <= k < i ==> self@.offsets[k] != relative_index,
            decreases 7 - i,
        {
            if self.long_smonth_offsets[i] == relative_index {
                assert(self@.offsets[i as int] == (smonth_index - self@.first_long) as nat);
                return true;
            }
            i += 1;
        }
        false
    }

    fn get_timezone_offset(&self, day_of_year: u32) -> (offset: FixedOffset) {
        let ghost long = self.long_smonths();
        let mut current_day_sum: u64 = 0;
        let mut smonth_idx: u32 = 0;
        let mut smonth_len: u32 = self.get_smonth_length(smonth_idx);
        while current_day_sum + smonth_len as u64 <= day_of_year as u64
            invariant
                long == self.long_smonths(),
                current_day_sum == days_before(long, smonth_idx as nat),
                current_day_sum <= day_of_year,
                smonth_len == smonth_length(long, smonth_idx as nat),
            decreases day_of_year - current_day_sum,
        {
            proof {
                lemma_days_before_next(long, smonth_idx as nat);
                lemma_days_before_grows(long, 0, smonth_idx as nat + 1);
            }
            current_day_sum += smonth_len as u64;
            smonth_idx += 1;
            smonth_len = self.get_smonth_length(smonth_idx);
        }
        proof {
            lemma_days_before_next(long, smonth_idx as nat);
            lemma_located_in(long, smonth_idx as nat, day_of_year as nat);
            lemma_smonth_offset_follows_formula(long, day_of_year as nat);
        }
        let day_of_smonth: u32 = (day_of_year as u64 - current_day_sum + 1) as u32;
        let is_long_month = smonth_len == LONG_SMONTH_DAYS;
        if is_long_month && day_of_smonth == LONG_SMONTH_DAYS {
            return FixedOffset::west_opt(12 * 3600).unwrap();
        }
        let offset_minutes: i32 = 760 - (40 * day_of_smonth as i32);
        FixedOffset::east_opt(offset_minutes * 60).unwrap()
    }
}

/// Every smonth before the first long one is a standard smonth: it is not
/// long, and it has 36 days.
pub proof fn lemma_standard_before_first_long(schedule: EquatorialSchedule, smonth_index: u32)
    requires
        smonth_index < schedule@.first_long,
    ensures
        !schedule.long_smonths().contains(smonth_index as nat),
        smonth_length(schedule.long_smonths(), smonth_index as nat) == 36,
{
}

/// The long smonths of the equatorial schedule are exactly the smonths 6, 7,
/// 9, 10, 12, 14 and 16.
pub proof fn lemma_equatorial_long_smonths(schedule: EquatorialSchedule)
    requires
        schedule@ == EquatorialPattern::standard(),
    ensures
        schedule.long_smonths() == set![6nat, 7nat, 9nat, 10nat, 12nat, 14nat, 16nat],
{
    let offsets = schedule@.offsets;
    let listed = set![6nat, 7nat, 9nat, 10nat, 12nat, 14nat, 16nat];
    assert forall|smonth: nat| schedule.long_smonths().contains(smonth) implies listed.contains(
        smonth,
    ) by {
        let k = choose|k: int| 0 <= k < offsets.len() && offsets[k] == smonth - 6;
        assert(0 <= k < 7);
    }
    assert forall|smonth: nat| listed.contains(smonth) implies schedule.long_smonths().contains(
        smonth,
    ) by {
        assert(offsets[0] == 0 && offsets[1] == 1 && offsets[2] == 3 && offsets[3] == 4
            && offsets[4] == 6 && offsets[5] == 8 && offsets[6] == 10);
    }
    assert(schedule.long_smonths() =~= listed);
}

/// What a heuristic schedule has fixed for its year.
pub struct HeuristicPlan {
    /// The offset of day 0, in minutes east of UTC.
    pub start_offset: int,
    /// The day-of-year indices of the Smol days, in the order in which the
    /// heuristic places them.
    pub smol_days: Seq<int>,
}

/// The heuristic schedule: the Smol days and offsets of one year, derived
/// once from the natural timezone of a place and then frozen.
pub struct HeuristicSchedule {
    start_offset: i32,
    smol_dates: Vec<u32>,
}

impl View for HeuristicSchedule {
    type V = HeuristicPlan;

    closed spec fn view(&self) -> HeuristicPlan {
        HeuristicPlan {
            start_offset: self.start_offset as int,
            smol_days: self.smol_dates@.map_values(|day: u32| day as int),
        }
    }
}

impl HeuristicSchedule {
    /// A year never has more Smol days than the heuristic places.
    #[verifier::type_invariant]
    closed spec fn within_smol_day_count(&self) -> bool {
        self.smol_dates@.len() <= SMOL_DAYS_PER_YEAR
    }

    /// The schedule for a place whose natural timezone lies `natural_tz_secs`
    /// seconds east of UTC. The year is not used by the heuristic.
    ///
    /// The year starts at the natural timezone, shifted by C1 and rounded to
    /// a multiple of 40 minutes. It has six Smol days, placed after the
    /// first long smonth, which the smoitus factor selects.
    pub fn new(_year: i32, natural_tz_secs: i32) -> (schedule: Self)
        ensures
            schedule@.start_offset == start_offset_minutes(natural_tz_secs as int),
            schedule@.smol_days == smol_days(first_long_smonth(natural_tz_secs as int)),
            schedule@.smol_days == smol_day_candidates(first_long_smonth(natural_tz_secs as int)),
    {
        let raw_start: i64 = natural_tz_secs as i64 + C1_SECONDS;
        let start_offset: i32 = Self::wrap_24hr(Self::round_40min(raw_start));
        let smoitus: i64 = (raw_start + STEP_SECONDS / 2) % STEP_SECONDS;
        let first_long: i64 = (C2_HUNDREDTHS * STEP_SECONDS + C3_HUNDREDTHS * smoitus) / (100
            * STEP_SECONDS);
        proof {
            lemma_first_long_smonth_range(natural_tz_secs as int);
            lemma_smol_days_all_kept(first_long as int);
        }
        Self::with_seed(start_offset, first_long as i32)
    }

    /// The schedule of a year that starts at `start_offset` minutes east of
    /// UTC and whose first long smonth is `first_long_smonth`.
    ///
    /// A Smol day whose day index would be negative is left out.
    pub fn with_seed(start_offset: i32, first_long_smonth: i32) -> (schedule: Self)
        requires
            first_long_smonth <= MAX_FIRST_LONG_SMONTH,
        ensures
            schedule@.start_offset == start_offset,
            schedule@.smol_days == smol_days(first_long_smonth as int),
    {
        let spacings: [i64; 7] = [1, 2, 4, 5, 7, 9, 11];
        let ghost candidates = smol_day_candidates(first_long_smonth as int);
        let mut smol_dates: Vec<u32> = Vec::new();
        let mut n: usize = 0;
        while n < SMOL_DAYS_PER_YEAR
            invariant
                n <= SMOL_DAYS_PER_YEAR,
                spacings@.map_values(|spacing: i64| spacing as int) == smol_spacings(),
                candidates == smol_day_candidates(first_long_smonth as int),
                first_long_smonth <= MAX_FIRST_LONG_SMONTH,
                smol_dates@.len() <= n,
                smol_dates@.map_values(|day: u32| day as int) == candidates.take(n as int).filter(
                    nonnegative(),
                ),
            decreases SMOL_DAYS_PER_YEAR - n,
        {
            let date_idx: i64 = 36 * (first_long_smonth as i64 + spacings[n]) + n as i64;
            proof {
                assert(spacings@.map_values(|spacing: i64| spacing as int)[n as int]
                    == smol_spacings()[n as int]);
                assert(date_idx == candidates[n as int]);
                lemma_filter_take_step(candidates, nonnegative(), n as int);
            }
            if date_idx >= 0 {
                smol_dates.push(date_idx as u32);
                assert(smol_dates@.map_values(|day: u32| day as int) =~= candidates.take(
                    n as int,
                ).filter(nonnegative()).push(date_idx as int));
            }
            n += 1;
        }
        assert(candidates.take(SMOL_DAYS_PER_YEAR as int) =~= candidates);
        HeuristicSchedule { start_offset, smol_dates }
    }

    /// Rounds a time of `seconds` seconds to the nearest multiple of 40
    /// minutes and returns it in minutes. A tie goes away from zero.
    pub fn round_40min(seconds: i64) -> (minutes: i64)
        ensures
            minutes == rounded_40min(seconds as int),
            minutes % 40 == 0,
            -1200 <= seconds - 60 * minutes <= 1200,
    {
        proof {
            lemma_rounded_40min(seconds as int);
        }
        let wide: i128 = seconds as i128;
        let steps: i128 = if wide >= 0 {
            (2 * wide + 2400) / 4800
        } else {
            -((2 * (-wide) + 2400) / 4800)
        };
        (40 * steps) as i64
    }

    /// Brings an offset in minutes into the range (-720, 720] by adding or
    /// subtracting whole days.
    pub fn wrap_24hr(minutes: i64) -> (wrapped: i32)
        ensures
            wrapped == wrapped_minutes(minutes as int),
            -720 < wrapped <= 720,
            (wrapped - minutes) % 1440 == 0,
    {
        proof {
            lemma_wrapped_minutes(minutes as int);
        }
        let shifted: i128 = minutes as i128 + 719;
        let remainder: i128 = shifted % 1440;
        let within_day: i128 = if remainder < 0 {
            remainder + 1440
        } else {
            remainder
        };
        (within_day - 719) as i32
    }

    /// Whether `day_of_year` is one of the Smol days of the year.
    pub fn is_smol_date(&self, day_of_year: u32) -> (smol: bool)
        ensures
            smol == self@.smol_days.contains(day_of_year as int),
    {
        let mut i: usize = 0;
        while i < self.smol_dates.len()
            invariant
                i <= self.smol_dates@.len(),
                forall|k: int| 0 <= k < i ==> self@.smol_days[k] != day_of_year,
            decreases self.smol_dates@.len() - i,
        {
            if self.smol_dates[i] == day_of_year {
                assert(self@.smol_days[i as int] == day_of_year);
                return true;
            }
            i += 1;
        }
        false
    }

    /// The number of Smol days that lie strictly before `day_of_year`.
    pub fn smol_count_before(&self, day_of_year: u32) -> (count: u32)
        ensures
            count == smol_days_before(self@.smol_days, day_of_year as int),
            count <= SMOL_DAYS_PER_YEAR,
    {
        proof {
            use_type_invariant(self);
        }
        let ghost days = self@.smol_days;
        let mut count: u32 = 0;
        let mut i: usize = 0;
        while i < self.smol_dates.len()
            invariant
                i <= self.smol_dates@.len() <= SMOL_DAYS_PER_YEAR,
                days == self@.smol_days,
                count <= i,
                count == days.take(i as int).filter(strictly_before(day_of_year as int)).len(),
            decreases self.smol_dates@.len() - i,
        {
            proof {
                lemma_filter_take_step(days, strictly_before(day_of_year as int), i as int);
            }
            if self.smol_dates[i] < day_of_year {
                count += 1;
            }
            i += 1;
        }
        assert(days.take(i as int) =~= days);
        count
    }
}

impl SmonthSchedule for HeuristicSchedule {
    /// The heuristic works on days, not on smonths: it names no long smonth.
    open spec fn long_smonths(&self) -> Set<nat> {
        Set::empty()
    }

    open spec fn midnight_offset_minutes(&self, day_of_year: nat) -> int {
        heuristic_offset_minutes(self@.start_offset, self@.smol_days, day_of_year as int)
    }

    /// Always false: callers that need the Smol days of a heuristic year ask
    /// for them by day, with `is_smol_date` or `get_timezone_offset`.
    fn is_smol_smonth(&self, _smonth_index: u32) -> (long: bool) {
        false
    }

    fn get_timezone_offset(&self, day_of_year: u32) -> (offset: FixedOffset) {
        if self.is_smol_date(day_of_year) {
            return FixedOffset::west_opt(12 * 3600).unwrap();
        }
        let smol_count: u32 = self.smol_count_before(day_of_year);
        let adjustment: i64 = 40 * (day_of_year as i64 - smol_count as i64);
        let offset_minutes: i32 = Self::wrap_24hr(self.start_offset as i64 - adjustment);
        FixedOffset::east_opt(offset_minutes * 60).unwrap()
    }
}

} // verus!
