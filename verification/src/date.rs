//! Calendar dates of the Smoital system.

use chrono::FixedOffset;
use vstd::prelude::*;

use crate::offset::offset_seconds;

verus! {

/// A date given by year, smonth (0-indexed) and day of the smonth (1-indexed).
///
/// Smonths have 36 or 37 days; which of the two depends on the schedule of the
/// year, so a date is only valid relative to a schedule.
#[derive(Debug, Clone, Copy, PartialEq, Eq, Structural)]
pub struct SmoitalDate {
    pub year: i32,
    pub smonth: u32,
    pub day: u32,
}

/// The largest day number whose formula offset `760 - 40 * day` is still
/// within one day of UTC.
pub const MAX_FORMULA_DAY: u32 = 54;

/// The offset, in minutes east of UTC, that the standard formula assigns to
/// the `day`-th day of a smonth.
pub open spec fn formula_offset_minutes(day: int) -> int {
    760 - 40 * day
}

impl SmoitalDate {
    /// The UTC offset of this date by the standard formula, which depends on
    /// the position within the smonth only.
    ///
    /// Day 1 starts at UTC+12:00; each day moves 40 minutes west; day 37, the
    /// Smol day, lies at UTC-12:00.
    pub fn calculate_offset(&self) -> (offset: FixedOffset)
        requires
            self.day <= MAX_FORMULA_DAY,
        ensures
            offset_seconds(offset) == 60 * formula_offset_minutes(self.day as int),
    {
        let d: i32 = self.day as i32;
        let offset_min: i32 = 760 - (40 * d);
        FixedOffset::east_opt(offset_min * 60).unwrap()
    }

    /// Whether this date is a Smol day: the 37th day of its smonth.
    pub fn is_smol_day(&self) -> (smol: bool)
        ensures
            smol == (self.day == 37),
    {
        self.day == 37
    }
}

} // verus!
