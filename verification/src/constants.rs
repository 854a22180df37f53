//! The fixed parameters of the calendar.

use vstd::prelude::*;

verus! {

/// Length of a standard day in minutes (24h 40m).
pub const STANDARD_DAY_MINS: i64 = 24 * 60 + 40;

/// Length of a Smol day in minutes (24h 00m).
pub const SMOL_DAY_MINS: i64 = 24 * 60;

/// Number of days in a year.
pub const DAYS_IN_YEAR: u32 = 668;

/// The step, in minutes, by which the UTC offset moves from one day to the
/// next, and to whose multiples a starting offset is rounded.
pub const STEP_MINS: i64 = 40;

/// The same step in seconds.
pub const STEP_SECONDS: i64 = 2400;

/// Number of Smol days that the heuristic places in a year.
pub const SMOL_DAYS_PER_YEAR: usize = 6;

/// The largest first long smonth for which all Smol days of the heuristic
/// have a day index that fits in `u32`.
pub const MAX_FIRST_LONG_SMONTH: i32 = 119_304_637;

/// The largest smonth index for which the day index of every date fits in
/// `u32`, however many of the smonths before it are long.
pub const MAX_PLAIN_SMONTH: u32 = 116_080_196;

/// Heuristic coefficient C1: the shift, in seconds, that is added to the
/// natural timezone.
pub const C1_SECONDS: i64 = 85;

/// Heuristic coefficient C2 = 4.51, in hundredths.
pub const C2_HUNDREDTHS: i64 = 451;

/// Heuristic coefficient C3 = 1.54, in hundredths.
pub const C3_HUNDREDTHS: i64 = 154;

} // verus!
