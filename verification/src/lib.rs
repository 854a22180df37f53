//! Smoital timekeeping: a Mars-aligned calendar packed into a UTC-denominated
//! clock by inserting shortened ("Smol") days and shifting the UTC offset in
//! 40-minute steps.
//!
//! The schedule engine decides, for every day of the year, whether the day is
//! a Smol day and which UTC offset its local midnight corresponds to. The
//! year layer maps between calendar dates and day-of-year indices.

pub mod clock;
pub mod constants;
pub mod date;
pub mod heuristic;
pub mod iana;
pub mod layout;
pub mod offset;
pub mod schedule;
pub mod text;
pub mod year;

pub use clock::{DisplayMode, SmoitalClock};
pub use date::SmoitalDate;
pub use schedule::{EquatorialSchedule, HeuristicSchedule, SmonthSchedule};
pub use year::SmoitalYear;
