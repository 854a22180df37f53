//! Timezone rules in the text format of the IANA timezone database.

use vstd::prelude::*;

use crate::constants::DAYS_IN_YEAR;
use crate::schedule::{HeuristicSchedule, SmonthSchedule};
use crate::text::{append_decimal, append_decimal_digits, decimal_digits, decimal_text};

verus! {

/// The rule line for one day: the year, the day index, and the UTC offset of
/// the day in whole minutes east of UTC.
pub open spec fn rule_text(year: int, day_of_year: nat, offset_minutes: int) -> Seq<char> {
    "Rule "@ + decimal_text(year) + " Smoital only Day"@ + decimal_digits(day_of_year)
        + " 24:00 "@ + decimal_text(offset_minutes)
}

/// Generates the timezone rules of a year: one rule line for each of its
/// days, in order, with the offset that the schedule gives the day.
pub fn generate_year_rules(year: i32, schedule: &HeuristicSchedule) -> (rules: Vec<String>)
    ensures
        rules@.len() == DAYS_IN_YEAR,
        forall|day: int|
            0 <= day < DAYS_IN_YEAR ==> (#[trigger] rules@[day])@ == rule_text(
                year as int,
                day as nat,
                schedule.midnight_offset_minutes(day as nat),
            ),
{
    let mut rules: Vec<String> = Vec::new();
    let mut d: u32 = 0;
    while d < DAYS_IN_YEAR
        invariant
            d <= DAYS_IN_YEAR,
            rules@.len() == d,
            forall|day: int|
                0 <= day < d ==> (#[trigger] rules@[day])@ == rule_text(
                    year as int,
                    day as nat,
                    schedule.midnight_offset_minutes(day as nat),
                ),
        decreases DAYS_IN_YEAR - d,
    {
        let offset = schedule.get_timezone_offset(d);
        let off_min: i32 = offset.local_minus_utc() / 60;
        let mut rule = String::new();
        rule.append("Rule ");
        append_decimal(&mut rule, year as i64);
        rule.append(" Smoital only Day");
        append_decimal_digits(&mut rule, d as u64);
        rule.append(" 24:00 ");
        append_decimal(&mut rule, off_min as i64);
        assert(rule@ =~= rule_text(
            year as int,
            d as nat,
            schedule.midnight_offset_minutes(d as nat),
        ));
        rules.push(rule);
        d += 1;
    }
    rules
}

} // verus!
