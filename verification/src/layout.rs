//! The layout of a year: how long each smonth is and where each day falls.
//!
//! A layout is modelled by the set of indices of its long smonths. Everything
//! else follows from that set: the length of each smonth, the number of days
//! before it, and the smonth and day-of-smonth of every day of the year.

use vstd::prelude::*;

verus! {

/// Days in a standard smonth.
pub const STANDARD_SMONTH_DAYS: u32 = 36;

/// Days in a long smonth. Its last day is the Smol day.
pub const LONG_SMONTH_DAYS: u32 = 37;

/// The length in days of smonth `smonth` in the layout whose long smonths are
/// `long`.
pub open spec fn smonth_length(long: Set<nat>, smonth: nat) -> nat {
    if long.contains(smonth) {
        LONG_SMONTH_DAYS as nat
    } else {
        STANDARD_SMONTH_DAYS as nat
    }
}

/// The number of days that lie in the smonths before `smonth`; equally, the
/// day-of-year index of the first day of `smonth`.
pub open spec fn days_before(long: Set<nat>, smonth: nat) -> nat
    decreases smonth,
{
    if smonth == 0 {
        0
    } else {
        days_before(long, (smonth - 1) as nat) + smonth_length(long, (smonth - 1) as nat)
    }
}

/// Whether the day with index `day_of_year` is one of the days of `smonth`.
pub open spec fn smonth_holds_day(long: Set<nat>, smonth: nat, day_of_year: nat) -> bool {
    days_before(long, smonth) <= day_of_year < days_before(long, smonth + 1)
}

/// The smonth in which the day with index `day_of_year` falls.
pub open spec fn smonth_of_day(long: Set<nat>, day_of_year: nat) -> nat {
    choose|smonth: nat| smonth_holds_day(long, smonth, day_of_year)
}

/// The 1-indexed position within its smonth of the day with index
/// `day_of_year`.
pub open spec fn day_of_smonth(long: Set<nat>, day_of_year: nat) -> nat {
    (day_of_year - days_before(long, smonth_of_day(long, day_of_year)) + 1) as nat
}

/// The first day of the next smonth follows the last day of this one.
pub proof fn lemma_days_before_next(long: Set<nat>, smonth: nat)
    ensures
        days_before(long, smonth + 1) == days_before(long, smonth) + smonth_length(long, smonth),
        36 <= smonth_length(long, smonth) <= 37,
{
}

/// Later smonths start later, by at least 36 and at most 37 days per smonth.
pub proof fn lemma_days_before_grows(long: Set<nat>, earlier: nat, later: nat)
    requires
        earlier <= later,
    ensures
        days_before(long, earlier) + 36 * (later - earlier) <= days_before(long, later),
        days_before(long, later) <= days_before(long, earlier) + 37 * (later - earlier),
    decreases later,
{
    if earlier < later {
        lemma_days_before_grows(long, earlier, (later - 1) as nat);
    }
}

/// No day lies in two smonths.
pub proof fn lemma_smonth_unique(long: Set<nat>, a: nat, b: nat, day_of_year: nat)
    requires
        smonth_holds_day(long, a, day_of_year),
        smonth_holds_day(long, b, day_of_year),
    ensures
        a == b,
{
    if a < b {
        lemma_days_before_grows(long, a + 1, b);
    }
    if b < a {
        lemma_days_before_grows(long, b + 1, a);
    }
}

/// Every day at or after the start of `from` lies in `from` or a later smonth.
proof fn lemma_smonth_found_from(long: Set<nat>, from: nat, day_of_year: nat)
    requires
        days_before(long, from) <= day_of_year,
    ensures
        exists|smonth: nat| smonth_holds_day(long, smonth, day_of_year),
    decreases day_of_year - days_before(long, from),
{
    if day_of_year < days_before(long, from + 1) {
        assert(smonth_holds_day(long, from, day_of_year));
    } else {
        lemma_smonth_found_from(long, from + 1, day_of_year);
    }
}

/// Every day lies in some smonth, so `smonth_of_day` and `day_of_smonth`
/// locate it: the day is the `day_of_smonth`-th day of `smonth_of_day`, and
/// that position is within the smonth's length.
pub proof fn lemma_day_located(long: Set<nat>, day_of_year: nat)
    ensures
        smonth_holds_day(long, smonth_of_day(long, day_of_year), day_of_year),
        1 <= day_of_smonth(long, day_of_year) <= smonth_length(
            long,
            smonth_of_day(long, day_of_year),
        ),
        days_before(long, smonth_of_day(long, day_of_year)) + day_of_smonth(long, day_of_year) - 1
            == day_of_year,
{
    lemma_smonth_found_from(long, 0, day_of_year);
}

/// A smonth that holds the day is the smonth of the day, and the day's
/// position in it is its distance from the smonth's first day.
pub proof fn lemma_located_in(long: Set<nat>, smonth: nat, day_of_year: nat)
    requires
        smonth_holds_day(long, smonth, day_of_year),
    ensures
        smonth_of_day(long, day_of_year) == smonth,
        day_of_smonth(long, day_of_year) == day_of_year - days_before(long, smonth) + 1,
{
    lemma_smonth_unique(long, smonth, smonth_of_day(long, day_of_year), day_of_year);
}

} // verus!
