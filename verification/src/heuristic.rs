//! The arithmetic of the heuristic schedule.
//!
//! The heuristic starts from the natural timezone of a place, its mean solar
//! time offset from UTC. All quantities here are exact: the natural timezone
//! is given in whole seconds, offsets are whole minutes, and the fractional
//! quantities of the heuristic are carried as numerators over a fixed
//! denominator.

use vstd::prelude::*;

use crate::constants::{C1_SECONDS, C2_HUNDREDTHS, C3_HUNDREDTHS, STEP_MINS, STEP_SECONDS};

verus! {

/// `minutes` brought into the range (-720, 720] by adding or subtracting
/// whole days.
pub open spec fn wrapped_minutes(minutes: int) -> int {
    (minutes + 719) % 1440 - 719
}

/// The integer nearest to `num / den`, for a positive `den`. A tie goes away
/// from zero.
pub open spec fn round_half_away(num: int, den: int) -> int {
    if num >= 0 {
        (2 * num + den) / (2 * den)
    } else {
        -((2 * (-num) + den) / (2 * den))
    }
}

/// The fractional part of `num / den`, as a numerator over the positive
/// `den`. It has the sign of `num`.
pub open spec fn fraction_numerator(num: int, den: int) -> int {
    if num >= 0 {
        num % den
    } else {
        -((-num) % den)
    }
}

/// A time of `seconds` seconds rounded to the nearest multiple of 40
/// minutes, in minutes.
pub open spec fn rounded_40min(seconds: int) -> int {
    STEP_MINS * round_half_away(seconds, STEP_SECONDS as int)
}

/// The raw starting offset of the year, in seconds: the natural timezone
/// shifted by C1.
pub open spec fn raw_start_seconds(natural_tz_secs: int) -> int {
    natural_tz_secs + C1_SECONDS
}

/// The offset of day 0 of the year, in minutes east of UTC: the raw start
/// rounded to a multiple of 40 minutes and wrapped into (-720, 720].
pub open spec fn start_offset_minutes(natural_tz_secs: int) -> int {
    wrapped_minutes(rounded_40min(raw_start_seconds(natural_tz_secs)))
}

/// The smoitus factor, as a numerator over `STEP_SECONDS`: the fractional
/// part of the raw start, counted in steps of 40 minutes and advanced by
/// half a step.
pub open spec fn smoitus_numerator(natural_tz_secs: int) -> int {
    fraction_numerator(
        raw_start_seconds(natural_tz_secs) + STEP_SECONDS / 2,
        STEP_SECONDS as int,
    )
}

/// The index of the first long smonth: C2 plus C3 times the smoitus factor,
/// rounded down. The third term of the heuristic, the start of the smonth
/// over C4, is zero.
pub open spec fn first_long_smonth(natural_tz_secs: int) -> int {
    (C2_HUNDREDTHS * STEP_SECONDS + C3_HUNDREDTHS * smoitus_numerator(natural_tz_secs)) / (100
        * STEP_SECONDS)
}

/// The spacing pattern of the Smol days, in smonths after the first long
/// smonth.
pub open spec fn smol_spacings() -> Seq<int> {
    seq![1, 2, 4, 5, 7, 9, 11]
}

/// The day index that the heuristic computes for the `n`-th Smol day of the
/// year. It may be negative.
pub open spec fn smol_day_candidate(first_long: int, n: int) -> int {
    36 * (first_long + smol_spacings()[n]) + n
}

/// The candidates for the six Smol days of a year, in order.
pub open spec fn smol_day_candidates(first_long: int) -> Seq<int> {
    Seq::new(6, |n: int| smol_day_candidate(first_long, n))
}

/// The test for a day index that is not negative.
pub open spec fn nonnegative() -> spec_fn(int) -> bool {
    |day: int| day >= 0
}

/// The test for a day index that lies strictly before `day_of_year`.
pub open spec fn strictly_before(day_of_year: int) -> spec_fn(int) -> bool {
    |day: int| day < day_of_year
}

/// The Smol days of a year whose first long smonth is `first_long`: the
/// candidates that are not negative, in order.
pub open spec fn smol_days(first_long: int) -> Seq<int> {
    smol_day_candidates(first_long).filter(nonnegative())
}

/// The number of Smol days that lie strictly before `day_of_year`.
pub open spec fn smol_days_before(smol_days: Seq<int>, day_of_year: int) -> nat {
    smol_days.filter(strictly_before(day_of_year)).len()
}

/// The offset, in minutes east of UTC, of the day with index `day_of_year`
/// in a year that starts at `start_offset` and has the given Smol days: a
/// Smol day is pinned to UTC-12:00; any other day lies 40 minutes west of
/// the start for every standard day before it.
pub open spec fn heuristic_offset_minutes(
    start_offset: int,
    smol_days: Seq<int>,
    day_of_year: int,
) -> int {
    if smol_days.contains(day_of_year) {
        -720
    } else {
        wrapped_minutes(
            start_offset - STEP_MINS * (day_of_year - smol_days_before(smol_days, day_of_year)),
        )
    }
}

/// A wrapped offset lies in (-720, 720] and differs from the given offset by
/// whole days.
pub proof fn lemma_wrapped_minutes(minutes: int)
    ensures
        -720 < wrapped_minutes(minutes) <= 720,
        (wrapped_minutes(minutes) - minutes) % 1440 == 0,
{
}

/// A rounded time is a multiple of 40 minutes and lies within 20 minutes of
/// the given time.
pub proof fn lemma_rounded_40min(seconds: int)
    ensures
        rounded_40min(seconds) % 40 == 0,
        -1200 <= seconds - 60 * rounded_40min(seconds) <= 1200,
{
    let steps = round_half_away(seconds, 2400);
    assert(rounded_40min(seconds) == 40 * steps);
}

/// The smoitus factor lies strictly between -1 and 1, so the first long
/// smonth is one of the smonths 2 to 6.
pub proof fn lemma_first_long_smonth_range(natural_tz_secs: int)
    ensures
        -STEP_SECONDS < smoitus_numerator(natural_tz_secs) < STEP_SECONDS,
        2 <= first_long_smonth(natural_tz_secs) <= 6,
{
    let smoitus = smoitus_numerator(natural_tz_secs);
    assert(first_long_smonth(natural_tz_secs) == (1_082_400 + 154 * smoitus) / 240_000);
}

/// From a first long smonth of -1 on, none of the first `n` candidates is
/// negative.
proof fn lemma_candidates_kept(first_long: int, n: int)
    requires
        first_long >= -1,
        0 <= n <= 6,
    ensures
        smol_day_candidates(first_long).take(n).filter(nonnegative()) == smol_day_candidates(
            first_long,
        ).take(n),
    decreases n,
{
    let candidates = smol_day_candidates(first_long);
    if n == 0 {
        reveal(Seq::filter);
        assert(candidates.take(0).filter(nonnegative()) =~= candidates.take(0));
    } else {
        lemma_candidates_kept(first_long, n - 1);
        lemma_filter_take_step(candidates, nonnegative(), n - 1);
        assert(candidates.take(n) =~= candidates.take(n - 1).push(candidates[n - 1]));
    }
}

/// From a first long smonth of -1 on, no candidate is negative: the year has
/// all six Smol days.
pub proof fn lemma_smol_days_all_kept(first_long: int)
    requires
        first_long >= -1,
    ensures
        smol_days(first_long) == smol_day_candidates(first_long),
{
    let candidates = smol_day_candidates(first_long);
    lemma_candidates_kept(first_long, 6);
    assert(candidates.take(6) =~= candidates);
}

/// Filtering one element more: the element at `n` joins the filtered prefix
/// if it passes the test.
pub proof fn lemma_filter_take_step<A>(s: Seq<A>, pred: spec_fn(A) -> bool, n: int)
    requires
        0 <= n < s.len(),
    ensures
        s.take(n + 1).filter(pred) == if pred(s[n]) {
            s.take(n).filter(pred).push(s[n])
        } else {
            s.take(n).filter(pred)
        },
{
    reveal(Seq::filter);
    assert(s.take(n + 1).drop_last() =~= s.take(n));
}

} // verus!
