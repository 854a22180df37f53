//! Fixed UTC offsets, as provided by `chrono`.
//!
//! The calendar hands out its timezone answers as `chrono::FixedOffset`
//! values. This module states what the library relies on about that type.
//! The statements follow the source of `chrono`; Verus takes them on trust.

use chrono::FixedOffset;
use vstd::prelude::*;

verus! {

/// `chrono::FixedOffset`: an offset from UTC with a resolution of one second.
#[verifier::external_type_specification]
#[verifier::external_body]
pub struct ExFixedOffset(FixedOffset);

/// The number of seconds that a `FixedOffset` lies east of UTC (negative for
/// the western hemisphere): the value that `FixedOffset::local_minus_utc`
/// reports.
pub uninterp spec fn offset_seconds(offset: FixedOffset) -> int;

/// `FixedOffset::east_opt` accepts exactly the offsets of less than one day
/// and yields the offset that lies `secs` seconds east of UTC.
pub assume_specification[ FixedOffset::east_opt ](secs: i32) -> (r: Option<FixedOffset>)
    ensures
        r is Some <==> -86_400 < secs < 86_400,
        r matches Some(offset) ==> offset_seconds(offset) == secs,
;

/// `FixedOffset::west_opt` accepts exactly the offsets of less than one day
/// and yields the offset that lies `secs` seconds west of UTC.
pub assume_specification[ FixedOffset::west_opt ](secs: i32) -> (r: Option<FixedOffset>)
    ensures
        r is Some <==> -86_400 < secs < 86_400,
        r matches Some(offset) ==> offset_seconds(offset) == -secs,
;

/// `FixedOffset::local_minus_utc` returns the seconds that the offset lies
/// east of UTC.
pub assume_specification[ FixedOffset::local_minus_utc ](offset: &FixedOffset) -> (secs: i32)
    ensures
        secs == offset_seconds(*offset),
;

} // verus!
