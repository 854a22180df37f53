//! Clock display for the extended 40 minutes of a standard day.
//!
//! A standard day is 40 minutes longer than a UTC day. On the UTC clock the
//! extra minutes show as the last 40 minutes of the day, from 23:20 on, and
//! there are several ways to write them.

use vstd::prelude::*;

use crate::text::{append_two_digits, two_digit_text};

verus! {

/// What a UTC clock shows at some instant: an hour from 0 to 23, a minute
/// and a second from 0 to 59.
#[derive(Debug, Clone, Copy, PartialEq, Eq, Structural)]
pub struct ClockReading {
    /// Hour of the day.
    pub hour: u32,
    /// Minute of the hour.
    pub minute: u32,
    /// Second of the minute.
    pub second: u32,
}

/// Display modes for the extended 40 minutes of a standard day.
#[derive(Debug, Clone, Copy, PartialEq, Eq, Structural)]
pub enum DisplayMode {
    /// The plain UTC reading (23:20).
    Unoptimized,
    /// Hours run on past 23 (24:00).
    Overflowed,
    /// Minutes run on past 59 (23:60).
    ExtendedMinutes,
    /// A third half-day after AM and PM (12:00 XM).
    XM,
}

/// Whether a clock reading lies in the extended window, the last 40 minutes
/// of the UTC day.
pub open spec fn in_extended_window(hour: nat, minute: nat) -> bool {
    hour == 23 && minute >= 20
}

/// The plain reading `HH:MM:SS`.
pub open spec fn plain_clock_text(hour: nat, minute: nat, second: nat) -> Seq<char> {
    two_digit_text(hour) + ":"@ + two_digit_text(minute) + ":"@ + two_digit_text(second)
}

/// The text that shows the reading `hour:minute:second` in `mode`.
///
/// Outside the extended window every mode shows the plain reading. Inside
/// it, 23:20 becomes 24:00, 23:60 or 12:00 XM, and the minutes count on from
/// there.
pub open spec fn clock_text(hour: nat, minute: nat, second: nat, mode: DisplayMode) -> Seq<char> {
    if !in_extended_window(hour, minute) {
        plain_clock_text(hour, minute, second)
    } else {
        match mode {
            DisplayMode::Unoptimized => plain_clock_text(hour, minute, second),
            DisplayMode::Overflowed => "24:"@ + two_digit_text((minute - 20) as nat) + ":"@
                + two_digit_text(second),
            DisplayMode::ExtendedMinutes => "23:"@ + two_digit_text(minute + 40) + ":"@
                + two_digit_text(second),
            DisplayMode::XM => "12:"@ + two_digit_text((minute - 20) as nat) + ":"@
                + two_digit_text(second) + " XM"@,
        }
    }
}

/// The clock of the Smoital system.
pub struct SmoitalClock;

impl SmoitalClock {
    /// The time string for a clock reading in the given display mode.
    ///
    /// Every number is written with at least two digits. A number beyond
    /// the range of a clock is written out in full.
    pub fn format(time: ClockReading, mode: DisplayMode) -> (text: String)
        ensures
            text@ == clock_text(time.hour as nat, time.minute as nat, time.second as nat, mode),
    {
        let hour: u32 = time.hour;
        let minute: u32 = time.minute;
        let second: u32 = time.second;
        let is_extended = hour == 23 && minute >= 20;
        let mut text = String::new();
        if !is_extended {
            Self::append_plain(&mut text, hour, minute, second);
            return text;
        }
        match mode {
            DisplayMode::Unoptimized => {
                Self::append_plain(&mut text, hour, minute, second);
            },
            DisplayMode::Overflowed => {
                text.append("24:");
                append_two_digits(&mut text, (minute - 20) as u64);
                text.append(":");
                append_two_digits(&mut text, second as u64);
            },
            DisplayMode::ExtendedMinutes => {
                text.append("23:");
                append_two_digits(&mut text, minute as u64 + 40);
                text.append(":");
                append_two_digits(&mut text, second as u64);
            },
            DisplayMode::XM => {
                text.append("12:");
                append_two_digits(&mut text, (minute - 20) as u64);
                text.append(":");
                append_two_digits(&mut text, second as u64);
                text.append(" XM");
            },
        }
        assert(text@ =~= clock_text(hour as nat, minute as nat, second as nat, mode));
        text
    }

    /// Appends the plain reading `HH:MM:SS` to `text`.
    fn append_plain(text: &mut String, hour: u32, minute: u32, second: u32)
        ensures
            final(text)@ == old(text)@ + plain_clock_text(
                hour as nat,
                minute as nat,
                second as nat,
            ),
    {
        append_two_digits(text, hour as u64);
        text.append(":");
        append_two_digits(text, minute as u64);
        text.append(":");
        append_two_digits(text, second as u64);
        assert(final(text)@ =~= old(text)@ + plain_clock_text(
            hour as nat,
            minute as nat,
            second as nat,
        ));
    }
}

} // verus!
