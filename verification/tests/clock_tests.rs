use smoital::clock::{ClockReading, DisplayMode, SmoitalClock};

fn reading(hour: u32, minute: u32, second: u32) -> ClockReading {
    ClockReading { hour, minute, second }
}

#[test]
fn start_of_the_extended_window_in_each_mode() {
    let at = reading(23, 20, 0);
    assert_eq!(SmoitalClock::format(at, DisplayMode::Unoptimized), "23:20:00");
    assert_eq!(SmoitalClock::format(at, DisplayMode::Overflowed), "24:00:00");
    assert_eq!(SmoitalClock::format(at, DisplayMode::ExtendedMinutes), "23:60:00");
    assert_eq!(SmoitalClock::format(at, DisplayMode::XM), "12:00:00 XM");
}

#[test]
fn end_of_the_extended_window_in_each_mode() {
    let at = reading(23, 59, 59);
    assert_eq!(SmoitalClock::format(at, DisplayMode::Unoptimized), "23:59:59");
    assert_eq!(SmoitalClock::format(at, DisplayMode::Overflowed), "24:39:59");
    assert_eq!(SmoitalClock::format(at, DisplayMode::ExtendedMinutes), "23:99:59");
    assert_eq!(SmoitalClock::format(at, DisplayMode::XM), "12:39:59 XM");
}

#[test]
fn outside_the_window_every_mode_shows_the_plain_reading() {
    for at in [reading(0, 0, 0), reading(9, 5, 7), reading(23, 19, 59), reading(22, 40, 1)] {
        let plain = format!("{:02}:{:02}:{:02}", at.hour, at.minute, at.second);
        assert_eq!(SmoitalClock::format(at, DisplayMode::Unoptimized), plain);
        assert_eq!(SmoitalClock::format(at, DisplayMode::Overflowed), plain);
        assert_eq!(SmoitalClock::format(at, DisplayMode::ExtendedMinutes), plain);
        assert_eq!(SmoitalClock::format(at, DisplayMode::XM), plain);
    }
    assert_eq!(SmoitalClock::format(reading(9, 5, 7), DisplayMode::XM), "09:05:07");
}

#[test]
fn every_reading_of_the_day_matches_the_padded_format() {
    for hour in 0..24u32 {
        for minute in 0..60u32 {
            for second in [0u32, 9, 10, 59] {
                let at = reading(hour, minute, second);
                let extended = hour == 23 && minute >= 20;
                let plain = format!("{:02}:{:02}:{:02}", hour, minute, second);
                assert_eq!(SmoitalClock::format(at, DisplayMode::Unoptimized), plain);
                let overflowed = if extended {
                    format!("24:{:02}:{:02}", minute - 20, second)
                } else {
                    plain.clone()
                };
                assert_eq!(SmoitalClock::format(at, DisplayMode::Overflowed), overflowed);
                let minutes = if extended {
                    format!("23:{:02}:{:02}", minute + 40, second)
                } else {
                    plain.clone()
                };
                assert_eq!(SmoitalClock::format(at, DisplayMode::ExtendedMinutes), minutes);
                let xm = if extended {
                    format!("12:{:02}:{:02} XM", minute - 20, second)
                } else {
                    plain.clone()
                };
                assert_eq!(SmoitalClock::format(at, DisplayMode::XM), xm);
            }
        }
    }
}

#[test]
fn readings_beyond_the_clock_are_written_out_in_full() {
    assert_eq!(
        SmoitalClock::format(reading(100, 7, 1234), DisplayMode::Unoptimized),
        "100:07:1234"
    );
    assert_eq!(
        SmoitalClock::format(reading(23, u32::MAX, 0), DisplayMode::ExtendedMinutes),
        format!("23:{}:00", u32::MAX as u64 + 40)
    );
    assert_eq!(
        SmoitalClock::format(reading(23, 120, 5), DisplayMode::Overflowed),
        "24:100:05"
    );
}
