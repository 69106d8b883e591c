use wyy::timing::{album_minutes, album_minutes_fit, format_clock, is_current_line, Clock, ClockEffect, Timer};

#[test]
fn clock_messages() {
    let mut c = Clock::new();
    assert_eq!(c, Clock { running: false, position: 0, total: 0 });
    assert_eq!(c.handle(Timer::Start), ClockEffect::Nothing);
    assert!(c.running);
    assert!(c.tick(1500, 200000));
    assert_eq!(c, Clock { running: true, position: 1500, total: 200000 });
    assert_eq!(c.handle(Timer::Pause), ClockEffect::Nothing);
    assert!(!c.tick(9999, 1));
    assert_eq!(c, Clock { running: false, position: 1500, total: 200000 });
    assert_eq!(c.handle(Timer::Start), ClockEffect::Nothing);
    assert_eq!(c.position, 1500);
    assert_eq!(c.handle(Timer::SetTime(3000)), ClockEffect::Sync(3000));
    assert_eq!(c.position, 3000);
    assert_eq!(c.handle(Timer::SeekTo(4000)), ClockEffect::SyncAndSeek(4000));
    assert_eq!(c.position, 4000);
    assert!(c.running);
    assert_eq!(c.handle(Timer::Stop), ClockEffect::Nothing);
    assert_eq!(c, Clock { running: false, position: 0, total: 200000 });
}

#[test]
fn clock_poll_delay_and_times() {
    let mut c = Clock::new();
    assert_eq!(c.poll_delay_millis(), 500);
    assert!(!c.shows_times());
    c.handle(Timer::Start);
    assert_eq!(c.poll_delay_millis(), 100);
    c.tick(0, 1000);
    assert!(c.shows_times());
}

#[test]
fn clock_format() {
    assert_eq!(format_clock(0), "0:00");
    assert_eq!(format_clock(999), "0:00");
    assert_eq!(format_clock(61000), "1:01");
    assert_eq!(format_clock(59999), "0:59");
    assert_eq!(format_clock(600000), "10:00");
    assert_eq!(format_clock(245_678), "4:05");
    assert_eq!(format_clock(3_600_000 * 2 + 5_000), "120:05");
    assert_eq!(format_clock(u64::MAX), format!("{}:{:02}", u64::MAX / 1000 / 60, u64::MAX / 1000 % 60));
}

#[test]
fn album_minutes_sum_whole_minutes() {
    assert_eq!(album_minutes(&vec![]), 0);
    assert_eq!(album_minutes(&vec![59_999, 60_000, 125_000]), 3);
    assert_eq!(album_minutes(&vec![240_000; 10]), 40);
}

#[test]
fn current_line_bounds() {
    assert!(is_current_line(1000, 2000, 1000));
    assert!(is_current_line(1000, 2000, 1999));
    assert!(!is_current_line(1000, 2000, 2000));
    assert!(!is_current_line(1000, 2000, 999));
    assert!(!is_current_line(2000, 2000, 2000));
}

#[test]
fn album_minutes_fit_check() {
    assert!(album_minutes_fit(&vec![]));
    assert!(album_minutes_fit(&vec![u64::MAX, 60_000]));
    assert!(!album_minutes_fit(&vec![u64::MAX; 60_001]));
    assert!(album_minutes_fit(&vec![u64::MAX; 60_000]));
}
