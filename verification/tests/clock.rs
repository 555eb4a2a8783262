use weather::clock::{format_clock, OutOfRange, DAY, MAX_TIMESTAMP, MIN_TIMESTAMP};

fn by_arithmetic(epoch_seconds: i64) -> String {
    let s = epoch_seconds.rem_euclid(86_400);
    format!("{:02}:{:02}:{:02}", s / 3600, s / 60 % 60, s % 60)
}

#[test]
fn clock_at_the_epoch() {
    assert_eq!(format_clock(0), Ok(String::from("00:00:00")));
}

#[test]
fn clock_is_the_same_for_the_same_input() {
    for t in [0i64, 1, 59, 1609459200, -1, 1234567890, MAX_TIMESTAMP, MIN_TIMESTAMP - 1] {
        assert_eq!(format_clock(t), format_clock(t));
    }
}

#[test]
fn clock_at_new_year_2021() {
    assert_eq!(format_clock(1609459200), Ok(String::from("00:00:00")));
}

#[test]
fn clock_of_known_moments() {
    assert_eq!(format_clock(1_000_000_000), Ok(String::from("01:46:40")));
    assert_eq!(format_clock(1_234_567_890), Ok(String::from("23:31:30")));
    assert_eq!(format_clock(1_431_648_000), Ok(String::from("00:00:00")));
    assert_eq!(format_clock(1_609_459_200 + 13 * 3600 + 5 * 60 + 9), Ok(String::from("13:05:09")));
}

#[test]
fn clock_pads_with_zeros() {
    assert_eq!(format_clock(1), Ok(String::from("00:00:01")));
    assert_eq!(format_clock(60), Ok(String::from("00:01:00")));
    assert_eq!(format_clock(3600), Ok(String::from("01:00:00")));
    assert_eq!(format_clock(9 * 3600 + 9 * 60 + 9), Ok(String::from("09:09:09")));
}

#[test]
fn clock_at_the_end_of_a_day() {
    assert_eq!(format_clock(86_399), Ok(String::from("23:59:59")));
    assert_eq!(format_clock(86_400), Ok(String::from("00:00:00")));
}

#[test]
fn clock_before_the_epoch() {
    assert_eq!(format_clock(-1), Ok(String::from("23:59:59")));
    assert_eq!(format_clock(-86_400), Ok(String::from("00:00:00")));
    assert_eq!(format_clock(-86_401), Ok(String::from("23:59:59")));
    assert_eq!(format_clock(-3_600), Ok(String::from("23:00:00")));
}

#[test]
fn clock_repeats_every_day() {
    let t = 1_609_459_200 + 4_321;
    for days in [-400_000i64, -1, 1, 7, 365, 400_000] {
        assert_eq!(format_clock(t + days * DAY), format_clock(t));
    }
}

#[test]
fn clock_agrees_with_plain_arithmetic() {
    let mut t: i64 = -200_000;
    while t <= 200_000 {
        assert_eq!(format_clock(t), Ok(by_arithmetic(t)), "at {}", t);
        t += 7;
    }
    let mut far: i64 = MIN_TIMESTAMP;
    while far <= MAX_TIMESTAMP {
        assert_eq!(format_clock(far), Ok(by_arithmetic(far)), "at {}", far);
        far += 16_544_868_105_599 / 997;
    }
}

#[test]
fn clock_has_the_form_hh_mm_ss() {
    for t in [0i64, 86_399, -1, 1_609_459_200, MIN_TIMESTAMP, MAX_TIMESTAMP] {
        let text = format_clock(t).unwrap();
        let chars: Vec<char> = text.chars().collect();
        assert_eq!(chars.len(), 8);
        assert_eq!(chars[2], ':');
        assert_eq!(chars[5], ':');
        for i in [0usize, 1, 3, 4, 6, 7] {
            assert!(chars[i].is_ascii_digit());
        }
    }
}

#[test]
fn clock_accepts_the_first_and_the_last_second() {
    assert_eq!(format_clock(MIN_TIMESTAMP), Ok(String::from("00:00:00")));
    assert_eq!(format_clock(MAX_TIMESTAMP), Ok(String::from("23:59:59")));
}

#[test]
fn clock_refuses_the_second_before_the_first() {
    assert_eq!(
        format_clock(MIN_TIMESTAMP - 1),
        Err(OutOfRange { epoch_seconds: MIN_TIMESTAMP - 1 })
    );
}

#[test]
fn clock_refuses_the_second_after_the_last() {
    assert_eq!(
        format_clock(MAX_TIMESTAMP + 1),
        Err(OutOfRange { epoch_seconds: MAX_TIMESTAMP + 1 })
    );
}

#[test]
fn clock_refuses_the_extremes() {
    assert_eq!(format_clock(i64::MAX), Err(OutOfRange { epoch_seconds: i64::MAX }));
    assert_eq!(format_clock(i64::MIN), Err(OutOfRange { epoch_seconds: i64::MIN }));
}

#[test]
fn clock_bounds_are_the_named_dates() {
    assert_eq!(MIN_TIMESTAMP, -8_334_601_228_800);
    assert_eq!(MAX_TIMESTAMP, 8_210_266_876_799);
    assert_eq!(MIN_TIMESTAMP.rem_euclid(DAY), 0);
    assert_eq!(MAX_TIMESTAMP.rem_euclid(DAY), DAY - 1);
}
