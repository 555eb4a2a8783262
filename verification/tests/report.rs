use weather::clock::{OutOfRange, MAX_TIMESTAMP, MIN_TIMESTAMP};
use weather::report::{render_report, Summary};
use weather::text::{join_lines, push_decimal, push_digits};

fn sample() -> Summary {
    Summary {
        description: String::from("light rain"),
        temp: String::from("26.85"),
        temp_max: String::from("28.00"),
        temp_min: String::from("-3.15"),
        wind_speed: String::from("4.1"),
        wind_deg: 250,
        sunrise: 1609459200,
        sunset: 1609459200 + 16 * 3600 + 2 * 60 + 3,
    }
}

fn in_decimal(n: i32) -> String {
    let mut out = String::new();
    push_decimal(&mut out, n);
    out
}

#[test]
fn report_has_eight_labelled_lines_in_order() {
    let text = render_report(&sample()).unwrap();
    assert_eq!(
        text,
        "Description: light rain\nTemp: 26.85\nTemp_max: 28.00\nTemp_min: -3.15\nWind_speed: 4.1\nWind_deg: 250\nSunrise: 00:00:00\nSunset: 16:02:03"
    );
    let lines: Vec<&str> = text.split('\n').collect();
    assert_eq!(lines.len(), 8);
    let labels = [
        "Description: ",
        "Temp: ",
        "Temp_max: ",
        "Temp_min: ",
        "Wind_speed: ",
        "Wind_deg: ",
        "Sunrise: ",
        "Sunset: ",
    ];
    for i in 0..8 {
        assert!(lines[i].starts_with(labels[i]));
    }
}

#[test]
fn report_shows_300_kelvin_as_26_85() {
    let mut summary = sample();
    summary.temp = format!("{:.2}", 300.00_f64 - 273.15);
    let text = render_report(&summary).unwrap();
    let lines: Vec<&str> = text.split('\n').collect();
    assert_eq!(lines[1], "Temp: 26.85");
}

#[test]
fn report_shows_sunrise_at_new_year_2021() {
    let mut summary = sample();
    summary.sunrise = 1609459200;
    let text = render_report(&summary).unwrap();
    let lines: Vec<&str> = text.split('\n').collect();
    assert_eq!(lines[6], "Sunrise: 00:00:00");
}

#[test]
fn report_is_the_same_for_the_same_summary() {
    assert_eq!(render_report(&sample()), render_report(&sample()));
}

#[test]
fn report_of_empty_texts() {
    let summary = Summary {
        description: String::new(),
        temp: String::new(),
        temp_max: String::new(),
        temp_min: String::new(),
        wind_speed: String::new(),
        wind_deg: 0,
        sunrise: 0,
        sunset: -1,
    };
    assert_eq!(
        render_report(&summary),
        Ok(String::from(
            "Description: \nTemp: \nTemp_max: \nTemp_min: \nWind_speed: \nWind_deg: 0\nSunrise: 00:00:00\nSunset: 23:59:59"
        ))
    );
}

#[test]
fn report_shows_a_negative_direction_with_its_sign() {
    let mut summary = sample();
    summary.wind_deg = -45;
    let text = render_report(&summary).unwrap();
    let lines: Vec<&str> = text.split('\n').collect();
    assert_eq!(lines[5], "Wind_deg: -45");
}

#[test]
fn report_refuses_a_sunrise_without_a_date() {
    let mut summary = sample();
    summary.sunrise = MAX_TIMESTAMP + 1;
    assert_eq!(render_report(&summary), Err(OutOfRange { epoch_seconds: MAX_TIMESTAMP + 1 }));
}

#[test]
fn report_refuses_a_sunset_without_a_date() {
    let mut summary = sample();
    summary.sunset = MIN_TIMESTAMP - 1;
    assert_eq!(render_report(&summary), Err(OutOfRange { epoch_seconds: MIN_TIMESTAMP - 1 }));
}

#[test]
fn report_names_the_sunrise_where_both_are_refused() {
    let mut summary = sample();
    summary.sunrise = i64::MIN;
    summary.sunset = i64::MAX;
    assert_eq!(render_report(&summary), Err(OutOfRange { epoch_seconds: i64::MIN }));
}

#[test]
fn decimal_of_small_numbers() {
    assert_eq!(in_decimal(0), "0");
    assert_eq!(in_decimal(7), "7");
    assert_eq!(in_decimal(10), "10");
    assert_eq!(in_decimal(359), "359");
    assert_eq!(in_decimal(-1), "-1");
    assert_eq!(in_decimal(-120), "-120");
}

#[test]
fn decimal_of_the_extremes() {
    assert_eq!(in_decimal(i32::MAX), "2147483647");
    assert_eq!(in_decimal(i32::MIN), "-2147483648");
}

#[test]
fn decimal_agrees_with_std() {
    let mut n: i64 = i32::MIN as i64;
    while n <= i32::MAX as i64 {
        assert_eq!(in_decimal(n as i32), (n as i32).to_string());
        n += 1_000_003;
    }
    for n in -1200..1200 {
        assert_eq!(in_decimal(n), n.to_string());
    }
}

#[test]
fn decimal_is_appended_to_what_is_there() {
    let mut out = String::from("deg=");
    push_decimal(&mut out, 42);
    assert_eq!(out, "deg=42");
}

#[test]
fn digits_of_large_numbers() {
    let mut out = String::new();
    push_digits(&mut out, u64::MAX);
    assert_eq!(out, "18446744073709551615");
    let mut zero = String::from("x");
    push_digits(&mut zero, 0);
    assert_eq!(zero, "x0");
}

#[test]
fn digits_of_every_single_digit() {
    let mut out = String::new();
    for n in 0u64..=9 {
        push_digits(&mut out, n);
    }
    assert_eq!(out, "0123456789");
}

#[test]
fn join_of_no_lines_is_empty() {
    assert_eq!(join_lines(&Vec::new()), "");
}

#[test]
fn join_of_one_line_has_no_line_feed() {
    assert_eq!(join_lines(&vec![String::from("only")]), "only");
}

#[test]
fn join_puts_a_line_feed_between_lines() {
    let lines = vec![String::from("a"), String::new(), String::from("c d")];
    assert_eq!(join_lines(&lines), "a\n\nc d");
}

#[test]
fn join_keeps_the_line_feeds_inside_a_line() {
    let lines = vec![String::from("a\nb"), String::from("c")];
    assert_eq!(join_lines(&lines), "a\nb\nc");
}
