//! The fixed eight-line weather report.

use crate::clock::{clock_text, format_clock, has_date, OutOfRange};
use crate::text::{decimal, join_lines, joined, push_decimal};
use vstd::prelude::*;

verus! {

/// The values that the report shows. Temperatures and wind speed are held as
/// the text to show: degrees Celsius with two decimals, and the speed in the
/// provider's units.
#[derive(Clone, Debug, PartialEq, Eq)]
pub struct Summary {
    /// The description of the weather condition.
    pub description: String,
    /// The temperature.
    pub temp: String,
    /// The highest temperature.
    pub temp_max: String,
    /// The lowest temperature.
    pub temp_min: String,
    /// The wind speed.
    pub wind_speed: String,
    /// The direction the wind comes from, in degrees.
    pub wind_deg: i32,
    /// Sunrise, in seconds since the Unix epoch.
    pub sunrise: i64,
    /// Sunset, in seconds since the Unix epoch.
    pub sunset: i64,
}

/// The eight lines of the report on `summary`, each a label and its value:
/// description, temperature, highest and lowest temperature, wind speed, wind
/// direction, sunrise and sunset.
pub open spec fn report_lines(summary: &Summary) -> Seq<Seq<char>> {
    seq![
        "Description: "@ + summary.description@,
        "Temp: "@ + summary.temp@,
        "Temp_max: "@ + summary.temp_max@,
        "Temp_min: "@ + summary.temp_min@,
        "Wind_speed: "@ + summary.wind_speed@,
        "Wind_deg: "@ + decimal(summary.wind_deg as int),
        "Sunrise: "@ + clock_text(summary.sunrise as int),
        "Sunset: "@ + clock_text(summary.sunset as int),
    ]
}

/// The report on `summary`: its eight lines, with a line feed between one and
/// the next and none at the end.
pub open spec fn report_text(summary: &Summary) -> Seq<char> {
    joined(report_lines(summary))
}

/// A line of the report: `label`, then `value`.
fn labelled(label: &str, value: &str) -> (line: String)
    ensures
        line@ == label@ + value@,
{
    let mut line = String::from_str(label);
    line.append(value);
    line
}

/// Renders the report on `summary`. A sunrise or sunset beyond the
/// representable dates is refused, the sunrise first.
pub fn render_report(summary: &Summary) -> (r: Result<String, OutOfRange>)
    ensures
        match r {
            Ok(text) => {
                &&& has_date(summary.sunrise as int)
                &&& has_date(summary.sunset as int)
                &&& text@ == report_text(summary)
            },
            Err(e) => if has_date(summary.sunrise as int) {
                !has_date(summary.sunset as int) && e.epoch_seconds == summary.sunset
            } else {
                e.epoch_seconds == summary.sunrise
            },
        },
{
    let sunrise = match format_clock(summary.sunrise) {
        Ok(text) => text,
        Err(e) => {
            return Err(e);
        },
    };
    let sunset = match format_clock(summary.sunset) {
        Ok(text) => text,
        Err(e) => {
            return Err(e);
        },
    };
    let mut wind_deg = String::new();
    push_decimal(&mut wind_deg, summary.wind_deg);
    let mut lines: Vec<String> = Vec::new();
    lines.push(labelled("Description: ", summary.description.as_str()));
    lines.push(labelled("Temp: ", summary.temp.as_str()));
    lines.push(labelled("Temp_max: ", summary.temp_max.as_str()));
    lines.push(labelled("Temp_min: ", summary.temp_min.as_str()));
    lines.push(labelled("Wind_speed: ", summary.wind_speed.as_str()));
    lines.push(labelled("Wind_deg: ", wind_deg.as_str()));
    lines.push(labelled("Sunrise: ", sunrise.as_str()));
    lines.push(labelled("Sunset: ", sunset.as_str()));
    assert(lines.deep_view() == report_lines(summary));
    Ok(join_lines(&lines))
}

} // verus!
