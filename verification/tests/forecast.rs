use std::collections::HashMap;

use chrono::{Datelike, NaiveDate};
use cwb_weather::cwb::api::get_weather_forecast::{get_weather_forecast, summarize};
use cwb_weather::cwb::logic::get_weather_forecast::{
    handle_temperature, to_record, Location, TemperatureGroup, TimeRange,
};
use cwb_weather::cwb::model::cwb::forecast::{
    Location as Payload, Records, Response, Time, WeatherElement, WeatherElementName,
    WeatherElementValue, Wrapper,
};
use cwb_weather::cwb::model::error::{Error, Field};

fn day(year: i32, month: u32, day: u32) -> i32 {
    NaiveDate::from_ymd_opt(year, month, day).unwrap().num_days_from_ce()
}

fn time(start: &str, end: &str, value: &str) -> Time {
    Time {
        value: vec![WeatherElementValue {
            value: value.to_string(),
            measures: "Celsius".to_string(),
        }],
        start_time: start.to_string(),
        end_time: end.to_string(),
    }
}

fn same_day(value: &str) -> Time {
    time("2022-03-01 06:00:00", "2022-03-01 18:00:00", value)
}

fn series(name: WeatherElementName, times: Vec<Time>) -> WeatherElement {
    WeatherElement { name, time: times }
}

fn payload(name: &str, elements: Vec<WeatherElement>) -> Payload {
    Payload { name: name.to_string(), weather_elements: elements }
}

fn response(locations: Vec<Payload>) -> Response {
    Response { records: Records { locations: vec![Wrapper { location: locations }] } }
}

fn group(max: i64, min: i64) -> TemperatureGroup {
    TemperatureGroup { max: Some(max), min: Some(min) }
}

fn degrees(value: f64) -> i64 {
    (value * 1_000_000.0).round() as i64
}

#[test]
fn sample_is_read() {
    let sample = handle_temperature(&time("2022-03-01 18:00:00", "2022-03-02 06:00:00", "17"));
    assert_eq!(
        sample,
        Ok((TimeRange { start: day(2022, 3, 1), end: day(2022, 3, 2) }, 17_000_000))
    );
}

#[test]
fn days_are_counted_from_the_year_one() {
    let sample = handle_temperature(&time("0001-01-01 00:00:00", "1970-01-01 23:59:59", "0"));
    assert_eq!(sample, Ok((TimeRange { start: 1, end: 719_163 }, 0)));
}

#[test]
fn malformed_timestamp_is_refused() {
    for text in [
        "",
        "2022-03-01",
        "2022-03-01T18:00:00",
        "2022-13-01 18:00:00",
        "2022-02-30 18:00:00",
        "2022-03-01 24:00:00",
        "yesterday",
    ] {
        assert_eq!(
            handle_temperature(&time(text, "2022-03-02 06:00:00", "17")),
            Err(Error::ParseError)
        );
        assert_eq!(
            handle_temperature(&time("2022-03-01 18:00:00", text, "17")),
            Err(Error::ParseError)
        );
    }
}

#[test]
fn sample_without_a_value_is_refused() {
    let mut item = same_day("17");
    item.value.clear();
    assert_eq!(handle_temperature(&item), Err(Error::MissingFieldError(Field::ElementValue)));
    let mut item = time("never", "2022-03-02 06:00:00", "17");
    item.value.clear();
    assert_eq!(handle_temperature(&item), Err(Error::ParseError));
}

#[test]
fn malformed_temperature_is_refused() {
    assert_eq!(handle_temperature(&same_day("mild")), Err(Error::ParseError));
    assert_eq!(handle_temperature(&same_day("")), Err(Error::ParseError));
}

#[test]
fn first_value_of_a_sample_is_taken() {
    let mut item = same_day("17");
    item.value.push(WeatherElementValue { value: "x".to_string(), measures: String::new() });
    assert_eq!(handle_temperature(&item).unwrap().1, 17_000_000);
}

#[test]
fn sample_counts_for_both_of_its_days() {
    let mut location = Location::new("a".to_string());
    let range = TimeRange { start: 10, end: 11 };
    location.append_temperature(&WeatherElementName::MaxTemperature, (range, 5));
    assert_eq!(location.temperatures.len(), 2);
    assert_eq!(location.temperatures[&10], TemperatureGroup { max: Some(5), min: None });
    assert_eq!(location.temperatures[&11], TemperatureGroup { max: Some(5), min: None });
    location.append_temperature(&WeatherElementName::MinTemperature, (range, -2));
    assert_eq!(location.temperatures[&10], group(5, -2));
    assert_eq!(location.temperatures[&11], group(5, -2));
    let next = TimeRange { start: 11, end: 12 };
    location.append_temperature(&WeatherElementName::MaxTemperature, (next, 9));
    location.append_temperature(&WeatherElementName::MinTemperature, (next, 1));
    assert_eq!(location.temperatures.len(), 3);
    assert_eq!(location.temperatures[&10], group(5, -2));
    assert_eq!(location.temperatures[&11], group(9, -2));
    assert_eq!(location.temperatures[&12], group(9, 1));
    assert_eq!(location.name, "a");
}

#[test]
fn sample_of_another_kind_changes_nothing() {
    let mut location = Location::new("a".to_string());
    let range = TimeRange { start: 10, end: 11 };
    location.append_temperature(&WeatherElementName::Temperature, (range, 5));
    location.append_temperature(&WeatherElementName::UVI, (range, 5));
    assert!(location.temperatures.is_empty());
}

#[test]
fn empty_group_is_the_default() {
    assert_eq!(TemperatureGroup::default(), TemperatureGroup { max: None, min: None });
}

#[test]
fn group_records_its_extremes() {
    let mut group = TemperatureGroup::default();
    group.record(&WeatherElementName::MaxTemperature, -5);
    assert_eq!(group, TemperatureGroup { max: Some(-5), min: None });
    group.record(&WeatherElementName::MaxTemperature, -7);
    assert_eq!(group.max, Some(-5));
    group.record(&WeatherElementName::MaxTemperature, -3);
    assert_eq!(group.max, Some(-3));
    group.record(&WeatherElementName::MinTemperature, 4);
    group.record(&WeatherElementName::MinTemperature, 6);
    assert_eq!(group, TemperatureGroup { max: Some(-3), min: Some(4) });
    group.record(&WeatherElementName::RelativeHumidity, 100);
    assert_eq!(group, TemperatureGroup { max: Some(-3), min: Some(4) });
}

#[test]
fn highest_is_the_maximum_in_any_order() {
    let values = ["10", "25", "-4", "25", "18.5"];
    let orders: [[usize; 5]; 4] =
        [[0, 1, 2, 3, 4], [4, 3, 2, 1, 0], [1, 0, 4, 2, 3], [2, 4, 0, 3, 1]];
    for order in orders {
        let times = order.iter().map(|&i| same_day(values[i])).collect();
        let item = payload("a", vec![series(WeatherElementName::MaxTemperature, times)]);
        let location = to_record(&item).unwrap();
        assert_eq!(location.temperatures.len(), 1);
        assert_eq!(
            location.temperatures[&day(2022, 3, 1)],
            TemperatureGroup { max: Some(25_000_000), min: None }
        );
    }
}

#[test]
fn highest_below_zero_is_recorded() {
    let item = payload(
        "a",
        vec![series(WeatherElementName::MaxTemperature, vec![same_day("-5"), same_day("-3")])],
    );
    let location = to_record(&item).unwrap();
    assert_eq!(location.temperatures[&day(2022, 3, 1)].max, Some(-3_000_000));
}

#[test]
fn lowest_of_zero_is_recorded() {
    let orders = [["5", "0", "3"], ["0", "5", "3"], ["5", "3", "0"], ["0.0", "0", "0.000"]];
    for values in orders {
        let times = values.iter().map(|v| same_day(v)).collect();
        let item = payload("a", vec![series(WeatherElementName::MinTemperature, times)]);
        let location = to_record(&item).unwrap();
        assert_eq!(
            location.temperatures[&day(2022, 3, 1)],
            TemperatureGroup { max: None, min: Some(0) }
        );
    }
}

#[test]
fn only_the_series_of_temperatures_are_read() {
    let item = payload(
        "a",
        vec![
            series(WeatherElementName::WeatherDescription, vec![same_day("cloudy")]),
            series(WeatherElementName::Temperature, vec![same_day("40")]),
            series(WeatherElementName::MaxTemperature, vec![same_day("21")]),
            series(WeatherElementName::UVI, vec![time("never", "never", "")]),
            series(WeatherElementName::MinTemperature, vec![same_day("12")]),
            series(WeatherElementName::MaxApparentTemperature, vec![same_day("45")]),
        ],
    );
    let location = to_record(&item).unwrap();
    assert_eq!(location.name, "a");
    assert_eq!(location.temperatures.len(), 1);
    assert_eq!(location.temperatures[&day(2022, 3, 1)], group(21_000_000, 12_000_000));
}

#[test]
fn sample_that_cannot_be_read_fails_the_location() {
    let item = payload(
        "a",
        vec![
            series(WeatherElementName::MaxTemperature, vec![same_day("21"), same_day("hot")]),
            series(WeatherElementName::MinTemperature, vec![time("x", "y", "12")]),
        ],
    );
    assert_eq!(to_record(&item).err(), Some(Error::ParseError));
    let mut empty = same_day("1");
    empty.value.clear();
    let item = payload(
        "a",
        vec![
            series(WeatherElementName::MinTemperature, vec![same_day("21"), empty]),
            series(WeatherElementName::MaxTemperature, vec![same_day("hot")]),
        ],
    );
    assert_eq!(to_record(&item).err(), Some(Error::MissingFieldError(Field::ElementValue)));
}

#[test]
fn location_without_samples_has_no_day() {
    let location = to_record(&payload("a", Vec::new())).unwrap();
    assert!(location.temperatures.is_empty());
    assert_eq!(summarize(&location).err(), Some(Error::EmptyAggregationError));
}

#[test]
fn two_highs_and_two_lows_of_one_day_are_summed_up() {
    for highs in [["10.0", "25.0"], ["25.0", "10.0"]] {
        let item = payload(
            "Banqiao",
            vec![
                series(
                    WeatherElementName::MaxTemperature,
                    highs.iter().map(|v| same_day(v)).collect(),
                ),
                series(
                    WeatherElementName::MinTemperature,
                    vec![same_day("5.0"), same_day("2.0")],
                ),
            ],
        );
        let summary = summarize(&to_record(&item).unwrap()).unwrap();
        assert_eq!(summary.name, "Banqiao");
        assert_eq!(summary.max_temperature, degrees(25.0));
        assert_eq!(summary.min_temperature, degrees(2.0));
        assert_eq!(summary.temperature_difference_per_day, degrees(25.0 - 2.0));
        assert_eq!(summary.temperature_difference_per_day, 23_000_000);
    }
}

#[test]
fn summary_takes_each_extreme_from_its_own_day() {
    let mut temperatures = HashMap::new();
    temperatures.insert(1, group(20, 10));
    temperatures.insert(2, group(30, 25));
    temperatures.insert(3, group(18, -2));
    let location = Location { name: "a".to_string(), temperatures };
    let summary = summarize(&location).unwrap();
    assert_eq!(summary.max_temperature, 30);
    assert_eq!(summary.min_temperature, -2);
    assert_eq!(summary.temperature_difference_per_day, 20);
}

#[test]
fn summary_of_one_day_is_that_day() {
    let mut temperatures = HashMap::new();
    temperatures.insert(7, group(-1, -8));
    let location = Location { name: "a".to_string(), temperatures };
    let summary = summarize(&location).unwrap();
    assert_eq!(summary.max_temperature, -1);
    assert_eq!(summary.min_temperature, -8);
    assert_eq!(summary.temperature_difference_per_day, 7);
}

#[test]
fn day_without_a_value_counts_with_zero() {
    let mut temperatures = HashMap::new();
    temperatures.insert(1, TemperatureGroup { max: Some(12), min: None });
    temperatures.insert(2, TemperatureGroup { max: None, min: Some(-4) });
    let location = Location { name: "a".to_string(), temperatures };
    let summary = summarize(&location).unwrap();
    assert_eq!(summary.max_temperature, 12);
    assert_eq!(summary.min_temperature, -4);
    assert_eq!(summary.temperature_difference_per_day, 12);
}

#[test]
fn summary_of_no_day_fails() {
    let location = Location { name: "a".to_string(), temperatures: HashMap::new() };
    assert_eq!(summarize(&location).err(), Some(Error::EmptyAggregationError));
    assert_eq!(summarize(&Location::new("b".to_string())).err(), Some(Error::EmptyAggregationError));
}

#[test]
fn forecast_view_sums_up_the_first_location() {
    let data = response(vec![
        payload(
            "first",
            vec![
                series(
                    WeatherElementName::MaxTemperature,
                    vec![
                        time("2022-03-01 06:00:00", "2022-03-01 18:00:00", "21"),
                        time("2022-03-01 18:00:00", "2022-03-02 06:00:00", "16"),
                        time("2022-03-02 06:00:00", "2022-03-02 18:00:00", "27"),
                    ],
                ),
                series(
                    WeatherElementName::MinTemperature,
                    vec![
                        time("2022-03-01 06:00:00", "2022-03-01 18:00:00", "15"),
                        time("2022-03-01 18:00:00", "2022-03-02 06:00:00", "11"),
                        time("2022-03-02 06:00:00", "2022-03-02 18:00:00", "14"),
                    ],
                ),
            ],
        ),
        payload("second", vec![series(WeatherElementName::MaxTemperature, vec![same_day("40")])]),
    ]);
    let summary = get_weather_forecast(&data).unwrap();
    assert_eq!(summary.name, "first");
    assert_eq!(summary.max_temperature, 27_000_000);
    assert_eq!(summary.min_temperature, 11_000_000);
    assert_eq!(summary.temperature_difference_per_day, 16_000_000);
}

#[test]
fn forecast_view_fails_with_any_location() {
    let data = response(vec![
        payload("first", vec![series(WeatherElementName::MaxTemperature, vec![same_day("40")])]),
        payload("second", vec![series(WeatherElementName::MinTemperature, vec![same_day("?")])]),
    ]);
    assert_eq!(get_weather_forecast(&data).err(), Some(Error::ParseError));
}

#[test]
fn forecast_view_of_nothing_fails() {
    assert_eq!(
        get_weather_forecast(&response(Vec::new())).err(),
        Some(Error::EmptyAggregationError)
    );
    assert_eq!(
        get_weather_forecast(&Response { records: Records { locations: Vec::new() } }).err(),
        Some(Error::EmptyAggregationError)
    );
    let data = response(vec![payload("first", Vec::new())]);
    assert_eq!(get_weather_forecast(&data).err(), Some(Error::EmptyAggregationError));
}

#[test]
fn locations_of_every_wrapper_are_folded() {
    let data = Response {
        records: Records {
            locations: vec![
                Wrapper {
                    location: vec![payload(
                        "a",
                        vec![series(WeatherElementName::MaxTemperature, vec![same_day("1")])],
                    )],
                },
                Wrapper { location: Vec::new() },
                Wrapper {
                    location: vec![
                        payload("b", Vec::new()),
                        payload(
                            "c",
                            vec![series(WeatherElementName::MinTemperature, vec![same_day("3")])],
                        ),
                    ],
                },
            ],
        },
    };
    let locations =
        cwb_weather::cwb::logic::get_weather_forecast::get_weather_forecast(&data).unwrap();
    let names: Vec<&str> = locations.iter().map(|l| l.name.as_str()).collect();
    assert_eq!(names, vec!["a", "b", "c"]);
    assert_eq!(locations[0].temperatures[&day(2022, 3, 1)].max, Some(1_000_000));
    assert!(locations[1].temperatures.is_empty());
    assert_eq!(locations[2].temperatures[&day(2022, 3, 1)].min, Some(3_000_000));
}
