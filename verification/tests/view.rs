use std::cmp::Ordering;

use cwb_weather::cwb::api::compare::{not_sort, precedes, sort_by_h24r, sort_by_temp, SortOrder};
use cwb_weather::cwb::api::get_weather_data::{apply_queries, get_weather_data, WeatherView};
use cwb_weather::cwb::api::group::{bucket_for, copy_of, group_by, ElevationBucket};
use cwb_weather::cwb::api::order::{order_for, sort};
use cwb_weather::cwb::api::query::parse_limit;
use cwb_weather::cwb::model::error::Error;
use cwb_weather::cwb::model::resp::{Position, Record};

fn meters(value: f64) -> i64 {
    (value * 1_000_000.0).round() as i64
}

fn record(name: &str, temperature: f64, altitude: f64, precipitation: f64) -> Record {
    Record {
        city: "city".to_string(),
        town: "town".to_string(),
        name: name.to_string(),
        precipitation_per_day: meters(precipitation),
        altitude: meters(altitude),
        temperature: meters(temperature),
        location: Position { latitude: 25_000_000, longitude: 121_000_000 },
    }
}

fn ten() -> Vec<Record> {
    let temperatures = [21.5, 18.0, 30.2, -2.5, 25.0, 18.0, 9.9, 27.3, 0.0, 14.1];
    let rain = [0.0, 12.5, 3.0, 40.0, 3.0, 0.5, 8.0, 3.0, 100.5, 0.0];
    (0..10).map(|i| record(&format!("s{i}"), temperatures[i], 10.0 * i as f64, rain[i])).collect()
}

fn names(records: &[Record]) -> Vec<&str> {
    records.iter().map(|r| r.name.as_str()).collect()
}

fn records_of(view: Result<WeatherView, Error>) -> Vec<Record> {
    match view {
        Ok(WeatherView::Records(records)) => records,
        other => panic!("stations expected, found {other:?}"),
    }
}

fn groups_of(view: Result<WeatherView, Error>) -> Vec<(String, String)> {
    match view {
        Ok(WeatherView::Groups(groups)) => groups
            .iter()
            .map(|g| (g.bucket.label().to_string(), g.record.name.clone()))
            .collect(),
        other => panic!("groups expected, found {other:?}"),
    }
}

fn pair(label: &str, name: &str) -> (String, String) {
    (label.to_string(), name.to_string())
}

#[test]
fn request_without_a_query_shows_all_stations() {
    let shown = records_of(get_weather_data(ten(), None));
    assert_eq!(names(&shown), names(&ten()));
    let shown = records_of(get_weather_data(ten(), Some("")));
    assert_eq!(names(&shown), names(&ten()));
}

#[test]
fn order_by_temp_then_limit_gives_the_coldest() {
    let shown = records_of(get_weather_data(ten(), Some("order_by=TEMP&limit=3")));
    assert_eq!(names(&shown), vec!["s3", "s8", "s6"]);
    let temperatures: Vec<i64> = shown.iter().map(|r| r.temperature).collect();
    assert_eq!(temperatures, vec![-2_500_000, 0, 9_900_000]);
}

#[test]
fn limit_then_order_by_sorts_what_is_left() {
    let shown = records_of(get_weather_data(ten(), Some("limit=3&order_by=TEMP")));
    assert_eq!(names(&shown), vec!["s1", "s0", "s2"]);
}

#[test]
fn order_by_temp_sorts_all_from_the_coldest() {
    let shown = records_of(get_weather_data(ten(), Some("order_by=TEMP")));
    assert_eq!(names(&shown), vec!["s3", "s8", "s6", "s9", "s1", "s5", "s0", "s4", "s7", "s2"]);
}

#[test]
fn order_by_precipitation_sorts_from_the_wettest() {
    let shown = records_of(get_weather_data(ten(), Some("order_by=H_24R")));
    assert_eq!(names(&shown), vec!["s8", "s3", "s1", "s6", "s2", "s4", "s7", "s5", "s0", "s9"]);
}

#[test]
fn equal_stations_stay_as_they_come() {
    let shown = sort(SortOrder::Temperature, ten());
    let at = |name: &str| shown.iter().position(|r| r.name == name).unwrap();
    assert!(at("s1") < at("s5"));
    let shown = sort(SortOrder::Precipitation, ten());
    let at = |name: &str| shown.iter().position(|r| r.name == name).unwrap();
    assert!(at("s2") < at("s4") && at("s4") < at("s7"));
    assert!(at("s0") < at("s9"));
}

#[test]
fn other_order_leaves_the_stations_as_they_come() {
    for query in ["order_by=ELEV", "order_by=", "order_by=temp", "order_by=TEMP "] {
        let shown = records_of(get_weather_data(ten(), Some(query)));
        assert_eq!(names(&shown), names(&ten()));
    }
    assert_eq!(names(&sort(SortOrder::Unsorted, ten())), names(&ten()));
    assert!(sort(SortOrder::Temperature, Vec::new()).is_empty());
}

#[test]
fn order_is_read_from_its_name() {
    assert_eq!(order_for("TEMP"), SortOrder::Temperature);
    assert_eq!(order_for("H_24R"), SortOrder::Precipitation);
    assert_eq!(order_for("ELEV"), SortOrder::Unsorted);
    assert_eq!(order_for(""), SortOrder::Unsorted);
}

#[test]
fn stations_compare_as_their_readings() {
    let cold = record("cold", 1.0, 0.0, 9.0);
    let warm = record("warm", 2.0, 0.0, 3.0);
    assert_eq!(sort_by_temp(&cold, &warm), Ordering::Less);
    assert_eq!(sort_by_temp(&warm, &cold), Ordering::Greater);
    assert_eq!(sort_by_temp(&cold, &cold), Ordering::Equal);
    assert_eq!(sort_by_h24r(&cold, &warm), Ordering::Less);
    assert_eq!(sort_by_h24r(&warm, &cold), Ordering::Greater);
    assert_eq!(sort_by_h24r(&warm, &warm), Ordering::Equal);
    assert_eq!(not_sort(&cold, &warm), Ordering::Equal);
    assert_eq!(not_sort(&warm, &cold), Ordering::Equal);
    assert!(precedes(SortOrder::Temperature, &cold, &warm));
    assert!(!precedes(SortOrder::Temperature, &warm, &cold));
    assert!(precedes(SortOrder::Precipitation, &cold, &warm));
    assert!(!precedes(SortOrder::Precipitation, &warm, &warm));
    assert!(!precedes(SortOrder::Unsorted, &cold, &warm));
}

#[test]
fn limit_keeps_the_first_stations() {
    assert_eq!(names(&records_of(get_weather_data(ten(), Some("limit=2")))), vec!["s0", "s1"]);
    assert!(records_of(get_weather_data(ten(), Some("limit=0"))).is_empty());
    assert_eq!(records_of(get_weather_data(ten(), Some("limit=10"))).len(), 10);
    assert_eq!(records_of(get_weather_data(ten(), Some("limit=11"))).len(), 10);
    assert_eq!(records_of(get_weather_data(ten(), Some("limit=+4"))).len(), 4);
    assert_eq!(records_of(get_weather_data(ten(), Some("limit=5&limit=7"))).len(), 5);
    assert_eq!(records_of(get_weather_data(ten(), Some("limit=7&limit=5"))).len(), 5);
}

#[test]
fn limit_that_is_no_number_fails_the_request() {
    for query in [
        "limit=abc",
        "limit=",
        "limit=-1",
        "limit=1.5",
        "limit=+",
        "limit= 3",
        "limit=3x",
        "order_by=TEMP&limit=abc",
        "limit=abc&group_by=ELEV",
        "limit=99999999999999999999999999999999999999999",
    ] {
        assert_eq!(get_weather_data(ten(), Some(query)).err(), Some(Error::InvalidQueryError));
    }
}

#[test]
fn limit_is_read_as_a_number() {
    assert_eq!(parse_limit("0"), Some(0));
    assert_eq!(parse_limit("42"), Some(42));
    assert_eq!(parse_limit("+42"), Some(42));
    assert_eq!(parse_limit("0042"), Some(42));
    assert_eq!(parse_limit(&usize::MAX.to_string()), Some(usize::MAX));
    assert_eq!(parse_limit(&format!("{}0", usize::MAX)), None);
    assert_eq!(parse_limit(&format!("{}", usize::MAX as u128 + 1)), None);
    assert_eq!(parse_limit(""), None);
    assert_eq!(parse_limit("+"), None);
    assert_eq!(parse_limit("-0"), None);
    assert_eq!(parse_limit("++1"), None);
    assert_eq!(parse_limit("1+"), None);
    assert_eq!(parse_limit("abc"), None);
    assert_eq!(parse_limit("４"), None);
}

#[test]
fn limit_reads_as_the_standard_library_does() {
    for text in ["0", "7", "+7", "007", "", "+", "-7", "7 ", " 7", "7.0", "1e3", "0x10"] {
        assert_eq!(parse_limit(text), text.parse::<usize>().ok());
    }
}

#[test]
fn group_by_elevation_keeps_the_coldest_of_each_range() {
    let data = vec![
        record("low", 28.0, 10.0, 0.0),
        record("hill", 24.5, 450.0, 0.0),
        record("middle", 21.0, 600.0, 0.0),
        record("peak", 3.0, 3200.0, 0.0),
    ];
    let expected =
        vec![pair("0-500", "hill"), pair("500-1000", "middle"), pair("> 3000", "peak")];
    assert_eq!(groups_of(get_weather_data(data, Some("group_by=ELEV"))), expected);
}

#[test]
fn group_by_does_not_look_at_what_follows() {
    let data = || {
        vec![
            record("low", 28.0, 10.0, 0.0),
            record("hill", 24.5, 450.0, 0.0),
            record("middle", 21.0, 600.0, 0.0),
            record("peak", 3.0, 3200.0, 0.0),
        ]
    };
    let expected =
        vec![pair("0-500", "hill"), pair("500-1000", "middle"), pair("> 3000", "peak")];
    for query in [
        "group_by=ELEV&order_by=TEMP&limit=1",
        "group_by=ELEV&limit=abc",
        "group_by=ELEV&order_by=H_24R",
        "unknown=1&group_by=ELEV&group_by=other",
    ] {
        assert_eq!(groups_of(get_weather_data(data(), Some(query))), expected);
    }
}

#[test]
fn group_by_takes_the_stations_as_they_then_are() {
    let data = || {
        vec![
            record("low", 28.0, 10.0, 0.0),
            record("hill", 24.5, 450.0, 0.0),
            record("middle", 21.0, 600.0, 0.0),
            record("peak", 3.0, 3200.0, 0.0),
        ]
    };
    assert_eq!(
        groups_of(get_weather_data(data(), Some("order_by=TEMP&group_by=ELEV"))),
        vec![pair("> 3000", "peak"), pair("500-1000", "middle"), pair("0-500", "hill")]
    );
    assert_eq!(
        groups_of(get_weather_data(data(), Some("limit=1&group_by=ELEV"))),
        vec![pair("0-500", "low")]
    );
    assert!(groups_of(get_weather_data(data(), Some("limit=0&group_by=ELEV"))).is_empty());
}

#[test]
fn group_by_another_value_shows_nothing() {
    for query in ["group_by=TEMP", "group_by=", "group_by=elev", "group_by=ELEV "] {
        assert!(groups_of(get_weather_data(ten(), Some(query))).is_empty());
    }
    assert!(group_by("CITY", &ten()).is_empty());
    assert!(group_by("ELEV", &Vec::new()).is_empty());
}

#[test]
fn first_of_equally_cold_stations_is_kept() {
    let data = vec![
        record("a", 5.0, 100.0, 0.0),
        record("b", 4.0, 200.0, 0.0),
        record("c", 4.0, 300.0, 0.0),
        record("d", 9.0, 1200.0, 0.0),
        record("e", 9.0, 1300.0, 0.0),
    ];
    let groups = group_by("ELEV", &data);
    assert_eq!(groups.len(), 2);
    assert_eq!(groups[0].bucket, ElevationBucket::UpTo500);
    assert_eq!(groups[0].record.name, "b");
    assert_eq!(groups[1].bucket, ElevationBucket::UpTo1500);
    assert_eq!(groups[1].record.name, "d");
}

#[test]
fn ranges_come_in_the_order_in_which_they_are_reached() {
    let data = vec![
        record("a", 1.0, 2700.0, 0.0),
        record("b", 2.0, 40.0, 0.0),
        record("c", 0.0, 2600.0, 0.0),
        record("d", 3.0, 1700.0, 0.0),
        record("e", 1.0, 30.0, 0.0),
        record("f", 3.0, 2200.0, 0.0),
    ];
    assert_eq!(
        groups_of(get_weather_data(data, Some("group_by=ELEV"))),
        vec![
            pair("2500-3000", "c"),
            pair("0-500", "e"),
            pair("1500-2000", "d"),
            pair("2000-2500", "f"),
        ]
    );
}

#[test]
fn elevation_belongs_to_the_range_of_its_whole_meters() {
    assert_eq!(bucket_for(meters(0.0)), ElevationBucket::UpTo500);
    assert_eq!(bucket_for(meters(-12.0)), ElevationBucket::UpTo500);
    assert_eq!(bucket_for(i64::MIN), ElevationBucket::UpTo500);
    assert_eq!(bucket_for(meters(500.0)), ElevationBucket::UpTo500);
    assert_eq!(bucket_for(meters(500.999999)), ElevationBucket::UpTo500);
    assert_eq!(bucket_for(meters(501.0)), ElevationBucket::UpTo1000);
    assert_eq!(bucket_for(meters(1000.5)), ElevationBucket::UpTo1000);
    assert_eq!(bucket_for(meters(1001.0)), ElevationBucket::UpTo1500);
    assert_eq!(bucket_for(meters(1500.9)), ElevationBucket::UpTo1500);
    assert_eq!(bucket_for(meters(1501.0)), ElevationBucket::UpTo2000);
    assert_eq!(bucket_for(meters(2000.0)), ElevationBucket::UpTo2000);
    assert_eq!(bucket_for(meters(2001.0)), ElevationBucket::UpTo2500);
    assert_eq!(bucket_for(meters(2500.1)), ElevationBucket::UpTo2500);
    assert_eq!(bucket_for(meters(2501.0)), ElevationBucket::UpTo3000);
    assert_eq!(bucket_for(meters(3000.9)), ElevationBucket::UpTo3000);
    assert_eq!(bucket_for(meters(3001.0)), ElevationBucket::Above3000);
    assert_eq!(bucket_for(meters(3952.0)), ElevationBucket::Above3000);
    assert_eq!(bucket_for(i64::MAX), ElevationBucket::Above3000);
}

#[test]
fn range_matches_the_truncated_float() {
    for altitude in [-3.7, 0.2, 499.99, 500.0, 500.5, 501.0, 999.9, 1000.9, 2999.5, 3000.99, 3001.0]
    {
        let whole = altitude as i32;
        let expected = if whole <= 500 {
            ElevationBucket::UpTo500
        } else if whole <= 1000 {
            ElevationBucket::UpTo1000
        } else if whole <= 3000 {
            ElevationBucket::UpTo3000
        } else {
            ElevationBucket::Above3000
        };
        assert_eq!(bucket_for(meters(altitude)), expected);
    }
}

#[test]
fn every_range_has_its_name() {
    assert_eq!(ElevationBucket::UpTo500.label(), "0-500");
    assert_eq!(ElevationBucket::UpTo1000.label(), "500-1000");
    assert_eq!(ElevationBucket::UpTo1500.label(), "1000-1500");
    assert_eq!(ElevationBucket::UpTo2000.label(), "1500-2000");
    assert_eq!(ElevationBucket::UpTo2500.label(), "2000-2500");
    assert_eq!(ElevationBucket::UpTo3000.label(), "2500-3000");
    assert_eq!(ElevationBucket::Above3000.label(), "> 3000");
}

#[test]
fn copy_is_the_same_station() {
    let station = record("a", 1.5, 20.0, 3.0);
    let copy = copy_of(&station);
    assert_eq!(copy.name, station.name);
    assert_eq!(copy.city, station.city);
    assert_eq!(copy.town, station.town);
    assert_eq!(copy.temperature, station.temperature);
    assert_eq!(copy.altitude, station.altitude);
    assert_eq!(copy.precipitation_per_day, station.precipitation_per_day);
    assert_eq!(copy.location, station.location);
}

#[test]
fn query_is_cut_at_ampersands_and_equal_signs() {
    let shown = records_of(get_weather_data(ten(), Some("limit=2=9")));
    assert_eq!(shown.len(), 2);
    let shown = records_of(get_weather_data(ten(), Some("&&limit=3&&")));
    assert_eq!(shown.len(), 3);
    let shown = records_of(get_weather_data(ten(), Some("limit&order_by&limit=4")));
    assert_eq!(shown.len(), 4);
    let shown = records_of(get_weather_data(ten(), Some("limit")));
    assert_eq!(shown.len(), 10);
    let shown = records_of(get_weather_data(ten(), Some("a=b&b=c&notright#&blank=&limit=1")));
    assert_eq!(names(&shown), vec!["s0"]);
    assert_eq!(
        get_weather_data(ten(), Some("=limit&limit==3")).err(),
        Some(Error::InvalidQueryError)
    );
}

#[test]
fn unknown_keys_are_passed_over() {
    let shown = records_of(get_weather_data(ten(), Some("page=2&Limit=1&ORDER_BY=TEMP&x=")));
    assert_eq!(names(&shown), names(&ten()));
}

#[test]
fn directives_take_effect_in_their_order() {
    let queries = vec![
        ("order_by".to_string(), "H_24R".to_string()),
        ("limit".to_string(), "4".to_string()),
        ("order_by".to_string(), "TEMP".to_string()),
        ("limit".to_string(), "2".to_string()),
    ];
    let shown = records_of(apply_queries(ten(), &queries));
    assert_eq!(names(&shown), vec!["s3", "s8"]);
    assert_eq!(names(&records_of(apply_queries(ten(), &Vec::new()))), names(&ten()));
}
