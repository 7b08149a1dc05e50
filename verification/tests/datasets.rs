use cwb_weather::cwb::model::cwb::forecast::{CustomError, ForecastType};

fn all_datasets() -> Vec<(ForecastType, &'static str)> {
    vec![
        (ForecastType::YilanCountyIn2Day, "F-D0047-001"),
        (ForecastType::YilanCountyInWeek, "F-D0047-003"),
        (ForecastType::TaoyuanCityIn2Day, "F-D0047-005"),
        (ForecastType::TaoyuanCityInWeek, "F-D0047-007"),
        (ForecastType::HsinchuCountyIn2Day, "F-D0047-009"),
        (ForecastType::HsinchuCountyInWeek, "F-D0047-011"),
        (ForecastType::MiaoliCountyIn2Day, "F-D0047-013"),
        (ForecastType::MiaoliCountyInWeek, "F-D0047-015"),
        (ForecastType::ChanghuaCountyIn2Day, "F-D0047-017"),
        (ForecastType::ChanghuaCountyInWeek, "F-D0047-019"),
        (ForecastType::NantouCountyIn2Day, "F-D0047-021"),
        (ForecastType::NantouCountyInWeek, "F-D0047-023"),
        (ForecastType::YunlinCountyIn2Day, "F-D0047-025"),
        (ForecastType::YunlinCountyInWeek, "F-D0047-027"),
        (ForecastType::ChiayiCountyIn2Day, "F-D0047-029"),
        (ForecastType::ChiayiCountyInWeek, "F-D0047-031"),
        (ForecastType::PingtungCountyIn2Day, "F-D0047-033"),
        (ForecastType::PingtungCountyInWeek, "F-D0047-035"),
        (ForecastType::TaitungCountyIn2Day, "F-D0047-037"),
        (ForecastType::TaitungCountyInWeek, "F-D0047-039"),
        (ForecastType::HualienCountyIn2Day, "F-D0047-041"),
        (ForecastType::HualienCountyInWeek, "F-D0047-043"),
        (ForecastType::PenghuCountyIn2Day, "F-D0047-045"),
        (ForecastType::PenghuCountyInWeek, "F-D0047-047"),
        (ForecastType::KeelungCountyIn2Day, "F-D0047-049"),
        (ForecastType::KeelungCountyInWeek, "F-D0047-051"),
        (ForecastType::HsinchuCityIn2Day, "F-D0047-053"),
        (ForecastType::HsinchuCityInWeek, "F-D0047-055"),
        (ForecastType::ChiayiCityIn2Day, "F-D0047-057"),
        (ForecastType::ChiayiCityInWeek, "F-D0047-059"),
        (ForecastType::TaipeiCityIn2Day, "F-D0047-061"),
        (ForecastType::TaipeiCityInWeek, "F-D0047-063"),
        (ForecastType::KaohsiungCityIn2Day, "F-D0047-065"),
        (ForecastType::KaohsiungCityInWeek, "F-D0047-067"),
        (ForecastType::NewTaipeiCityIn2Day, "F-D0047-069"),
        (ForecastType::NewTaipeiCityInWeek, "F-D0047-071"),
        (ForecastType::TaichungCityIn2Day, "F-D0047-073"),
        (ForecastType::TaichungCityInWeek, "F-D0047-075"),
        (ForecastType::TainanCityIn2Day, "F-D0047-077"),
        (ForecastType::TainanCityInWeek, "F-D0047-079"),
        (ForecastType::LienchiangCountyIn2Day, "F-D0047-081"),
        (ForecastType::LienchiangCountyInWeek, "F-D0047-083"),
        (ForecastType::KinmenCountyIn2Day, "F-D0047-085"),
        (ForecastType::KinmenCountyInWeek, "F-D0047-087"),
        (ForecastType::TaiwanIn2Day, "F-D0047-089"),
        (ForecastType::TaiwanInWeek, "F-D0047-091"),
    ]
}

#[test]
fn every_dataset_writes_its_code() {
    for (dataset, code) in all_datasets() {
        assert_eq!(dataset.to_string(), code);
    }
}

#[test]
fn every_code_reads_as_its_dataset() {
    for (dataset, code) in all_datasets() {
        assert_eq!(ForecastType::from_str(code), Ok(dataset));
    }
}

#[test]
fn a_code_is_read_back_as_written() {
    for (dataset, _) in all_datasets() {
        assert_eq!(ForecastType::from_str(&dataset.to_string()), Ok(dataset));
    }
}

#[test]
fn codes_are_distinct() {
    let all = all_datasets();
    assert_eq!(all.len(), 46);
    for (i, (_, a)) in all.iter().enumerate() {
        for (_, b) in all.iter().skip(i + 1) {
            assert_ne!(a, b);
        }
    }
}

#[test]
fn other_text_is_no_dataset() {
    for text in [
        "",
        "F-D0047-002",
        "F-D0047-093",
        "F-D0047-000",
        "F-D0047-1",
        "F-D0047-0010",
        "f-d0047-001",
        " F-D0047-001",
        "F-D0047-001 ",
        "NewTaipeiCityInWeek",
    ] {
        assert_eq!(ForecastType::from_str(text), Err(CustomError::ParseError));
    }
}

#[test]
fn dataset_error_has_its_text() {
    assert_eq!(CustomError::ParseError.to_string(), "parse error");
}
