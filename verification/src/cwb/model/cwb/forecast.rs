//! The forecast payload: per location, blocks of time-windowed samples, one
//! block per kind of weather element; and the identifiers of the forecast
//! datasets.

use vstd::prelude::*;
use crate::cwb::text::same_text;

verus! {

/// A forecast dataset. Each has a code, by which the upstream service knows it.
#[derive(Debug, Clone, Copy, PartialEq, Eq, Structural)]
pub enum ForecastType {
    /// Township forecasts of Yilan County for the next two days.
    YilanCountyIn2Day,
    /// Township forecasts of Yilan County for the next week.
    YilanCountyInWeek,
    /// Township forecasts of Taoyuan City for the next two days.
    TaoyuanCityIn2Day,
    /// Township forecasts of Taoyuan City for the next week.
    TaoyuanCityInWeek,
    /// Township forecasts of Hsinchu County for the next two days.
    HsinchuCountyIn2Day,
    /// Township forecasts of Hsinchu County for the next week.
    HsinchuCountyInWeek,
    /// Township forecasts of Miaoli County for the next two days.
    MiaoliCountyIn2Day,
    /// Township forecasts of Miaoli County for the next week.
    MiaoliCountyInWeek,
    /// Township forecasts of Changhua County for the next two days.
    ChanghuaCountyIn2Day,
    /// Township forecasts of Changhua County for the next week.
    ChanghuaCountyInWeek,
    /// Township forecasts of Nantou County for the next two days.
    NantouCountyIn2Day,
    /// Township forecasts of Nantou County for the next week.
    NantouCountyInWeek,
    /// Township forecasts of Yunlin County for the next two days.
    YunlinCountyIn2Day,
    /// Township forecasts of Yunlin County for the next week.
    YunlinCountyInWeek,
    /// Township forecasts of Chiayi County for the next two days.
    ChiayiCountyIn2Day,
    /// Township forecasts of Chiayi County for the next week.
    ChiayiCountyInWeek,
    /// Township forecasts of Pingtung County for the next two days.
    PingtungCountyIn2Day,
    /// Township forecasts of Pingtung County for the next week.
    PingtungCountyInWeek,
    /// Township forecasts of Taitung County for the next two days.
    TaitungCountyIn2Day,
    /// Township forecasts of Taitung County for the next week.
    TaitungCountyInWeek,
    /// Township forecasts of Hualien County for the next two days.
    HualienCountyIn2Day,
    /// Township forecasts of Hualien County for the next week.
    HualienCountyInWeek,
    /// Township forecasts of Penghu County for the next two days.
    PenghuCountyIn2Day,
    /// Township forecasts of Penghu County for the next week.
    PenghuCountyInWeek,
    /// Township forecasts of Keelung County for the next two days.
    KeelungCountyIn2Day,
    /// Township forecasts of Keelung County for the next week.
    KeelungCountyInWeek,
    /// Township forecasts of Hsinchu City for the next two days.
    HsinchuCityIn2Day,
    /// Township forecasts of Hsinchu City for the next week.
    HsinchuCityInWeek,
    /// Township forecasts of Chiayi City for the next two days.
    ChiayiCityIn2Day,
    /// Township forecasts of Chiayi City for the next week.
    ChiayiCityInWeek,
    /// Township forecasts of Taipei City for the next two days.
    TaipeiCityIn2Day,
    /// Township forecasts of Taipei City for the next week.
    TaipeiCityInWeek,
    /// Township forecasts of Kaohsiung City for the next two days.
    KaohsiungCityIn2Day,
    /// Township forecasts of Kaohsiung City for the next week.
    KaohsiungCityInWeek,
    /// Township forecasts of New Taipei City for the next two days.
    NewTaipeiCityIn2Day,
    /// Township forecasts of New Taipei City for the next week.
    NewTaipeiCityInWeek,
    /// Township forecasts of Taichung City for the next two days.
    TaichungCityIn2Day,
    /// Township forecasts of Taichung City for the next week.
    TaichungCityInWeek,
    /// Township forecasts of Tainan City for the next two days.
    TainanCityIn2Day,
    /// Township forecasts of Tainan City for the next week.
    TainanCityInWeek,
    /// Township forecasts of Lienchiang County for the next two days.
    LienchiangCountyIn2Day,
    /// Township forecasts of Lienchiang County for the next week.
    LienchiangCountyInWeek,
    /// Township forecasts of Kinmen County for the next two days.
    KinmenCountyIn2Day,
    /// Township forecasts of Kinmen County for the next week.
    KinmenCountyInWeek,
    /// Township forecasts of Taiwan for the next two days.
    TaiwanIn2Day,
    /// Township forecasts of Taiwan for the next week.
    TaiwanInWeek,
}

#[derive(Debug, Clone, Copy, PartialEq, Eq, Structural)]
pub enum CustomError {
    /// The text is the code of no dataset.
    ParseError,
}

impl CustomError {
    pub open spec fn text(self) -> Seq<char> {
        "parse error"@
    }

    pub fn to_string(&self) -> (r: String)
        ensures
            r@ == self.text(),
    {
        "parse error".to_owned()
    }
}

/// The number that a dataset code ends in: what its last three characters,
/// read as digits, denote.
pub open spec fn code_number(code: Seq<char>) -> int {
    (code[8] as int - '0' as int) * 100 + (code[9] as int - '0' as int) * 10 + (code[10] as int
        - '0' as int)
}

impl ForecastType {
    /// The code of the dataset.
    pub open spec fn code(self) -> Seq<char> {
        match self {
            ForecastType::YilanCountyIn2Day => "F-D0047-001"@,
            ForecastType::YilanCountyInWeek => "F-D0047-003"@,
            ForecastType::TaoyuanCityIn2Day => "F-D0047-005"@,
            ForecastType::TaoyuanCityInWeek => "F-D0047-007"@,
            ForecastType::HsinchuCountyIn2Day => "F-D0047-009"@,
            ForecastType::HsinchuCountyInWeek => "F-D0047-011"@,
            ForecastType::MiaoliCountyIn2Day => "F-D0047-013"@,
            ForecastType::MiaoliCountyInWeek => "F-D0047-015"@,
            ForecastType::ChanghuaCountyIn2Day => "F-D0047-017"@,
            ForecastType::ChanghuaCountyInWeek => "F-D0047-019"@,
            ForecastType::NantouCountyIn2Day => "F-D0047-021"@,
            ForecastType::NantouCountyInWeek => "F-D0047-023"@,
            ForecastType::YunlinCountyIn2Day => "F-D0047-025"@,
            ForecastType::YunlinCountyInWeek => "F-D0047-027"@,
            ForecastType::ChiayiCountyIn2Day => "F-D0047-029"@,
            ForecastType::ChiayiCountyInWeek => "F-D0047-031"@,
            ForecastType::PingtungCountyIn2Day => "F-D0047-033"@,
            ForecastType::PingtungCountyInWeek => "F-D0047-035"@,
            ForecastType::TaitungCountyIn2Day => "F-D0047-037"@,
            ForecastType::TaitungCountyInWeek => "F-D0047-039"@,
            ForecastType::HualienCountyIn2Day => "F-D0047-041"@,
            ForecastType::HualienCountyInWeek => "F-D0047-043"@,
            ForecastType::PenghuCountyIn2Day => "F-D0047-045"@,
            ForecastType::PenghuCountyInWeek => "F-D0047-047"@,
            ForecastType::KeelungCountyIn2Day => "F-D0047-049"@,
            ForecastType::KeelungCountyInWeek => "F-D0047-051"@,
            ForecastType::HsinchuCityIn2Day => "F-D0047-053"@,
            ForecastType::HsinchuCityInWeek => "F-D0047-055"@,
            ForecastType::ChiayiCityIn2Day => "F-D0047-057"@,
            ForecastType::ChiayiCityInWeek => "F-D0047-059"@,
            ForecastType::TaipeiCityIn2Day => "F-D0047-061"@,
            ForecastType::TaipeiCityInWeek => "F-D0047-063"@,
            ForecastType::KaohsiungCityIn2Day => "F-D0047-065"@,
            ForecastType::KaohsiungCityInWeek => "F-D0047-067"@,
            ForecastType::NewTaipeiCityIn2Day => "F-D0047-069"@,
            ForecastType::NewTaipeiCityInWeek => "F-D0047-071"@,
            ForecastType::TaichungCityIn2Day => "F-D0047-073"@,
            ForecastType::TaichungCityInWeek => "F-D0047-075"@,
            ForecastType::TainanCityIn2Day => "F-D0047-077"@,
            ForecastType::TainanCityInWeek => "F-D0047-079"@,
            ForecastType::LienchiangCountyIn2Day => "F-D0047-081"@,
            ForecastType::LienchiangCountyInWeek => "F-D0047-083"@,
            ForecastType::KinmenCountyIn2Day => "F-D0047-085"@,
            ForecastType::KinmenCountyInWeek => "F-D0047-087"@,
            ForecastType::TaiwanIn2Day => "F-D0047-089"@,
            ForecastType::TaiwanInWeek => "F-D0047-091"@,
        }
    }

    /// The number in which the dataset's code ends.
    pub open spec fn number(self) -> int {
        match self {
            ForecastType::YilanCountyIn2Day => 1,
            ForecastType::YilanCountyInWeek => 3,
            ForecastType::TaoyuanCityIn2Day => 5,
            ForecastType::TaoyuanCityInWeek => 7,
            ForecastType::HsinchuCountyIn2Day => 9,
            ForecastType::HsinchuCountyInWeek => 11,
            ForecastType::MiaoliCountyIn2Day => 13,
            ForecastType::MiaoliCountyInWeek => 15,
            ForecastType::ChanghuaCountyIn2Day => 17,
            ForecastType::ChanghuaCountyInWeek => 19,
            ForecastType::NantouCountyIn2Day => 21,
            ForecastType::NantouCountyInWeek => 23,
            ForecastType::YunlinCountyIn2Day => 25,
            ForecastType::YunlinCountyInWeek => 27,
            ForecastType::ChiayiCountyIn2Day => 29,
            ForecastType::ChiayiCountyInWeek => 31,
            ForecastType::PingtungCountyIn2Day => 33,
            ForecastType::PingtungCountyInWeek => 35,
            ForecastType::TaitungCountyIn2Day => 37,
            ForecastType::TaitungCountyInWeek => 39,
            ForecastType::HualienCountyIn2Day => 41,
            ForecastType::HualienCountyInWeek => 43,
            ForecastType::PenghuCountyIn2Day => 45,
            ForecastType::PenghuCountyInWeek => 47,
            ForecastType::KeelungCountyIn2Day => 49,
            ForecastType::KeelungCountyInWeek => 51,
            ForecastType::HsinchuCityIn2Day => 53,
            ForecastType::HsinchuCityInWeek => 55,
            ForecastType::ChiayiCityIn2Day => 57,
            ForecastType::ChiayiCityInWeek => 59,
            ForecastType::TaipeiCityIn2Day => 61,
            ForecastType::TaipeiCityInWeek => 63,
            ForecastType::KaohsiungCityIn2Day => 65,
            ForecastType::KaohsiungCityInWeek => 67,
            ForecastType::NewTaipeiCityIn2Day => 69,
            ForecastType::NewTaipeiCityInWeek => 71,
            ForecastType::TaichungCityIn2Day => 73,
            ForecastType::TaichungCityInWeek => 75,
            ForecastType::TainanCityIn2Day => 77,
            ForecastType::TainanCityInWeek => 79,
            ForecastType::LienchiangCountyIn2Day => 81,
            ForecastType::LienchiangCountyInWeek => 83,
            ForecastType::KinmenCountyIn2Day => 85,
            ForecastType::KinmenCountyInWeek => 87,
            ForecastType::TaiwanIn2Day => 89,
            ForecastType::TaiwanInWeek => 91,
        }
    }

    /// The dataset that `s` is the code of.
    pub open spec fn parsed(s: Seq<char>) -> Result<ForecastType, CustomError> {
        if s == "F-D0047-001"@ {
            Ok(ForecastType::YilanCountyIn2Day)
        } else if s == "F-D0047-003"@ {
            Ok(ForecastType::YilanCountyInWeek)
        } else if s == "F-D0047-005"@ {
            Ok(ForecastType::TaoyuanCityIn2Day)
        } else if s == "F-D0047-007"@ {
            Ok(ForecastType::TaoyuanCityInWeek)
        } else if s == "F-D0047-009"@ {
            Ok(ForecastType::HsinchuCountyIn2Day)
        } else if s == "F-D0047-011"@ {
            Ok(ForecastType::HsinchuCountyInWeek)
        } else if s == "F-D0047-013"@ {
            Ok(ForecastType::MiaoliCountyIn2Day)
        } else if s == "F-D0047-015"@ {
            Ok(ForecastType::MiaoliCountyInWeek)
        } else if s == "F-D0047-017"@ {
            Ok(ForecastType::ChanghuaCountyIn2Day)
        } else if s == "F-D0047-019"@ {
            Ok(ForecastType::ChanghuaCountyInWeek)
        } else if s == "F-D0047-021"@ {
            Ok(ForecastType::NantouCountyIn2Day)
        } else if s == "F-D0047-023"@ {
            Ok(ForecastType::NantouCountyInWeek)
        } else if s == "F-D0047-025"@ {
            Ok(ForecastType::YunlinCountyIn2Day)
        } else if s == "F-D0047-027"@ {
            Ok(ForecastType::YunlinCountyInWeek)
        } else if s == "F-D0047-029"@ {
            Ok(ForecastType::ChiayiCountyIn2Day)
        } else if s == "F-D0047-031"@ {
            Ok(ForecastType::ChiayiCountyInWeek)
        } else if s == "F-D0047-033"@ {
            Ok(ForecastType::PingtungCountyIn2Day)
        } else if s == "F-D0047-035"@ {
            Ok(ForecastType::PingtungCountyInWeek)
        } else if s == "F-D0047-037"@ {
            Ok(ForecastType::TaitungCountyIn2Day)
        } else if s == "F-D0047-039"@ {
            Ok(ForecastType::TaitungCountyInWeek)
        } else if s == "F-D0047-041"@ {
            Ok(ForecastType::HualienCountyIn2Day)
        } else if s == "F-D0047-043"@ {
            Ok(ForecastType::HualienCountyInWeek)
        } else if s == "F-D0047-045"@ {
            Ok(ForecastType::PenghuCountyIn2Day)
        } else if s == "F-D0047-047"@ {
            Ok(ForecastType::PenghuCountyInWeek)
        } else if s == "F-D0047-049"@ {
            Ok(ForecastType::KeelungCountyIn2Day)
        } else if s == "F-D0047-051"@ {
            Ok(ForecastType::KeelungCountyInWeek)
        } else if s == "F-D0047-053"@ {
            Ok(ForecastType::HsinchuCityIn2Day)
        } else if s == "F-D0047-055"@ {
            Ok(ForecastType::HsinchuCityInWeek)
        } else if s == "F-D0047-057"@ {
            Ok(ForecastType::ChiayiCityIn2Day)
        } else if s == "F-D0047-059"@ {
            Ok(ForecastType::ChiayiCityInWeek)
        } else if s == "F-D0047-061"@ {
            Ok(ForecastType::TaipeiCityIn2Day)
        } else if s == "F-D0047-063"@ {
            Ok(ForecastType::TaipeiCityInWeek)
        } else if s == "F-D0047-065"@ {
            Ok(ForecastType::KaohsiungCityIn2Day)
        } else if s == "F-D0047-067"@ {
            Ok(ForecastType::KaohsiungCityInWeek)
        } else if s == "F-D0047-069"@ {
            Ok(ForecastType::NewTaipeiCityIn2Day)
        } else if s == "F-D0047-071"@ {
            Ok(ForecastType::NewTaipeiCityInWeek)
        } else if s == "F-D0047-073"@ {
            Ok(ForecastType::TaichungCityIn2Day)
        } else if s == "F-D0047-075"@ {
            Ok(ForecastType::TaichungCityInWeek)
        } else if s == "F-D0047-077"@ {
            Ok(ForecastType::TainanCityIn2Day)
        } else if s == "F-D0047-079"@ {
            Ok(ForecastType::TainanCityInWeek)
        } else if s == "F-D0047-081"@ {
            Ok(ForecastType::LienchiangCountyIn2Day)
        } else if s == "F-D0047-083"@ {
            Ok(ForecastType::LienchiangCountyInWeek)
        } else if s == "F-D0047-085"@ {
            Ok(ForecastType::KinmenCountyIn2Day)
        } else if s == "F-D0047-087"@ {
            Ok(ForecastType::KinmenCountyInWeek)
        } else if s == "F-D0047-089"@ {
            Ok(ForecastType::TaiwanIn2Day)
        } else if s == "F-D0047-091"@ {
            Ok(ForecastType::TaiwanInWeek)
        } else {
            Err(CustomError::ParseError)
        }
    }

    /// Reads a dataset from its code.
    pub fn from_str(s: &str) -> (r: Result<ForecastType, CustomError>)
        ensures
            r == ForecastType::parsed(s@),
    {
        if same_text(s, "F-D0047-001") {
            Ok(ForecastType::YilanCountyIn2Day)
        } else if same_text(s, "F-D0047-003") {
            Ok(ForecastType::YilanCountyInWeek)
        } else if same_text(s, "F-D0047-005") {
            Ok(ForecastType::TaoyuanCityIn2Day)
        } else if same_text(s, "F-D0047-007") {
            Ok(ForecastType::TaoyuanCityInWeek)
        } else if same_text(s, "F-D0047-009") {
            Ok(ForecastType::HsinchuCountyIn2Day)
        } else if same_text(s, "F-D0047-011") {
            Ok(ForecastType::HsinchuCountyInWeek)
        } else if same_text(s, "F-D0047-013") {
            Ok(ForecastType::MiaoliCountyIn2Day)
        } else if same_text(s, "F-D0047-015") {
            Ok(ForecastType::MiaoliCountyInWeek)
        } else if same_text(s, "F-D0047-017") {
            Ok(ForecastType::ChanghuaCountyIn2Day)
        } else if same_text(s, "F-D0047-019") {
            Ok(ForecastType::ChanghuaCountyInWeek)
        } else if same_text(s, "F-D0047-021") {
            Ok(ForecastType::NantouCountyIn2Day)
        } else if same_text(s, "F-D0047-023") {
            Ok(ForecastType::NantouCountyInWeek)
        } else if same_text(s, "F-D0047-025") {
            Ok(ForecastType::YunlinCountyIn2Day)
        } else if same_text(s, "F-D0047-027") {
            Ok(ForecastType::YunlinCountyInWeek)
        } else if same_text(s, "F-D0047-029") {
            Ok(ForecastType::ChiayiCountyIn2Day)
        } else if same_text(s, "F-D0047-031") {
            Ok(ForecastType::ChiayiCountyInWeek)
        } else if same_text(s, "F-D0047-033") {
            Ok(ForecastType::PingtungCountyIn2Day)
        } else if same_text(s, "F-D0047-035") {
            Ok(ForecastType::PingtungCountyInWeek)
        } else if same_text(s, "F-D0047-037") {
            Ok(ForecastType::TaitungCountyIn2Day)
        } else if same_text(s, "F-D0047-039") {
            Ok(ForecastType::TaitungCountyInWeek)
        } else if same_text(s, "F-D0047-041") {
            Ok(ForecastType::HualienCountyIn2Day)
        } else if same_text(s, "F-D0047-043") {
            Ok(ForecastType::HualienCountyInWeek)
        } else if same_text(s, "F-D0047-045") {
            Ok(ForecastType::PenghuCountyIn2Day)
        } else if same_text(s, "F-D0047-047") {
            Ok(ForecastType::PenghuCountyInWeek)
        } else if same_text(s, "F-D0047-049") {
            Ok(ForecastType::KeelungCountyIn2Day)
        } else if same_text(s, "F-D0047-051") {
            Ok(ForecastType::KeelungCountyInWeek)
        } else if same_text(s, "F-D0047-053") {
            Ok(ForecastType::HsinchuCityIn2Day)
        } else if same_text(s, "F-D0047-055") {
            Ok(ForecastType::HsinchuCityInWeek)
        } else if same_text(s, "F-D0047-057") {
            Ok(ForecastType::ChiayiCityIn2Day)
        } else if same_text(s, "F-D0047-059") {
            Ok(ForecastType::ChiayiCityInWeek)
        } else if same_text(s, "F-D0047-061") {
            Ok(ForecastType::TaipeiCityIn2Day)
        } else if same_text(s, "F-D0047-063") {
            Ok(ForecastType::TaipeiCityInWeek)
        } else if same_text(s, "F-D0047-065") {
            Ok(ForecastType::KaohsiungCityIn2Day)
        } else if same_text(s, "F-D0047-067") {
            Ok(ForecastType::KaohsiungCityInWeek)
        } else if same_text(s, "F-D0047-069") {
            Ok(ForecastType::NewTaipeiCityIn2Day)
        } else if same_text(s, "F-D0047-071") {
            Ok(ForecastType::NewTaipeiCityInWeek)
        } else if same_text(s, "F-D0047-073") {
            Ok(ForecastType::TaichungCityIn2Day)
        } else if same_text(s, "F-D0047-075") {
            Ok(ForecastType::TaichungCityInWeek)
        } else if same_text(s, "F-D0047-077") {
            Ok(ForecastType::TainanCityIn2Day)
        } else if same_text(s, "F-D0047-079") {
            Ok(ForecastType::TainanCityInWeek)
        } else if same_text(s, "F-D0047-081") {
            Ok(ForecastType::LienchiangCountyIn2Day)
        } else if same_text(s, "F-D0047-083") {
            Ok(ForecastType::LienchiangCountyInWeek)
        } else if same_text(s, "F-D0047-085") {
            Ok(ForecastType::KinmenCountyIn2Day)
        } else if same_text(s, "F-D0047-087") {
            Ok(ForecastType::KinmenCountyInWeek)
        } else if same_text(s, "F-D0047-089") {
            Ok(ForecastType::TaiwanIn2Day)
        } else if same_text(s, "F-D0047-091") {
            Ok(ForecastType::TaiwanInWeek)
        } else {
            Err(CustomError::ParseError)
        }
    }

    /// Writes the dataset's code.
    pub fn to_string(&self) -> (r: String)
        ensures
            r@ == self.code(),
    {
        let code = match self {
            ForecastType::YilanCountyIn2Day => "F-D0047-001",
            ForecastType::YilanCountyInWeek => "F-D0047-003",
            ForecastType::TaoyuanCityIn2Day => "F-D0047-005",
            ForecastType::TaoyuanCityInWeek => "F-D0047-007",
            ForecastType::HsinchuCountyIn2Day => "F-D0047-009",
            ForecastType::HsinchuCountyInWeek => "F-D0047-011",
            ForecastType::MiaoliCountyIn2Day => "F-D0047-013",
            ForecastType::MiaoliCountyInWeek => "F-D0047-015",
            ForecastType::ChanghuaCountyIn2Day => "F-D0047-017",
            ForecastType::ChanghuaCountyInWeek => "F-D0047-019",
            ForecastType::NantouCountyIn2Day => "F-D0047-021",
            ForecastType::NantouCountyInWeek => "F-D0047-023",
            ForecastType::YunlinCountyIn2Day => "F-D0047-025",
            ForecastType::YunlinCountyInWeek => "F-D0047-027",
            ForecastType::ChiayiCountyIn2Day => "F-D0047-029",
            ForecastType::ChiayiCountyInWeek => "F-D0047-031",
            ForecastType::PingtungCountyIn2Day => "F-D0047-033",
            ForecastType::PingtungCountyInWeek => "F-D0047-035",
            ForecastType::TaitungCountyIn2Day => "F-D0047-037",
            ForecastType::TaitungCountyInWeek => "F-D0047-039",
            ForecastType::HualienCountyIn2Day => "F-D0047-041",
            ForecastType::HualienCountyInWeek => "F-D0047-043",
            ForecastType::PenghuCountyIn2Day => "F-D0047-045",
            ForecastType::PenghuCountyInWeek => "F-D0047-047",
            ForecastType::KeelungCountyIn2Day => "F-D0047-049",
            ForecastType::KeelungCountyInWeek => "F-D0047-051",
            ForecastType::HsinchuCityIn2Day => "F-D0047-053",
            ForecastType::HsinchuCityInWeek => "F-D0047-055",
            ForecastType::ChiayiCityIn2Day => "F-D0047-057",
            ForecastType::ChiayiCityInWeek => "F-D0047-059",
            ForecastType::TaipeiCityIn2Day => "F-D0047-061",
            ForecastType::TaipeiCityInWeek => "F-D0047-063",
            ForecastType::KaohsiungCityIn2Day => "F-D0047-065",
            ForecastType::KaohsiungCityInWeek => "F-D0047-067",
            ForecastType::NewTaipeiCityIn2Day => "F-D0047-069",
            ForecastType::NewTaipeiCityInWeek => "F-D0047-071",
            ForecastType::TaichungCityIn2Day => "F-D0047-073",
            ForecastType::TaichungCityInWeek => "F-D0047-075",
            ForecastType::TainanCityIn2Day => "F-D0047-077",
            ForecastType::TainanCityInWeek => "F-D0047-079",
            ForecastType::LienchiangCountyIn2Day => "F-D0047-081",
            ForecastType::LienchiangCountyInWeek => "F-D0047-083",
            ForecastType::KinmenCountyIn2Day => "F-D0047-085",
            ForecastType::KinmenCountyInWeek => "F-D0047-087",
            ForecastType::TaiwanIn2Day => "F-D0047-089",
            ForecastType::TaiwanInWeek => "F-D0047-091",
        };
        code.to_owned()
    }
}

/// The kinds of weather element of a forecast.
#[derive(Debug, Clone, Copy, PartialEq, Eq, Structural)]
pub enum WeatherElementName {
    /// Probability of precipitation within 12 hours.
    ProbabilityOfPrecipitationIn12Hours,
    WeatherPhenomenon,
    ApparentTemperature,
    MaxApparentTemperature,
    MinApparentTemperature,
    Temperature,
    /// The series of lowest temperatures.
    MinTemperature,
    /// The series of highest temperatures.
    MaxTemperature,
    RelativeHumidity,
    ComfortIndex,
    MinComfortIndex,
    MaxComfortIndex,
    /// A description of the forecast in words.
    WeatherDescription,
    /// Probability of precipitation within 6 hours.
    ProbabilityOfPrecipitationIn6Hours,
    EstimateWindSpeed,
    EstimateWindDirection,
    DewPointTemperature,
    /// The ultraviolet index.
    UVI,
}

/// One value of a sample, as text, with its unit of measure.
#[derive(Debug)]
pub struct WeatherElementValue {
    pub value: String,
    pub measures: String,
}

/// A sample: the values forecast for the time from `start_time` up to
/// `end_time`, both written as `YYYY-MM-DD HH:MM:SS`.
#[derive(Debug)]
pub struct Time {
    pub value: Vec<WeatherElementValue>,
    pub end_time: String,
    pub start_time: String,
}

/// The samples of one kind of weather element, in the order of their times.
#[derive(Debug)]
pub struct WeatherElement {
    pub name: WeatherElementName,
    pub time: Vec<Time>,
}

/// A forecast location with its blocks of samples.
#[derive(Debug)]
pub struct Location {
    pub name: String,
    pub weather_elements: Vec<WeatherElement>,
}

#[derive(Debug)]
pub struct Wrapper {
    pub location: Vec<Location>,
}

#[derive(Debug)]
pub struct Records {
    pub locations: Vec<Wrapper>,
}

/// The whole forecast payload.
#[derive(Debug)]
pub struct Response {
    pub records: Records,
}

/// Every code is eleven characters long and ends in its dataset's number.
pub proof fn lemma_code_number(t: ForecastType)
    ensures
        t.code().len() == 11,
        code_number(t.code()) == t.number(),
{
    reveal_strlit("F-D0047-001");
    reveal_strlit("F-D0047-003");
    reveal_strlit("F-D0047-005");
    reveal_strlit("F-D0047-007");
    reveal_strlit("F-D0047-009");
    reveal_strlit("F-D0047-011");
    reveal_strlit("F-D0047-013");
    reveal_strlit("F-D0047-015");
    reveal_strlit("F-D0047-017");
    reveal_strlit("F-D0047-019");
    reveal_strlit("F-D0047-021");
    reveal_strlit("F-D0047-023");
    reveal_strlit("F-D0047-025");
    reveal_strlit("F-D0047-027");
    reveal_strlit("F-D0047-029");
    reveal_strlit("F-D0047-031");
    reveal_strlit("F-D0047-033");
    reveal_strlit("F-D0047-035");
    reveal_strlit("F-D0047-037");
    reveal_strlit("F-D0047-039");
    reveal_strlit("F-D0047-041");
    reveal_strlit("F-D0047-043");
    reveal_strlit("F-D0047-045");
    reveal_strlit("F-D0047-047");
    reveal_strlit("F-D0047-049");
    reveal_strlit("F-D0047-051");
    reveal_strlit("F-D0047-053");
    reveal_strlit("F-D0047-055");
    reveal_strlit("F-D0047-057");
    reveal_strlit("F-D0047-059");
    reveal_strlit("F-D0047-061");
    reveal_strlit("F-D0047-063");
    reveal_strlit("F-D0047-065");
    reveal_strlit("F-D0047-067");
    reveal_strlit("F-D0047-069");
    reveal_strlit("F-D0047-071");
    reveal_strlit("F-D0047-073");
    reveal_strlit("F-D0047-075");
    reveal_strlit("F-D0047-077");
    reveal_strlit("F-D0047-079");
    reveal_strlit("F-D0047-081");
    reveal_strlit("F-D0047-083");
    reveal_strlit("F-D0047-085");
    reveal_strlit("F-D0047-087");
    reveal_strlit("F-D0047-089");
    reveal_strlit("F-D0047-091");
}

/// No two datasets share a code.
pub proof fn lemma_code_is_unique(a: ForecastType, b: ForecastType)
    requires
        a.code() == b.code(),
    ensures
        a == b,
{
    lemma_code_number(a);
    lemma_code_number(b);
}

/// A code is read back as the dataset that it was written for.
pub proof fn lemma_code_round_trip(t: ForecastType)
    ensures
        ForecastType::parsed(t.code()) == Ok::<ForecastType, CustomError>(t),
{
    match ForecastType::parsed(t.code()) {
        Ok(u) => {
            lemma_parsed_is_code(t.code(), u);
            lemma_code_is_unique(u, t);
        },
        Err(_) => {},
    }
}

/// A text is read as a dataset exactly when it is that dataset's code.
pub proof fn lemma_parsed_is_code(s: Seq<char>, t: ForecastType)
    ensures
        ForecastType::parsed(s) == Ok::<ForecastType, CustomError>(t) ==> s == t.code(),
{
}

/// A text that is the code of no dataset is refused.
pub proof fn lemma_parsed_refuses(s: Seq<char>)
    ensures
        ForecastType::parsed(s) is Err <==> forall|t: ForecastType| s != #[trigger] t.code(),
{
    if ForecastType::parsed(s) is Err {
        assert forall|t: ForecastType| s != #[trigger] t.code() by {
            if s == t.code() {
                lemma_code_round_trip(t);
            }
        }
    } else {
        let t = ForecastType::parsed(s).unwrap();
        lemma_parsed_is_code(s, t);
    }
}

} // verus!
