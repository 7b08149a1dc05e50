//! Forecasts: from the time-windowed samples of a location to one highest and
//! one lowest temperature per calendar day.
//!
//! A sample counts for the day on which its window starts and for the day on
//! which it ends. A day's highest temperature is the highest of the samples of
//! the series of highest temperatures that count for it, and likewise for the
//! lowest. Until a sample of a series has counted for a day, the day has no
//! value for that series.

use vstd::prelude::*;
use std::collections::HashMap;
use chrono::{Datelike, NaiveDateTime};
use crate::cwb::model::cwb::forecast;
use crate::cwb::model::cwb::forecast::WeatherElementName;
use crate::cwb::model::decimal::{decimal_value, in_range, lemma_decimal_value_in_range, parse_decimal};
use crate::cwb::model::error::{Error, Field};
use crate::cwb::model::resp::Temperature;

verus! {

broadcast use vstd::std_specs::hash::group_hash_axioms;

/// A calendar day, by its number in the proleptic Gregorian calendar:
/// January 1 of the year 1 is day 1.
pub type Day = i32;

/// The days on which a sample's window starts and ends.
#[derive(Debug, Clone, Copy, PartialEq, Eq, Structural)]
pub struct TimeRange {
    pub start: Day,
    pub end: Day,
}

pub type TemperatureBetween = (TimeRange, Temperature);

/// The highest and the lowest temperature of one day, as far as samples have
/// counted for it.
#[derive(Debug, Clone, Copy, PartialEq, Eq, Structural)]
pub struct TemperatureGroup {
    pub max: Option<Temperature>,
    pub min: Option<Temperature>,
}

/// A location with its daily temperatures.
#[derive(Debug)]
pub struct Location {
    pub name: String,
    pub temperatures: HashMap<Day, TemperatureGroup>,
}

/// The day on which the timestamp `text` falls, where `text` is a timestamp
/// of the form `YYYY-MM-DD HH:MM:SS`; `None` where it is not.
pub uninterp spec fn timestamp_day(text: Seq<char>) -> Option<Day>;

/// Reads a timestamp with `chrono::NaiveDateTime::parse_from_str` under the
/// format `%Y-%m-%d %H:%M:%S`, and gives the number of its date, as
/// `chrono::Datelike::num_days_from_ce` counts it. The contract claims only
/// that the outcome depends on the text alone: it is `timestamp_day` of it.
#[verifier::external_body]
fn parse_time(time: &str) -> (r: Option<Day>)
    ensures
        r == timestamp_day(time@),
{
    match NaiveDateTime::parse_from_str(time, "%Y-%m-%d %H:%M:%S") {
        Ok(at) => Some(at.date().num_days_from_ce()),
        Err(_) => None,
    }
}

impl TemperatureGroup {
    /// The group of a day for which no sample has counted.
    pub open spec fn empty() -> TemperatureGroup {
        TemperatureGroup { max: None, min: None }
    }

    /// Whether the group's temperatures are readings in range.
    pub open spec fn wf(self) -> bool {
        &&& self.max is Some ==> in_range(self.max->Some_0 as int)
        &&& self.min is Some ==> in_range(self.min->Some_0 as int)
    }

    /// The group after a sample of the series `name` has counted for its day:
    /// the first sample of a series sets the value, each later one raises the
    /// highest or lowers the lowest. A sample of another kind changes nothing.
    pub open spec fn with_sample(
        self,
        name: WeatherElementName,
        temperature: Temperature,
    ) -> TemperatureGroup {
        match name {
            WeatherElementName::MaxTemperature => TemperatureGroup {
                max: Some(
                    match self.max {
                        Some(max) if max >= temperature => max,
                        _ => temperature,
                    },
                ),
                min: self.min,
            },
            WeatherElementName::MinTemperature => TemperatureGroup {
                max: self.max,
                min: Some(
                    match self.min {
                        Some(min) if min <= temperature => min,
                        _ => temperature,
                    },
                ),
            },
            _ => self,
        }
    }

    /// Lets a sample of the series `name` count for the group's day.
    pub fn record(&mut self, name: &WeatherElementName, temperature: Temperature)
        ensures
            *final(self) == old(self).with_sample(*name, temperature),
    {
        match name {
            WeatherElementName::MaxTemperature => {
                self.max = Some(
                    match self.max {
                        Some(max) if max >= temperature => max,
                        _ => temperature,
                    },
                );
            },
            WeatherElementName::MinTemperature => {
                self.min = Some(
                    match self.min {
                        Some(min) if min <= temperature => min,
                        _ => temperature,
                    },
                );
            },
            _ => {},
        }
    }
}

impl Default for TemperatureGroup {
    fn default() -> (r: TemperatureGroup)
        ensures
            r == TemperatureGroup::empty(),
    {
        TemperatureGroup { max: None, min: None }
    }
}

/// Whether `name` is one of the two series of temperatures.
pub open spec fn is_temperature_series(name: WeatherElementName) -> bool {
    name == WeatherElementName::MinTemperature || name == WeatherElementName::MaxTemperature
}

/// Whether `sample` counts for `day`: its window starts or ends on it.
pub open spec fn counts_for(sample: TemperatureBetween, day: Day) -> bool {
    sample.0.start == day || sample.0.end == day
}

/// The group of `day`; the empty group where the day has none yet.
pub open spec fn group_on(days: Map<Day, TemperatureGroup>, day: Day) -> TemperatureGroup {
    if days.contains_key(day) {
        days[day]
    } else {
        TemperatureGroup::empty()
    }
}

/// The days after a sample of the series `name` has counted for `day`.
pub open spec fn counted(
    days: Map<Day, TemperatureGroup>,
    name: WeatherElementName,
    day: Day,
    temperature: Temperature,
) -> Map<Day, TemperatureGroup> {
    days.insert(day, group_on(days, day).with_sample(name, temperature))
}

/// The days after `sample` of the series `name` has counted for the day on
/// which it starts and for the day on which it ends. A sample of another kind
/// of element changes nothing.
pub open spec fn appended(
    days: Map<Day, TemperatureGroup>,
    name: WeatherElementName,
    sample: TemperatureBetween,
) -> Map<Day, TemperatureGroup> {
    if is_temperature_series(name) {
        counted(counted(days, name, sample.0.start, sample.1), name, sample.0.end, sample.1)
    } else {
        days
    }
}

/// The days after each of `samples` of the series `name` has been appended,
/// one after the other.
pub open spec fn appended_all(
    days: Map<Day, TemperatureGroup>,
    name: WeatherElementName,
    samples: Seq<TemperatureBetween>,
) -> Map<Day, TemperatureGroup>
    decreases samples.len(),
{
    if samples.len() == 0 {
        days
    } else {
        appended(appended_all(days, name, samples.drop_last()), name, samples.last())
    }
}

/// Whether every group of `days` holds readings in range.
pub open spec fn days_wf(days: Map<Day, TemperatureGroup>) -> bool {
    forall|day: Day| #[trigger] days.contains_key(day) ==> days[day].wf()
}

impl Location {
    /// Whether every temperature of the location is a reading in range.
    pub open spec fn wf(&self) -> bool {
        days_wf(self.temperatures@)
    }

    /// A location without any day.
    pub fn new(name: String) -> (r: Location)
        ensures
            r.name == name,
            r.temperatures@ == Map::<Day, TemperatureGroup>::empty(),
            r.wf(),
    {
        Location { name, temperatures: HashMap::new() }
    }

    /// Lets a sample of the series `name` count for `day`.
    fn count(&mut self, name: &WeatherElementName, day: Day, temperature: Temperature)
        ensures
            final(self).name == old(self).name,
            final(self).temperatures@ == counted(
                old(self).temperatures@,
                *name,
                day,
                temperature,
            ),
    {
        let mut group = match self.temperatures.get(&day) {
            Some(group) => *group,
            None => TemperatureGroup::default(),
        };
        group.record(name, temperature);
        self.temperatures.insert(day, group);
    }

    /// Appends a sample of the series `name`: it counts for the day on which
    /// it starts and for the day on which it ends.
    pub fn append_temperature(&mut self, name: &WeatherElementName, sample: TemperatureBetween)
        ensures
            final(self).name == old(self).name,
            final(self).temperatures@ == appended(old(self).temperatures@, *name, sample),
    {
        match name {
            WeatherElementName::MinTemperature | WeatherElementName::MaxTemperature => {
                let (range, temperature) = sample;
                self.count(name, range.start, temperature);
                self.count(name, range.end, temperature);
            },
            _ => {},
        }
    }
}

/// Appending a reading in range keeps the temperatures in range.
pub proof fn lemma_appended_wf(
    days: Map<Day, TemperatureGroup>,
    name: WeatherElementName,
    sample: TemperatureBetween,
)
    requires
        days_wf(days),
        in_range(sample.1 as int),
    ensures
        days_wf(appended(days, name, sample)),
{
    if is_temperature_series(name) {
        let first = counted(days, name, sample.0.start, sample.1);
        assert(days_wf(first)) by {
            assert forall|day: Day| #[trigger] first.contains_key(day) implies first[day].wf() by {
                if day != sample.0.start {
                    assert(days.contains_key(day));
                }
            }
        }
        let second = counted(first, name, sample.0.end, sample.1);
        assert forall|day: Day| #[trigger] second.contains_key(day) implies second[day].wf() by {
            if day != sample.0.end {
                assert(first.contains_key(day));
            }
        }
    }
}

/// The number that a text denotes.
pub open spec fn number(text: Seq<char>) -> Result<Temperature, Error> {
    match decimal_value(text) {
        Some(v) => Ok(v as i64),
        None => Err(Error::ParseError),
    }
}

/// The sample that `item` holds: the days of its two timestamps and the
/// first of its values. Its parts are examined in the order start, end, value.
pub open spec fn sample(item: forecast::Time) -> Result<TemperatureBetween, Error> {
    let start = timestamp_day(item.start_time@);
    let end = timestamp_day(item.end_time@);
    if start is None || end is None {
        Err(Error::ParseError)
    } else if item.value@.len() == 0 {
        Err(Error::MissingFieldError(Field::ElementValue))
    } else {
        match number(item.value@[0].value@) {
            Err(e) => Err(e),
            Ok(temperature) => Ok(
                (TimeRange { start: start->Some_0, end: end->Some_0 }, temperature),
            ),
        }
    }
}

/// The samples that `times` hold, or the error of the first that holds none.
pub open spec fn samples_of(times: Seq<forecast::Time>) -> Result<Seq<TemperatureBetween>, Error>
    decreases times.len(),
{
    if times.len() == 0 {
        Ok(Seq::empty())
    } else {
        match samples_of(times.drop_last()) {
            Err(e) => Err(e),
            Ok(samples) => match sample(times.last()) {
                Err(e) => Err(e),
                Ok(one) => Ok(samples.push(one)),
            },
        }
    }
}

/// The days after the block `element` has been taken in: the samples of a
/// series of temperatures are appended, a block of another kind is passed
/// over, whatever it holds.
pub open spec fn series_appended(
    days: Map<Day, TemperatureGroup>,
    element: forecast::WeatherElement,
) -> Result<Map<Day, TemperatureGroup>, Error> {
    if is_temperature_series(element.name) {
        match samples_of(element.time@) {
            Err(e) => Err(e),
            Ok(samples) => Ok(appended_all(days, element.name, samples)),
        }
    } else {
        Ok(days)
    }
}

/// The days after the blocks `elements` have been taken in, one after the
/// other, or the error of the first block that fails.
pub open spec fn elements_appended(
    days: Map<Day, TemperatureGroup>,
    elements: Seq<forecast::WeatherElement>,
) -> Result<Map<Day, TemperatureGroup>, Error>
    decreases elements.len(),
{
    if elements.len() == 0 {
        Ok(days)
    } else {
        match elements_appended(days, elements.drop_last()) {
            Err(e) => Err(e),
            Ok(so_far) => series_appended(so_far, elements.last()),
        }
    }
}

/// The daily temperatures of the location `item`.
pub open spec fn aggregated(item: forecast::Location) -> Result<Map<Day, TemperatureGroup>, Error> {
    elements_appended(Map::empty(), item.weather_elements@)
}

/// Where a beginning of `times` fails, so does the whole, with the same error.
pub proof fn lemma_samples_of_prefix_error(times: Seq<forecast::Time>, n: int)
    requires
        0 <= n <= times.len(),
        samples_of(times.take(n)) is Err,
    ensures
        samples_of(times) == samples_of(times.take(n)),
    decreases times.len() - n,
{
    if n == times.len() {
        assert(times.take(n) =~= times);
    } else {
        assert(times.take(n + 1).drop_last() =~= times.take(n));
        lemma_samples_of_prefix_error(times, n + 1);
    }
}

/// Where a beginning of `elements` fails, so does the whole, with the same
/// error.
pub proof fn lemma_elements_appended_prefix_error(
    days: Map<Day, TemperatureGroup>,
    elements: Seq<forecast::WeatherElement>,
    n: int,
)
    requires
        0 <= n <= elements.len(),
        elements_appended(days, elements.take(n)) is Err,
    ensures
        elements_appended(days, elements) == elements_appended(days, elements.take(n)),
    decreases elements.len() - n,
{
    if n == elements.len() {
        assert(elements.take(n) =~= elements);
    } else {
        assert(elements.take(n + 1).drop_last() =~= elements.take(n));
        lemma_elements_appended_prefix_error(days, elements, n + 1);
    }
}

/// Reads one sample: the days of its window and its temperature.
pub fn handle_temperature(item: &forecast::Time) -> (r: Result<TemperatureBetween, Error>)
    ensures
        r == sample(*item),
        r is Ok ==> in_range(r->Ok_0.1 as int),
{
    let start = match parse_time(item.start_time.as_str()) {
        Some(day) => day,
        None => return Err(Error::ParseError),
    };
    let end = match parse_time(item.end_time.as_str()) {
        Some(day) => day,
        None => return Err(Error::ParseError),
    };
    if item.value.len() == 0 {
        return Err(Error::MissingFieldError(Field::ElementValue));
    }
    proof {
        lemma_decimal_value_in_range(item.value@[0].value@);
    }
    let temperature = match parse_decimal(item.value[0].value.as_str()) {
        Ok(v) => v,
        Err(e) => return Err(e),
    };
    Ok((TimeRange { start, end }, temperature))
}

/// Takes the samples of one series into `location`.
fn append_series(location: &mut Location, element: &forecast::WeatherElement) -> (r: Result<
    (),
    Error,
>)
    requires
        is_temperature_series(element.name),
        old(location).wf(),
    ensures
        final(location).name == old(location).name,
        match r {
            Ok(_) => series_appended(old(location).temperatures@, *element) == Ok::<
                Map<Day, TemperatureGroup>,
                Error,
            >(final(location).temperatures@) && final(location).wf(),
            Err(e) => series_appended(old(location).temperatures@, *element) == Err::<
                Map<Day, TemperatureGroup>,
                Error,
            >(e),
        },
{
    let ghost before = location.temperatures@;
    let ghost mut samples: Seq<TemperatureBetween> = Seq::empty();
    let mut i: usize = 0;
    assert(element.time@.take(0) =~= Seq::<forecast::Time>::empty());
    while i < element.time.len()
        invariant
            i <= element.time.len(),
            is_temperature_series(element.name),
            location.name == old(location).name,
            before == old(location).temperatures@,
            samples_of(element.time@.take(i as int)) == Ok::<Seq<TemperatureBetween>, Error>(
                samples,
            ),
            location.temperatures@ == appended_all(before, element.name, samples),
            location.wf(),
        decreases element.time.len() - i,
    {
        assert(element.time@.take(i + 1).drop_last() =~= element.time@.take(i as int));
        assert(element.time@.take(i + 1).last() == element.time@[i as int]);
        match handle_temperature(&element.time[i]) {
            Err(e) => {
                proof {
                    lemma_samples_of_prefix_error(element.time@, i + 1);
                }
                return Err(e);
            },
            Ok(one) => {
                proof {
                    lemma_appended_wf(location.temperatures@, element.name, one);
                    assert(samples.push(one).drop_last() =~= samples);
                    samples = samples.push(one);
                }
                location.append_temperature(&element.name, one);
            },
        }
        i += 1;
    }
    assert(element.time@.take(i as int) =~= element.time@);
    Ok(())
}

/// Folds the samples of a location's two series of temperatures into one
/// highest and one lowest temperature per day. The first sample that cannot
/// be read fails the whole location.
pub fn to_record(item: &forecast::Location) -> (r: Result<Location, Error>)
    ensures
        match r {
            Ok(location) => {
                &&& aggregated(*item) == Ok::<Map<Day, TemperatureGroup>, Error>(
                    location.temperatures@,
                )
                &&& location.name == item.name
                &&& location.wf()
            },
            Err(e) => aggregated(*item) == Err::<Map<Day, TemperatureGroup>, Error>(e),
        },
{
    let mut location = Location::new(item.name.clone());
    let ghost empty = Map::<Day, TemperatureGroup>::empty();
    let mut i: usize = 0;
    assert(item.weather_elements@.take(0) =~= Seq::<forecast::WeatherElement>::empty());
    while i < item.weather_elements.len()
        invariant
            i <= item.weather_elements.len(),
            empty == Map::<Day, TemperatureGroup>::empty(),
            location.name == item.name,
            location.wf(),
            elements_appended(empty, item.weather_elements@.take(i as int)) == Ok::<
                Map<Day, TemperatureGroup>,
                Error,
            >(location.temperatures@),
        decreases item.weather_elements.len() - i,
    {
        let element = &item.weather_elements[i];
        assert(item.weather_elements@.take(i + 1).drop_last() =~= item.weather_elements@.take(
            i as int,
        ));
        assert(item.weather_elements@.take(i + 1).last() == *element);
        match element.name {
            WeatherElementName::MinTemperature | WeatherElementName::MaxTemperature => {
                match append_series(&mut location, element) {
                    Ok(_) => {},
                    Err(e) => {
                        proof {
                            lemma_elements_appended_prefix_error(
                                empty,
                                item.weather_elements@,
                                i + 1,
                            );
                        }
                        return Err(e);
                    },
                }
            },
            _ => {},
        }
        i += 1;
    }
    assert(item.weather_elements@.take(i as int) =~= item.weather_elements@);
    Ok(location)
}

/// The locations of a payload, in the order in which it holds them.
pub open spec fn flattened(wrappers: Seq<forecast::Wrapper>) -> Seq<forecast::Location>
    decreases wrappers.len(),
{
    if wrappers.len() == 0 {
        Seq::empty()
    } else {
        flattened(wrappers.drop_last()) + wrappers.last().location@
    }
}

/// Whether `location` holds the daily temperatures of `item` under its name.
pub open spec fn is_record_of(location: Location, item: forecast::Location) -> bool {
    &&& aggregated(item) == Ok::<Map<Day, TemperatureGroup>, Error>(location.temperatures@)
    &&& location.name == item.name
    &&& location.wf()
}

/// Whether `locations` hold the daily temperatures of `items`, one for one.
pub open spec fn are_records_of(locations: Seq<Location>, items: Seq<forecast::Location>) -> bool {
    &&& locations.len() == items.len()
    &&& forall|i: int| 0 <= i < items.len() ==> is_record_of(#[trigger] locations[i], items[i])
}

/// Whether `e` is the error of the first of `items` that fails.
pub open spec fn is_first_failure(e: Error, items: Seq<forecast::Location>) -> bool {
    exists|k: int|
        0 <= k < items.len() && #[trigger] aggregated(items[k]) == Err::<
            Map<Day, TemperatureGroup>,
            Error,
        >(e) && forall|j: int| 0 <= j < k ==> #[trigger] aggregated(items[j]) is Ok
}

/// Folds every location of a forecast payload into its daily temperatures.
/// The first location that fails fails the whole payload.
pub fn get_weather_forecast(data: &forecast::Response) -> (r: Result<Vec<Location>, Error>)
    ensures
        match r {
            Ok(locations) => are_records_of(locations@, flattened(data.records.locations@)),
            Err(e) => is_first_failure(e, flattened(data.records.locations@)),
        },
{
    let wrappers = &data.records.locations;
    let mut locations: Vec<Location> = Vec::new();
    let mut w: usize = 0;
    assert(wrappers@.take(0) =~= Seq::<forecast::Wrapper>::empty());
    while w < wrappers.len()
        invariant
            w <= wrappers.len(),
            wrappers@ == data.records.locations@,
            are_records_of(locations@, flattened(wrappers@.take(w as int))),
        decreases wrappers.len() - w,
    {
        let items = &wrappers[w].location;
        let ghost done = flattened(wrappers@.take(w as int));
        assert(wrappers@.take(w + 1).drop_last() =~= wrappers@.take(w as int));
        assert(wrappers@.take(w + 1).last() == wrappers@[w as int]);
        assert(flattened(wrappers@.take(w + 1)) == done + items@);
        let mut i: usize = 0;
        assert(done + items@.take(0) =~= done);
        while i < items.len()
            invariant
                i <= items.len(),
                w < wrappers.len(),
                wrappers@ == data.records.locations@,
                flattened(wrappers@.take(w + 1)) == done + items@,
                are_records_of(locations@, done + items@.take(i as int)),
            decreases items.len() - i,
        {
            let ghost before = done + items@.take(i as int);
            assert(done + items@.take(i + 1) =~= before.push(items@[i as int]));
            match to_record(&items[i]) {
                Ok(location) => {
                    locations.push(location);
                },
                Err(e) => {
                    proof {
                        let all = flattened(data.records.locations@);
                        let upto = done + items@;
                        lemma_flattened_prefix(wrappers@, w + 1);
                        let k = before.len() as int;
                        assert(upto[k] == items@[i as int]);
                        assert(all[k] == items@[i as int]);
                        assert forall|j: int| 0 <= j < k implies #[trigger] aggregated(all[j])
                            is Ok by {
                            assert(is_record_of(locations@[j], before[j]));
                            assert(all[j] == before[j]);
                        }
                    }
                    return Err(e);
                },
            }
            i += 1;
        }
        assert(items@.take(i as int) =~= items@);
        w += 1;
    }
    assert(wrappers@.take(w as int) =~= wrappers@);
    Ok(locations)
}

/// The locations of a beginning of a payload are a beginning of the
/// payload's locations.
pub proof fn lemma_flattened_prefix(wrappers: Seq<forecast::Wrapper>, n: int)
    requires
        0 <= n <= wrappers.len(),
    ensures
        flattened(wrappers.take(n)).len() <= flattened(wrappers).len(),
        forall|k: int|
            0 <= k < flattened(wrappers.take(n)).len() ==> flattened(wrappers)[k] == flattened(
                wrappers.take(n),
            )[k],
    decreases wrappers.len() - n,
{
    if n == wrappers.len() {
        assert(wrappers.take(n) =~= wrappers);
    } else {
        assert(wrappers.take(n + 1).drop_last() =~= wrappers.take(n));
        lemma_flattened_prefix(wrappers, n + 1);
    }
}

} // verus!
