//! The forecast view: one location's daily temperatures, summed up in its
//! highest and lowest temperature and its widest daily swing.
//!
//! A day that has no highest or no lowest temperature counts with 0 in its
//! place.

use vstd::prelude::*;
use vstd::std_specs::iter::IteratorSpec;
use crate::cwb::logic;
use crate::cwb::logic::get_weather_forecast::{
    aggregated,
    flattened,
    is_first_failure,
    Day,
    Location,
    TemperatureGroup,
};
use crate::cwb::model::cwb::forecast;
use crate::cwb::model::error::Error;
use crate::cwb::model::resp::{Forecast, Temperature};

verus! {

broadcast use vstd::std_specs::hash::group_hash_axioms;

/// The day's highest temperature; 0 where it has none.
pub open spec fn highest_of(group: TemperatureGroup) -> Temperature {
    match group.max {
        Some(max) => max,
        None => 0,
    }
}

/// The day's lowest temperature; 0 where it has none.
pub open spec fn lowest_of(group: TemperatureGroup) -> Temperature {
    match group.min {
        Some(min) => min,
        None => 0,
    }
}

/// By how much the day's highest temperature exceeds its lowest.
pub open spec fn swing_of(group: TemperatureGroup) -> int {
    highest_of(group) - lowest_of(group)
}

/// Whether `days` hold no day.
pub open spec fn no_day(days: Map<Day, TemperatureGroup>) -> bool {
    forall|day: Day| !days.contains_key(day)
}

/// Whether `summary` sums up the days `days` of the location called `name`:
/// its highest temperature is that of some day and no day's is higher, its
/// lowest is that of some day and no day's is lower, and its difference is the
/// swing of some day and no day's is wider.
pub open spec fn is_summary_of(
    summary: Forecast,
    name: String,
    days: Map<Day, TemperatureGroup>,
) -> bool {
    &&& summary.name == name
    &&& exists|day: Day| #[trigger]
        days.contains_key(day) && highest_of(days[day]) == summary.max_temperature
    &&& forall|day: Day| #[trigger]
        days.contains_key(day) ==> highest_of(days[day]) <= summary.max_temperature
    &&& exists|day: Day| #[trigger]
        days.contains_key(day) && lowest_of(days[day]) == summary.min_temperature
    &&& forall|day: Day| #[trigger]
        days.contains_key(day) ==> lowest_of(days[day]) >= summary.min_temperature
    &&& exists|day: Day| #[trigger]
        days.contains_key(day) && swing_of(days[day]) == summary.temperature_difference_per_day
    &&& forall|day: Day| #[trigger]
        days.contains_key(day) ==> swing_of(days[day]) <= summary.temperature_difference_per_day
}

fn highest(group: &TemperatureGroup) -> (r: Temperature)
    ensures
        r == highest_of(*group),
{
    match group.max {
        Some(max) => max,
        None => 0,
    }
}

fn lowest(group: &TemperatureGroup) -> (r: Temperature)
    ensures
        r == lowest_of(*group),
{
    match group.min {
        Some(min) => min,
        None => 0,
    }
}

/// Sums up the days of a location. A location without any day has no
/// summary.
pub fn summarize(location: &Location) -> (r: Result<Forecast, Error>)
    requires
        location.wf(),
    ensures
        match r {
            Ok(summary) => is_summary_of(summary, location.name, location.temperatures@),
            Err(e) => e == Error::EmptyAggregationError && no_day(location.temperatures@),
        },
{
    let days = &location.temperatures;
    let mut max: Temperature = 0;
    let mut min: Temperature = 0;
    let mut diff: Temperature = 0;
    let mut any = false;
    let keys = days.keys();
    let ghost all: Seq<&Day> = keys.remaining();
    let ghost mut seen: int = 0;
    for day in it: keys
        invariant
            it.seq() == all,
            seen == it.index(),
            all.unref().to_set() == days@.dom(),
            location.wf(),
            days@ == location.temperatures@,
            any == (seen > 0),
            any ==> exists|j: int| 0 <= j < seen && highest_of(days@[*all[j]]) == max,
            any ==> exists|j: int| 0 <= j < seen && lowest_of(days@[*all[j]]) == min,
            any ==> exists|j: int| 0 <= j < seen && swing_of(days@[*all[j]]) == diff,
            forall|j: int| 0 <= j < seen ==> highest_of(days@[*all[j]]) <= max,
            forall|j: int| 0 <= j < seen ==> lowest_of(days@[*all[j]]) >= min,
            forall|j: int| 0 <= j < seen ==> swing_of(days@[*all[j]]) <= diff,
    {
        assert(all.unref()[seen] == *day);
        assert(days@.dom().contains(*day));
        assert(days@[*day].wf());
        match days.get(day) {
            Some(group) => {
                let high = highest(group);
                let low = lowest(group);
                let swing = high - low;
                if !any || high > max {
                    max = high;
                }
                if !any || low < min {
                    min = low;
                }
                if !any || swing > diff {
                    diff = swing;
                }
                any = true;
            },
            None => {},
        }
        proof {
            seen = seen + 1;
        }
    }
    proof {
        assert(seen == all.len());
        assert forall|day: Day| #[trigger] days@.contains_key(day) implies exists|j: int|
            0 <= j < seen && *all[j] == day by {
            let s = all.unref();
            assert(s.to_set().contains(day));
            let j = choose|j: int| 0 <= j < s.len() && s[j] == day;
            assert(*all[j] == day);
        }
        assert forall|j: int| 0 <= j < seen implies days@.contains_key(*#[trigger] all[j]) by {
            assert(all.unref()[j] == *all[j]);
            assert(all.unref().to_set().contains(*all[j]));
        }
    }
    if !any {
        return Err(Error::EmptyAggregationError);
    }
    let summary = Forecast {
        name: location.name.clone(),
        max_temperature: max,
        min_temperature: min,
        temperature_difference_per_day: diff,
    };
    proof {
        let j = choose|j: int| 0 <= j < seen && highest_of(days@[*all[j]]) == max;
        assert(days@.contains_key(*all[j]));
        let j = choose|j: int| 0 <= j < seen && lowest_of(days@[*all[j]]) == min;
        assert(days@.contains_key(*all[j]));
        let j = choose|j: int| 0 <= j < seen && swing_of(days@[*all[j]]) == diff;
        assert(days@.contains_key(*all[j]));
    }
    Ok(summary)
}

/// Whether each of `items` gives its daily temperatures.
pub open spec fn all_aggregate(items: Seq<forecast::Location>) -> bool {
    forall|i: int| 0 <= i < items.len() ==> #[trigger] aggregated(items[i]) is Ok
}

/// The forecast view of a payload: the summary of its first location.
///
/// Every location of the payload is folded into its daily temperatures first,
/// so the first that fails fails the view. A payload without a location, or
/// whose first location has no day, has no summary.
pub fn get_weather_forecast(data: &forecast::Response) -> (r: Result<Forecast, Error>)
    ensures
        ({
            let items = flattened(data.records.locations@);
            match r {
                Ok(summary) => {
                    &&& all_aggregate(items)
                    &&& items.len() > 0
                    &&& is_summary_of(summary, items[0].name, aggregated(items[0])->Ok_0)
                },
                Err(e) => {
                    ||| is_first_failure(e, items)
                    ||| {
                        &&& all_aggregate(items)
                        &&& e == Error::EmptyAggregationError
                        &&& items.len() == 0 || no_day(aggregated(items[0])->Ok_0)
                    }
                },
            }
        }),
{
    let locations = match logic::get_weather_forecast::get_weather_forecast(data) {
        Ok(locations) => locations,
        Err(e) => return Err(e),
    };
    proof {
        let items = flattened(data.records.locations@);
        assert forall|i: int| 0 <= i < items.len() implies #[trigger] aggregated(items[i])
            is Ok by {
            assert(logic::get_weather_forecast::is_record_of(locations@[i], items[i]));
        }
    }
    if locations.len() == 0 {
        return Err(Error::EmptyAggregationError);
    }
    assert(logic::get_weather_forecast::is_record_of(
        locations@[0],
        flattened(data.records.locations@)[0],
    ));
    summarize(&locations[0])
}

} // verus!
