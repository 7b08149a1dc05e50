//! Stations: from the tagged text of an upstream entry to typed readings.
//!
//! An entry becomes a record only if its coordinates are numerals, its city
//! and town are present, and its temperature, elevation and precipitation are
//! present, are numerals, and are not the "no data" mark.

use vstd::prelude::*;
use crate::cwb::model::cwb::weather_data::{
    Data,
    Parameter,
    ParameterName,
    Record,
    WeatherElement,
    WeatherElementName,
};
use crate::cwb::model::decimal::{
    decimal_value,
    digits_value,
    fraction_digits,
    in_range,
    lemma_decimal_value_in_range,
    parse_decimal,
    unsigned_part,
    whole_digits,
};
use crate::cwb::model::error::{Error, Field};
use crate::cwb::model::resp;
use crate::cwb::text::first_index;

verus! {

/// The reading that stands for "no data at this time": -99.
pub const NO_DATA: i64 = -99_000_000;

/// The value of the first parameter in `list` that is tagged `name`.
pub open spec fn parameter_value(name: ParameterName, list: Seq<Parameter>) -> Option<String>
    decreases list.len(),
{
    if list.len() == 0 {
        None
    } else if list[0].name == name {
        Some(list[0].value)
    } else {
        parameter_value(name, list.skip(1))
    }
}

/// The value of the first weather element in `list` that is tagged `name`.
pub open spec fn element_value(name: WeatherElementName, list: Seq<WeatherElement>) -> Option<
    String,
>
    decreases list.len(),
{
    if list.len() == 0 {
        None
    } else if list[0].name == name {
        Some(list[0].value)
    } else {
        element_value(name, list.skip(1))
    }
}

/// A reading, unless it is the "no data" mark.
pub open spec fn checked(data: i64) -> Result<i64, Error> {
    if data == NO_DATA {
        Err(Error::InvalidDataError)
    } else {
        Ok(data)
    }
}

/// The number that a text denotes.
pub open spec fn number(text: Seq<char>) -> Result<i64, Error> {
    match decimal_value(text) {
        Some(v) => Ok(v as i64),
        None => Err(Error::ParseError),
    }
}

/// The reading tagged `name` in `list`; `field` names it where it is absent.
pub open spec fn reading(name: WeatherElementName, field: Field, list: Seq<WeatherElement>) -> Result<
    i64,
    Error,
> {
    match element_value(name, list) {
        None => Err(Error::MissingFieldError(field)),
        Some(text) => match number(text@) {
            Err(e) => Err(e),
            Ok(v) => checked(v),
        },
    }
}

/// The record that the entry `item` gives, or the first reason why it gives
/// none: its fields are examined in the order latitude, longitude, city, town,
/// temperature, elevation, precipitation.
pub open spec fn located(item: Record) -> Result<resp::Record, Error> {
    let latitude = number(item.lat@);
    let longitude = number(item.lon@);
    let city = parameter_value(ParameterName::City, item.parameters@);
    let town = parameter_value(ParameterName::Town, item.parameters@);
    let temperature = reading(
        WeatherElementName::Temperature,
        Field::Temperature,
        item.weather_elements@,
    );
    let altitude = reading(WeatherElementName::Elevation, Field::Elevation, item.weather_elements@);
    let precipitation = reading(
        WeatherElementName::PrecipitationPerDay,
        Field::PrecipitationPerDay,
        item.weather_elements@,
    );
    if latitude is Err {
        Err(latitude->Err_0)
    } else if longitude is Err {
        Err(longitude->Err_0)
    } else if city is None {
        Err(Error::MissingFieldError(Field::City))
    } else if town is None {
        Err(Error::MissingFieldError(Field::Town))
    } else if temperature is Err {
        Err(temperature->Err_0)
    } else if altitude is Err {
        Err(altitude->Err_0)
    } else if precipitation is Err {
        Err(precipitation->Err_0)
    } else {
        Ok(
            resp::Record {
                city: city->Some_0,
                town: town->Some_0,
                name: item.name,
                precipitation_per_day: precipitation->Ok_0,
                altitude: altitude->Ok_0,
                temperature: temperature->Ok_0,
                location: resp::Position {
                    latitude: latitude->Ok_0,
                    longitude: longitude->Ok_0,
                },
            },
        )
    }
}

/// The records of the entries of `batch` that give one, in the order of the
/// entries.
pub open spec fn parsed_stations(batch: Seq<Record>) -> Seq<resp::Record>
    decreases batch.len(),
{
    if batch.len() == 0 {
        Seq::empty()
    } else {
        let rest = parsed_stations(batch.drop_last());
        match located(batch.last()) {
            Ok(record) => rest.push(record),
            Err(_) => rest,
        }
    }
}

pub fn get_parameter_by(name: ParameterName, list: &Vec<Parameter>) -> (r: Option<String>)
    ensures
        r == parameter_value(name, list@),
{
    let mut i: usize = 0;
    assert(list@.skip(0) =~= list@);
    while i < list.len()
        invariant
            i <= list.len(),
            parameter_value(name, list@) == parameter_value(name, list@.skip(i as int)),
        decreases list.len() - i,
    {
        if list[i].name == name {
            return Some(list[i].value.clone());
        }
        assert(list@.skip(i as int).skip(1) =~= list@.skip(i + 1));
        i += 1;
    }
    None
}

pub fn get_weather_data_by(name: WeatherElementName, list: &Vec<WeatherElement>) -> (r: Option<
    String,
>)
    ensures
        r == element_value(name, list@),
{
    let mut i: usize = 0;
    assert(list@.skip(0) =~= list@);
    while i < list.len()
        invariant
            i <= list.len(),
            element_value(name, list@) == element_value(name, list@.skip(i as int)),
        decreases list.len() - i,
    {
        if list[i].name == name {
            return Some(list[i].value.clone());
        }
        assert(list@.skip(i as int).skip(1) =~= list@.skip(i + 1));
        i += 1;
    }
    None
}

/// Refuses the "no data" mark.
pub fn check_data_is_valid(data: i64) -> (r: Result<i64, Error>)
    ensures
        r == checked(data),
{
    if data == NO_DATA {
        Err(Error::InvalidDataError)
    } else {
        Ok(data)
    }
}

/// Reads the number that a text denotes.
fn parse_number(text: &str) -> (r: Result<i64, Error>)
    ensures
        r == number(text@),
{
    parse_decimal(text)
}

/// Finds the reading tagged `name`, reads it and refuses the "no data" mark.
fn get_reading(name: WeatherElementName, field: Field, list: &Vec<WeatherElement>) -> (r: Result<
    i64,
    Error,
>)
    ensures
        r == reading(name, field, list@),
{
    match get_weather_data_by(name, list) {
        None => Err(Error::MissingFieldError(field)),
        Some(text) => match parse_number(text.as_str()) {
            Err(e) => Err(e),
            Ok(v) => check_data_is_valid(v),
        },
    }
}

/// Turns one upstream entry into a record.
pub fn to_location(item: &Record) -> (r: Result<resp::Record, Error>)
    ensures
        r == located(*item),
{
    let name = item.name.clone();
    let latitude = match parse_number(item.lat.as_str()) {
        Ok(v) => v,
        Err(e) => return Err(e),
    };
    let longitude = match parse_number(item.lon.as_str()) {
        Ok(v) => v,
        Err(e) => return Err(e),
    };
    let city = match get_parameter_by(ParameterName::City, &item.parameters) {
        Some(v) => v,
        None => return Err(Error::MissingFieldError(Field::City)),
    };
    let town = match get_parameter_by(ParameterName::Town, &item.parameters) {
        Some(v) => v,
        None => return Err(Error::MissingFieldError(Field::Town)),
    };
    let temperature = match get_reading(
        WeatherElementName::Temperature,
        Field::Temperature,
        &item.weather_elements,
    ) {
        Ok(v) => v,
        Err(e) => return Err(e),
    };
    let altitude = match get_reading(
        WeatherElementName::Elevation,
        Field::Elevation,
        &item.weather_elements,
    ) {
        Ok(v) => v,
        Err(e) => return Err(e),
    };
    let precipitation_per_day = match get_reading(
        WeatherElementName::PrecipitationPerDay,
        Field::PrecipitationPerDay,
        &item.weather_elements,
    ) {
        Ok(v) => v,
        Err(e) => return Err(e),
    };
    Ok(
        resp::Record {
            name,
            city,
            town,
            altitude,
            temperature,
            precipitation_per_day,
            location: resp::Position { latitude, longitude },
        },
    )
}

/// Turns a batch of upstream entries into records. An entry that gives none
/// is left out; the others are not affected.
pub fn get_weather_data(data: &Data) -> (r: Vec<resp::Record>)
    ensures
        r@ == parsed_stations(data.records.locations@),
{
    let batch = &data.records.locations;
    let mut locations: Vec<resp::Record> = Vec::new();
    let mut i: usize = 0;
    while i < batch.len()
        invariant
            i <= batch.len(),
            locations@ == parsed_stations(batch@.take(i as int)),
        decreases batch.len() - i,
    {
        assert(batch@.take(i + 1).drop_last() =~= batch@.take(i as int));
        match to_location(&batch[i]) {
            Ok(record) => locations.push(record),
            Err(_) => {},
        }
        i += 1;
    }
    assert(batch@.take(i as int) =~= batch@);
    locations
}

/// The text `-99` denotes the "no data" mark, which is refused.
pub proof fn lemma_no_data_text()
    ensures
        number("-99"@) == Ok::<i64, Error>(NO_DATA),
        checked(NO_DATA) == Err::<i64, Error>(Error::InvalidDataError),
{
    reveal_strlit("-99");
    reveal_with_fuel(first_index, 4);
    reveal_with_fuel(digits_value, 4);
    let s = "-99"@;
    let digits = seq!['9', '9'];
    assert(unsigned_part(s) =~= digits);
    assert(whole_digits(s) =~= digits);
    assert(fraction_digits(s) =~= Seq::<char>::empty());
    assert(digits.drop_last() =~= seq!['9']);
    assert(seq!['9'].drop_last() =~= Seq::<char>::empty());
}

/// An entry whose temperature, elevation or precipitation is the "no data"
/// mark gives no record: where nothing before that reading fails, the
/// reading does.
pub proof fn lemma_no_data_is_refused(item: Record, name: WeatherElementName, field: Field)
    requires
        (name == WeatherElementName::Temperature && field == Field::Temperature) || (name
            == WeatherElementName::Elevation && field == Field::Elevation) || (name
            == WeatherElementName::PrecipitationPerDay && field == Field::PrecipitationPerDay),
        element_value(name, item.weather_elements@) is Some,
        decimal_value(element_value(name, item.weather_elements@)->Some_0@) == Some(NO_DATA as int),
    ensures
        reading(name, field, item.weather_elements@) == Err::<i64, Error>(Error::InvalidDataError),
        located(item) is Err,
{
}

/// No record holds the "no data" mark for its temperature, its elevation or
/// its precipitation, and all of its readings are in range.
pub proof fn lemma_record_holds_readings(item: Record)
    requires
        located(item) is Ok,
    ensures
        ({
            let record = located(item)->Ok_0;
            &&& record.temperature != NO_DATA
            &&& record.altitude != NO_DATA
            &&& record.precipitation_per_day != NO_DATA
            &&& in_range(record.temperature as int)
            &&& in_range(record.altitude as int)
            &&& in_range(record.precipitation_per_day as int)
            &&& in_range(record.location.latitude as int)
            &&& in_range(record.location.longitude as int)
        }),
{
    let elements = item.weather_elements@;
    lemma_decimal_value_in_range(item.lat@);
    lemma_decimal_value_in_range(item.lon@);
    lemma_decimal_value_in_range(element_value(WeatherElementName::Temperature, elements)->Some_0@);
    lemma_decimal_value_in_range(element_value(WeatherElementName::Elevation, elements)->Some_0@);
    lemma_decimal_value_in_range(
        element_value(WeatherElementName::PrecipitationPerDay, elements)->Some_0@,
    );
}

/// Every record of a batch is that of one of its entries.
pub proof fn lemma_parsed_stations_come_from_entries(batch: Seq<Record>, k: int) -> (i: int)
    requires
        0 <= k < parsed_stations(batch).len(),
    ensures
        0 <= i < batch.len(),
        located(batch[i]) == Ok::<resp::Record, Error>(parsed_stations(batch)[k]),
    decreases batch.len(),
{
    let rest = batch.drop_last();
    if k < parsed_stations(rest).len() {
        let i = lemma_parsed_stations_come_from_entries(rest, k);
        assert(rest[i] == batch[i]);
        i
    } else {
        batch.len() - 1
    }
}

/// The first required field that the entry `item` lacks.
pub open spec fn first_missing(item: Record) -> Option<Field> {
    if parameter_value(ParameterName::City, item.parameters@) is None {
        Some(Field::City)
    } else if parameter_value(ParameterName::Town, item.parameters@) is None {
        Some(Field::Town)
    } else if element_value(WeatherElementName::Temperature, item.weather_elements@) is None {
        Some(Field::Temperature)
    } else if element_value(WeatherElementName::Elevation, item.weather_elements@) is None {
        Some(Field::Elevation)
    } else if element_value(WeatherElementName::PrecipitationPerDay, item.weather_elements@)
        is None {
        Some(Field::PrecipitationPerDay)
    } else {
        None
    }
}

/// Whether the text `value`, where there is one, is a numeral other than the
/// "no data" mark.
pub open spec fn valid_if_present(value: Option<String>) -> bool {
    value is Some ==> number(value->Some_0@) is Ok && number(value->Some_0@)->Ok_0 != NO_DATA
}

/// Whether all that the entry `item` holds is well formed: its coordinates
/// are numerals, and so are the readings that are present, none of them the
/// "no data" mark.
pub open spec fn well_formed(item: Record) -> bool {
    &&& number(item.lat@) is Ok
    &&& number(item.lon@) is Ok
    &&& valid_if_present(element_value(WeatherElementName::Temperature, item.weather_elements@))
    &&& valid_if_present(element_value(WeatherElementName::Elevation, item.weather_elements@))
    &&& valid_if_present(
        element_value(WeatherElementName::PrecipitationPerDay, item.weather_elements@),
    )
}

/// A well-formed entry that lacks a required field fails with the error that
/// names the first field it lacks; one that lacks none gives a record.
pub proof fn lemma_missing_field_is_reported(item: Record)
    requires
        well_formed(item),
    ensures
        match first_missing(item) {
            Some(field) => located(item) == Err::<resp::Record, Error>(
                Error::MissingFieldError(field),
            ),
            None => located(item) is Ok,
        },
{
}

/// The records of two batches, one after the other, are those of the first
/// followed by those of the second: no entry bears on another.
pub proof fn lemma_parsed_stations_concat(a: Seq<Record>, b: Seq<Record>)
    ensures
        parsed_stations(a + b) == parsed_stations(a) + parsed_stations(b),
    decreases b.len(),
{
    if b.len() == 0 {
        assert(a + b =~= a);
        assert(parsed_stations(a) + parsed_stations(b) =~= parsed_stations(a));
    } else {
        lemma_parsed_stations_concat(a, b.drop_last());
        assert((a + b).drop_last() =~= a + b.drop_last());
        assert((a + b).last() == b.last());
        match located(b.last()) {
            Ok(record) => {
                assert((parsed_stations(a) + parsed_stations(b.drop_last())).push(record)
                    =~= parsed_stations(a) + parsed_stations(b.drop_last()).push(record));
            },
            Err(_) => {},
        }
    }
}

/// An entry that fails is left out of the records of its batch, and the
/// entries around it give what they give without it.
pub proof fn lemma_failed_station_is_dropped(before: Seq<Record>, item: Record, after: Seq<Record>)
    requires
        located(item) is Err,
    ensures
        parsed_stations(before.push(item) + after) == parsed_stations(before) + parsed_stations(
            after,
        ),
{
    lemma_parsed_stations_concat(before.push(item), after);
    assert(before.push(item).drop_last() =~= before);
}

/// An entry that gives a record has it among the records of its batch,
/// between those of the entries before it and those of the entries after it.
pub proof fn lemma_valid_station_is_kept(before: Seq<Record>, item: Record, after: Seq<Record>)
    requires
        located(item) is Ok,
    ensures
        parsed_stations(before.push(item) + after) == parsed_stations(before).push(
            located(item)->Ok_0,
        ) + parsed_stations(after),
{
    lemma_parsed_stations_concat(before.push(item), after);
    assert(before.push(item).drop_last() =~= before);
}

} // verus!
