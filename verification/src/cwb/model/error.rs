//! The ways in which a request can fail.

use vstd::prelude::*;

verus! {

/// A required field of an upstream entry.
#[derive(Debug, Clone, Copy, PartialEq, Eq, Structural)]
pub enum Field {
    City,
    Town,
    Temperature,
    Elevation,
    PrecipitationPerDay,
    /// The first value of a forecast sample.
    ElementValue,
}

#[derive(Debug, Clone, Copy, PartialEq, Eq, Structural)]
pub enum Error {
    /// A coordinate, a number or a timestamp is malformed.
    ParseError,
    /// A required field is absent.
    MissingFieldError(Field),
    /// A reading holds the value that marks "no data".
    InvalidDataError,
    /// A location has no daily group to summarize.
    EmptyAggregationError,
    /// The `limit` directive of a query is no number.
    InvalidQueryError,
}

impl Field {
    /// The text of the error that reports this field as absent.
    pub open spec fn not_found_text(self) -> Seq<char> {
        match self {
            Field::City => "city not found"@,
            Field::Town => "town not found"@,
            Field::Temperature => "temperature not found"@,
            Field::Elevation => "elevation not found"@,
            Field::PrecipitationPerDay => "precipitation per day not found"@,
            Field::ElementValue => "weather element value is empty"@,
        }
    }
}

impl Error {
    /// The text that describes the error.
    pub open spec fn text(self) -> Seq<char> {
        match self {
            Error::ParseError => "parse error"@,
            Error::MissingFieldError(field) => field.not_found_text(),
            Error::InvalidDataError => "invalid data"@,
            Error::EmptyAggregationError => "no daily temperature group"@,
            Error::InvalidQueryError => "error occured when parsing limit value"@,
        }
    }

    pub fn to_string(&self) -> (r: String)
        ensures
            r@ == self.text(),
    {
        let text = match self {
            Error::ParseError => "parse error",
            Error::MissingFieldError(Field::City) => "city not found",
            Error::MissingFieldError(Field::Town) => "town not found",
            Error::MissingFieldError(Field::Temperature) => "temperature not found",
            Error::MissingFieldError(Field::Elevation) => "elevation not found",
            Error::MissingFieldError(Field::PrecipitationPerDay) => {
                "precipitation per day not found"
            },
            Error::MissingFieldError(Field::ElementValue) => "weather element value is empty",
            Error::InvalidDataError => "invalid data",
            Error::EmptyAggregationError => "no daily temperature group",
            Error::InvalidQueryError => "error occured when parsing limit value",
        };
        text.to_owned()
    }
}

} // verus!
