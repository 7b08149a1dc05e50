//! How two stations compare under each order that a query can ask for.

use vstd::prelude::*;
use std::cmp::Ordering;
use crate::cwb::model::resp::Record;

verus! {

/// An order that the `order_by` directive of a query can ask for.
#[derive(Debug, Clone, Copy, PartialEq, Eq, Structural)]
pub enum SortOrder {
    /// From the coldest station to the warmest.
    Temperature,
    /// From the station with the most precipitation to the one with the least.
    Precipitation,
    /// As the stations come.
    Unsorted,
}

/// How the reading `left` compares with `right`.
pub open spec fn compared(left: i64, right: i64) -> Ordering {
    if left < right {
        Ordering::Less
    } else if left == right {
        Ordering::Equal
    } else {
        Ordering::Greater
    }
}

/// Whether `a` goes strictly before `b` under `order`.
pub open spec fn goes_before(order: SortOrder, a: Record, b: Record) -> bool {
    match order {
        SortOrder::Temperature => a.temperature < b.temperature,
        SortOrder::Precipitation => a.precipitation_per_day > b.precipitation_per_day,
        SortOrder::Unsorted => false,
    }
}

fn compare(left: i64, right: i64) -> (r: Ordering)
    ensures
        r == compared(left, right),
{
    if left < right {
        Ordering::Less
    } else if left == right {
        Ordering::Equal
    } else {
        Ordering::Greater
    }
}

/// Compares two stations by their precipitation, the greater first.
pub fn sort_by_h24r(a: &Record, b: &Record) -> (r: Ordering)
    ensures
        r == compared(b.precipitation_per_day, a.precipitation_per_day),
{
    compare(b.precipitation_per_day, a.precipitation_per_day)
}

/// Compares two stations by their temperature, the lower first.
pub fn sort_by_temp(a: &Record, b: &Record) -> (r: Ordering)
    ensures
        r == compared(a.temperature, b.temperature),
{
    compare(a.temperature, b.temperature)
}

/// Holds any two stations to be equal, so that sorting leaves them as they
/// come.
pub fn not_sort(a: &Record, b: &Record) -> (r: Ordering)
    ensures
        r == Ordering::Equal,
{
    Ordering::Equal
}

/// Whether `a` goes strictly before `b` under `order`.
pub fn precedes(order: SortOrder, a: &Record, b: &Record) -> (r: bool)
    ensures
        r == goes_before(order, *a, *b),
{
    let found = match order {
        SortOrder::Temperature => sort_by_temp(a, b),
        SortOrder::Precipitation => sort_by_h24r(a, b),
        SortOrder::Unsorted => not_sort(a, b),
    };
    match found {
        Ordering::Less => true,
        _ => false,
    }
}

} // verus!
