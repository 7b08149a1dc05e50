//! What the daily temperatures of a location are, said without the order in
//! which its samples arrive: a day's highest temperature is the greatest of
//! the values that count for it, its lowest the least of them.

use vstd::prelude::*;
use vstd::seq_lib::{commutative_foldl, lemma_fold_left_permutation};
use crate::cwb::logic::get_weather_forecast::{
    appended,
    appended_all,
    counted,
    counts_for,
    group_on,
    is_temperature_series,
    Day,
    TemperatureBetween,
    TemperatureGroup,
};
use crate::cwb::model::cwb::forecast::WeatherElementName;

verus! {

/// A sample changes the group of a day for which it counts as one sample
/// does, though it may count for the day twice, and no other group.
pub proof fn lemma_appended_group(
    days: Map<Day, TemperatureGroup>,
    name: WeatherElementName,
    sample: TemperatureBetween,
    day: Day,
)
    ensures
        group_on(appended(days, name, sample), day) == if is_temperature_series(name) && counts_for(
            sample,
            day,
        ) {
            group_on(days, day).with_sample(name, sample.1)
        } else {
            group_on(days, day)
        },
        appended(days, name, sample).contains_key(day) <==> days.contains_key(day) || (
        is_temperature_series(name) && counts_for(sample, day)),
{
    if is_temperature_series(name) {
        let first = counted(days, name, sample.0.start, sample.1);
        assert(group_on(first, day) == if sample.0.start == day {
            group_on(days, day).with_sample(name, sample.1)
        } else {
            group_on(days, day)
        });
    }
}

/// Two samples of one series may be appended in either order.
pub proof fn lemma_appended_commutes(
    days: Map<Day, TemperatureGroup>,
    name: WeatherElementName,
    x: TemperatureBetween,
    y: TemperatureBetween,
)
    ensures
        appended(appended(days, name, x), name, y) == appended(appended(days, name, y), name, x),
{
    let xy = appended(appended(days, name, x), name, y);
    let yx = appended(appended(days, name, y), name, x);
    assert forall|day: Day| xy.contains_key(day) == yx.contains_key(day) && (xy.contains_key(day)
        ==> xy[day] == yx[day]) by {
        lemma_appended_group(days, name, x, day);
        lemma_appended_group(days, name, y, day);
        lemma_appended_group(appended(days, name, x), name, y, day);
        lemma_appended_group(appended(days, name, y), name, x, day);
    }
    assert(xy =~= yx);
}

/// The samples of one series give the same days in whatever order they
/// arrive.
pub proof fn lemma_order_does_not_matter(
    days: Map<Day, TemperatureGroup>,
    name: WeatherElementName,
    a: Seq<TemperatureBetween>,
    b: Seq<TemperatureBetween>,
)
    requires
        a.to_multiset() == b.to_multiset(),
    ensures
        appended_all(days, name, a) == appended_all(days, name, b),
{
    let step = |so_far: Map<Day, TemperatureGroup>, sample: TemperatureBetween|
        appended(so_far, name, sample);
    assert(commutative_foldl(step)) by {
        assert forall|x: TemperatureBetween, y: TemperatureBetween, v: Map<Day, TemperatureGroup>|
         #[trigger] step(step(v, x), y) == step(step(v, y), x) by {
            lemma_appended_commutes(v, name, x, y);
        }
    }
    lemma_appended_all_is_fold(days, name, a);
    lemma_appended_all_is_fold(days, name, b);
    lemma_fold_left_permutation(a, b, step, days);
}

proof fn lemma_appended_all_is_fold(
    days: Map<Day, TemperatureGroup>,
    name: WeatherElementName,
    samples: Seq<TemperatureBetween>,
)
    ensures
        appended_all(days, name, samples) == samples.fold_left(
            days,
            |so_far: Map<Day, TemperatureGroup>, sample: TemperatureBetween|
                appended(so_far, name, sample),
        ),
    decreases samples.len(),
{
    if samples.len() > 0 {
        lemma_appended_all_is_fold(days, name, samples.drop_last());
    }
}

/// Of the samples of the series of highest temperatures: a day's highest
/// temperature is at least each value that counts for it and at least what
/// the day had before; it is one of those; and the day's lowest temperature
/// is untouched.
pub proof fn lemma_daily_maximum(
    days: Map<Day, TemperatureGroup>,
    samples: Seq<TemperatureBetween>,
    day: Day,
)
    ensures
        ({
            let before = group_on(days, day);
            let after = group_on(
                appended_all(days, WeatherElementName::MaxTemperature, samples),
                day,
            );
            &&& after.min == before.min
            &&& forall|i: int|
                0 <= i < samples.len() && counts_for(#[trigger] samples[i], day) ==> after.max
                    is Some && after.max->Some_0 >= samples[i].1
            &&& before.max is Some ==> after.max is Some && after.max->Some_0 >= before.max->Some_0
            &&& after.max is Some ==> after.max == before.max || exists|i: int|
                0 <= i < samples.len() && counts_for(#[trigger] samples[i], day) && samples[i].1
                    == after.max->Some_0
            &&& after.max is None ==> forall|i: int|
                0 <= i < samples.len() ==> !counts_for(#[trigger] samples[i], day)
        }),
    decreases samples.len(),
{
    if samples.len() > 0 {
        let name = WeatherElementName::MaxTemperature;
        let rest = samples.drop_last();
        lemma_daily_maximum(days, rest, day);
        lemma_appended_group(appended_all(days, name, rest), name, samples.last(), day);
        let before = group_on(days, day);
        let middle = group_on(appended_all(days, name, rest), day);
        let after = group_on(appended_all(days, name, samples), day);
        assert forall|i: int|
            0 <= i < samples.len() && counts_for(#[trigger] samples[i], day) implies after.max
            is Some && after.max->Some_0 >= samples[i].1 by {
            if i < rest.len() {
                assert(rest[i] == samples[i]);
            }
        }
        if after.max is Some && after.max != before.max {
            if after.max == middle.max {
                let i = choose|i: int|
                    0 <= i < rest.len() && counts_for(#[trigger] rest[i], day) && rest[i].1
                        == middle.max->Some_0;
                assert(samples[i] == rest[i]);
            } else {
                assert(counts_for(samples[samples.len() - 1], day));
            }
        }
        if after.max is None {
            assert forall|i: int| 0 <= i < samples.len() implies !counts_for(
                #[trigger] samples[i],
                day,
            ) by {
                if i < rest.len() {
                    assert(rest[i] == samples[i]);
                }
            }
        }
    }
}

/// Of the samples of the series of lowest temperatures: a day's lowest
/// temperature is at most each value that counts for it and at most what the
/// day had before; it is one of those; and the day's highest temperature is
/// untouched.
pub proof fn lemma_daily_minimum(
    days: Map<Day, TemperatureGroup>,
    samples: Seq<TemperatureBetween>,
    day: Day,
)
    ensures
        ({
            let before = group_on(days, day);
            let after = group_on(
                appended_all(days, WeatherElementName::MinTemperature, samples),
                day,
            );
            &&& after.max == before.max
            &&& forall|i: int|
                0 <= i < samples.len() && counts_for(#[trigger] samples[i], day) ==> after.min
                    is Some && after.min->Some_0 <= samples[i].1
            &&& before.min is Some ==> after.min is Some && after.min->Some_0 <= before.min->Some_0
            &&& after.min is Some ==> after.min == before.min || exists|i: int|
                0 <= i < samples.len() && counts_for(#[trigger] samples[i], day) && samples[i].1
                    == after.min->Some_0
            &&& after.min is None ==> forall|i: int|
                0 <= i < samples.len() ==> !counts_for(#[trigger] samples[i], day)
        }),
    decreases samples.len(),
{
    if samples.len() > 0 {
        let name = WeatherElementName::MinTemperature;
        let rest = samples.drop_last();
        lemma_daily_minimum(days, rest, day);
        lemma_appended_group(appended_all(days, name, rest), name, samples.last(), day);
        let before = group_on(days, day);
        let middle = group_on(appended_all(days, name, rest), day);
        let after = group_on(appended_all(days, name, samples), day);
        assert forall|i: int|
            0 <= i < samples.len() && counts_for(#[trigger] samples[i], day) implies after.min
            is Some && after.min->Some_0 <= samples[i].1 by {
            if i < rest.len() {
                assert(rest[i] == samples[i]);
            }
        }
        if after.min is Some && after.min != before.min {
            if after.min == middle.min {
                let i = choose|i: int|
                    0 <= i < rest.len() && counts_for(#[trigger] rest[i], day) && rest[i].1
                        == middle.min->Some_0;
                assert(samples[i] == rest[i]);
            } else {
                assert(counts_for(samples[samples.len() - 1], day));
            }
        }
        if after.min is None {
            assert forall|i: int| 0 <= i < samples.len() implies !counts_for(
                #[trigger] samples[i],
                day,
            ) by {
                if i < rest.len() {
                    assert(rest[i] == samples[i]);
                }
            }
        }
    }
}

/// On a day without a highest temperature yet, the samples of the series of
/// highest temperatures leave the greatest of the values that count for it:
/// `highest` is that value if it is one of them and none of them is greater.
pub proof fn lemma_highest_is_recorded(
    days: Map<Day, TemperatureGroup>,
    samples: Seq<TemperatureBetween>,
    day: Day,
    highest: i64,
)
    requires
        group_on(days, day).max is None,
        exists|i: int|
            0 <= i < samples.len() && counts_for(#[trigger] samples[i], day) && samples[i].1
                == highest,
        forall|i: int|
            0 <= i < samples.len() && counts_for(#[trigger] samples[i], day) ==> samples[i].1
                <= highest,
    ensures
        group_on(appended_all(days, WeatherElementName::MaxTemperature, samples), day).max == Some(
            highest,
        ),
{
    lemma_daily_maximum(days, samples, day);
}

/// On a day without a lowest temperature yet, the samples of the series of
/// lowest temperatures leave the least of the values that count for it,
/// also where that is zero.
pub proof fn lemma_lowest_is_recorded(
    days: Map<Day, TemperatureGroup>,
    samples: Seq<TemperatureBetween>,
    day: Day,
    lowest: i64,
)
    requires
        group_on(days, day).min is None,
        exists|i: int|
            0 <= i < samples.len() && counts_for(#[trigger] samples[i], day) && samples[i].1
                == lowest,
        forall|i: int|
            0 <= i < samples.len() && counts_for(#[trigger] samples[i], day) ==> samples[i].1
                >= lowest,
    ensures
        group_on(appended_all(days, WeatherElementName::MinTemperature, samples), day).min == Some(
            lowest,
        ),
{
    lemma_daily_minimum(days, samples, day);
}

} // verus!
