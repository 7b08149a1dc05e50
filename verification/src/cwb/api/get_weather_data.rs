//! The stations view: the stations as they come, or sorted, cut to a limit,
//! or grouped by elevation, as the query of the request asks.
//!
//! The directives of a query take effect one after the other, in the order
//! in which the query holds them:
//! - `group_by` answers at once with the groups of the stations as they then
//!   are; what follows it in the query is not looked at.
//! - `order_by` sorts the stations: `TEMP` from the coldest, `H_24R` from the
//!   one with the most precipitation; any other value leaves them as they are.
//! - `limit` keeps the first stations, as many as its value says; a value
//!   that is no number fails the request.
//! Any other key is passed over.

use vstd::prelude::*;
use crate::cwb::api::compare::goes_before;
use crate::cwb::api::group::{group_by, grouped_by, Group};
use crate::cwb::api::order::{
    is_ordered,
    lemma_sorted_is_ordered,
    lemma_sorted_is_permutation,
    order_for,
    order_of,
    sort,
    sorted,
};
use crate::cwb::api::query::{limit_of, pairs_view, parse_limit, querify, query_pairs};
use crate::cwb::model::error::Error;
use crate::cwb::model::resp::Record;
use crate::cwb::text::same_text;

verus! {

/// What the stations view answers with.
#[derive(Debug)]
pub enum WeatherView {
    /// Stations.
    Records(Vec<Record>),
    /// Ranges of elevation, each with the coldest of its stations.
    Groups(Vec<Group>),
}

/// What the stations view shows, as sequences.
pub ghost enum Shown {
    Records(Seq<Record>),
    Groups(Seq<Group>),
}

impl View for WeatherView {
    type V = Shown;

    open spec fn view(&self) -> Shown {
        match self {
            WeatherView::Records(records) => Shown::Records(records@),
            WeatherView::Groups(groups) => Shown::Groups(groups@),
        }
    }
}

/// The first `limit` of the stations `data`; all of them where there are
/// fewer.
pub open spec fn limited(data: Seq<Record>, limit: usize) -> Seq<Record> {
    if limit <= data.len() {
        data.take(limit as int)
    } else {
        data
    }
}

/// What the stations `data` show under the directives `queries`, or the
/// error with which the request fails.
pub open spec fn viewed(data: Seq<Record>, queries: Seq<(Seq<char>, Seq<char>)>) -> Result<
    Shown,
    Error,
>
    decreases queries.len(),
{
    if queries.len() == 0 {
        Ok(Shown::Records(data))
    } else {
        let (key, value) = queries[0];
        let rest = queries.skip(1);
        if key == "group_by"@ {
            Ok(Shown::Groups(grouped_by(value, data)))
        } else if key == "order_by"@ {
            viewed(sorted(order_of(value), data), rest)
        } else if key == "limit"@ {
            match limit_of(value) {
                Some(limit) => viewed(limited(data, limit), rest),
                None => Err(Error::InvalidQueryError),
            }
        } else {
            viewed(data, rest)
        }
    }
}

/// What a view shows, or the error in its place.
pub open spec fn shown(r: Result<WeatherView, Error>) -> Result<Shown, Error> {
    match r {
        Ok(view) => Ok(view@),
        Err(e) => Err(e),
    }
}

/// `group_by` answers at once: whatever follows it in the query, a
/// malformed limit among it, has no effect.
pub proof fn lemma_group_by_answers_at_once(
    data: Seq<Record>,
    value: Seq<char>,
    rest: Seq<(Seq<char>, Seq<char>)>,
)
    ensures
        viewed(data, seq![("group_by"@, value)] + rest) == Ok::<Shown, Error>(
            Shown::Groups(grouped_by(value, data)),
        ),
{
}

/// A limit that is no number fails the request, whatever the stations are
/// and whatever follows it in the query.
pub proof fn lemma_malformed_limit_fails(
    data: Seq<Record>,
    value: Seq<char>,
    rest: Seq<(Seq<char>, Seq<char>)>,
)
    requires
        limit_of(value) is None,
    ensures
        viewed(data, seq![("limit"@, value)] + rest) == Err::<Shown, Error>(
            Error::InvalidQueryError,
        ),
{
    reveal_strlit("limit");
    reveal_strlit("group_by");
    reveal_strlit("order_by");
    let queries = seq![("limit"@, value)] + rest;
    assert(queries[0] == ("limit"@, value));
    assert("limit"@.len() != "group_by"@.len());
    assert("limit"@.len() != "order_by"@.len());
}

/// A directive with a key that is none of the three has no effect.
pub proof fn lemma_unknown_key_is_passed_over(
    data: Seq<Record>,
    key: Seq<char>,
    value: Seq<char>,
    rest: Seq<(Seq<char>, Seq<char>)>,
)
    requires
        key != "group_by"@,
        key != "order_by"@,
        key != "limit"@,
    ensures
        viewed(data, seq![(key, value)] + rest) == viewed(data, rest),
{
    assert((seq![(key, value)] + rest).skip(1) =~= rest);
}

/// Sorting and then limiting shows the stations that come first under the
/// order, in order: none that is left out goes strictly before one that is
/// shown.
pub proof fn lemma_order_then_limit(
    data: Seq<Record>,
    order: Seq<char>,
    limit: Seq<char>,
)
    requires
        limit_of(limit) is Some,
    ensures
        ({
            let all = sorted(order_of(order), data);
            let kept = limited(all, limit_of(limit)->Some_0);
            &&& viewed(data, seq![("order_by"@, order), ("limit"@, limit)]) == Ok::<Shown, Error>(
                Shown::Records(kept),
            )
            &&& all.to_multiset() == data.to_multiset()
            &&& kept.len() == if limit_of(limit)->Some_0 <= data.len() {
                limit_of(limit)->Some_0 as nat
            } else {
                data.len()
            }
            &&& is_ordered(order_of(order), kept)
            &&& forall|i: int, j: int|
                0 <= i < kept.len() <= j < all.len() ==> kept[i] == all[i] && !goes_before(
                    order_of(order),
                    all[j],
                    kept[i],
                )
        }),
{
    reveal_strlit("limit");
    reveal_strlit("group_by");
    reveal_strlit("order_by");
    let queries = seq![("order_by"@, order), ("limit"@, limit)];
    let all = sorted(order_of(order), data);
    let kept = limited(all, limit_of(limit)->Some_0);
    assert("limit"@.len() != "group_by"@.len());
    assert("limit"@.len() != "order_by"@.len());
    assert("order_by"@[0] != "group_by"@[0]);
    assert(queries[0] == ("order_by"@, order));
    assert(queries.skip(1) =~= seq![("limit"@, limit)]);
    assert(queries.skip(1)[0] == ("limit"@, limit));
    assert(queries.skip(1).skip(1) =~= Seq::<(Seq<char>, Seq<char>)>::empty());
    assert(viewed(kept, queries.skip(1).skip(1)) == Ok::<Shown, Error>(Shown::Records(kept)));
    assert(viewed(all, queries.skip(1)) == Ok::<Shown, Error>(Shown::Records(kept)));
    lemma_sorted_is_permutation(order_of(order), data);
    lemma_sorted_is_ordered(order_of(order), data);
    assert forall|i: int, j: int| 0 <= i < j < kept.len() implies !goes_before(
        order_of(order),
        kept[j],
        kept[i],
    ) by {
        assert(kept[i] == all[i] && kept[j] == all[j]);
    }
}

/// Lets the directives `queries` take effect on the stations `data`, one
/// after the other.
pub fn apply_queries(data: Vec<Record>, queries: &Vec<(String, String)>) -> (r: Result<
    WeatherView,
    Error,
>)
    ensures
        shown(r) == viewed(data@, pairs_view(queries@)),
{
    let ghost all = data@;
    let ghost directives = pairs_view(queries@);
    let mut current = data;
    let mut i: usize = 0;
    assert(directives.skip(0) =~= directives);
    while i < queries.len()
        invariant
            i <= queries.len(),
            all == data@,
            directives == pairs_view(queries@),
            viewed(all, directives) == viewed(current@, directives.skip(i as int)),
        decreases queries.len() - i,
    {
        let key = queries[i].0.as_str();
        let value = queries[i].1.as_str();
        proof {
            let rest = directives.skip(i as int);
            assert(rest[0] == (key@, value@));
            assert(rest.skip(1) =~= directives.skip(i + 1));
        }
        if same_text(key, "group_by") {
            return Ok(WeatherView::Groups(group_by(value, &current)));
        }
        if same_text(key, "order_by") {
            current = sort(order_for(value), current);
        } else if same_text(key, "limit") {
            match parse_limit(value) {
                Some(limit) => current.truncate(limit),
                None => return Err(Error::InvalidQueryError),
            }
        }
        i += 1;
    }
    Ok(WeatherView::Records(current))
}

/// The stations view of a request: the stations `data` under the directives
/// of `query`, all of them as they come where the request has no query.
pub fn get_weather_data(data: Vec<Record>, query: Option<&str>) -> (r: Result<WeatherView, Error>)
    ensures
        shown(r) == match query {
            Some(text) => viewed(data@, query_pairs(text@)),
            None => Ok(Shown::Records(data@)),
        },
{
    match query {
        Some(text) => {
            let queries = querify(text);
            apply_queries(data, &queries)
        },
        None => Ok(WeatherView::Records(data)),
    }
}

} // verus!
