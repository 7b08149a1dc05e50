//! Sorting the stations: a stable sort, which never exchanges two stations
//! that the order holds equal.

use vstd::prelude::*;
use crate::cwb::api::compare::{goes_before, precedes, SortOrder};
use crate::cwb::model::resp::Record;
use crate::cwb::text::same_text;

verus! {

/// The order that the value of an `order_by` directive asks for.
pub open spec fn order_of(value: Seq<char>) -> SortOrder {
    if value == "TEMP"@ {
        SortOrder::Temperature
    } else if value == "H_24R"@ {
        SortOrder::Precipitation
    } else {
        SortOrder::Unsorted
    }
}

/// `list` with `x` put in front of the first station that does not go
/// strictly before it.
pub open spec fn inserted(order: SortOrder, x: Record, list: Seq<Record>) -> Seq<Record>
    decreases list.len(),
{
    if list.len() == 0 || !goes_before(order, list[0], x) {
        seq![x] + list
    } else {
        seq![list[0]] + inserted(order, x, list.skip(1))
    }
}

/// The stations `data` under `order`; stations that the order holds equal
/// stay as they come.
pub open spec fn sorted(order: SortOrder, data: Seq<Record>) -> Seq<Record>
    decreases data.len(),
{
    if data.len() == 0 {
        Seq::empty()
    } else {
        inserted(order, data[0], sorted(order, data.skip(1)))
    }
}

/// Where `x` is put: behind the stations that go strictly before it, in
/// front of the first that does not.
pub proof fn lemma_inserted_at(order: SortOrder, x: Record, list: Seq<Record>, at: int)
    requires
        0 <= at <= list.len(),
        forall|j: int| 0 <= j < at ==> goes_before(order, #[trigger] list[j], x),
        at < list.len() ==> !goes_before(order, list[at], x),
    ensures
        inserted(order, x, list) == list.insert(at, x),
    decreases at,
{
    if at == 0 {
        assert(seq![x] + list =~= list.insert(0, x));
    } else {
        let rest = list.skip(1);
        assert forall|j: int| 0 <= j < at - 1 implies goes_before(order, #[trigger] rest[j], x) by {
            assert(rest[j] == list[j + 1]);
        }
        lemma_inserted_at(order, x, rest, at - 1);
        assert(seq![list[0]] + rest.insert(at - 1, x) =~= list.insert(at, x));
    }
}

/// Whether no station of `list` goes strictly before one that stands in
/// front of it.
pub open spec fn is_ordered(order: SortOrder, list: Seq<Record>) -> bool {
    forall|i: int, j: int| 0 <= i < j < list.len() ==> !goes_before(order, list[j], list[i])
}

/// Whether the order holds `a` and `b` equal.
pub open spec fn ties_with(order: SortOrder, a: Record, b: Record) -> bool {
    !goes_before(order, a, b) && !goes_before(order, b, a)
}

/// The stations of `data` that the order holds equal to `with`, as they come.
pub open spec fn tied(order: SortOrder, with: Record, data: Seq<Record>) -> Seq<Record>
    decreases data.len(),
{
    if data.len() == 0 {
        Seq::empty()
    } else {
        let rest = tied(order, with, data.skip(1));
        if ties_with(order, data[0], with) {
            seq![data[0]] + rest
        } else {
            rest
        }
    }
}

/// The place at which `x` is put into `list`.
pub proof fn lemma_insertion_point(order: SortOrder, x: Record, list: Seq<Record>) -> (at: int)
    ensures
        0 <= at <= list.len(),
        forall|j: int| 0 <= j < at ==> goes_before(order, #[trigger] list[j], x),
        at < list.len() ==> !goes_before(order, list[at], x),
        inserted(order, x, list) == list.insert(at, x),
    decreases list.len(),
{
    if list.len() == 0 || !goes_before(order, list[0], x) {
        lemma_inserted_at(order, x, list, 0);
        0
    } else {
        let rest = list.skip(1);
        let at = lemma_insertion_point(order, x, rest) + 1;
        assert forall|j: int| 0 <= j < at implies goes_before(order, #[trigger] list[j], x) by {
            if j > 0 {
                assert(list[j] == rest[j - 1]);
            }
        }
        if at < list.len() {
            assert(list[at] == rest[at - 1]);
        }
        lemma_inserted_at(order, x, list, at);
        at
    }
}

/// Sorting neither loses nor adds a station.
pub proof fn lemma_sorted_is_permutation(order: SortOrder, data: Seq<Record>)
    ensures
        sorted(order, data).to_multiset() == data.to_multiset(),
        sorted(order, data).len() == data.len(),
    decreases data.len(),
{
    broadcast use vstd::seq_lib::group_to_multiset_ensures;

    if data.len() > 0 {
        let rest = data.skip(1);
        lemma_sorted_is_permutation(order, rest);
        let at = lemma_insertion_point(order, data[0], sorted(order, rest));
        assert(sorted(order, data) == sorted(order, rest).insert(at, data[0]));
        assert(data =~= rest.insert(0, data[0]));
        assert(sorted(order, rest).insert(at, data[0]).to_multiset() == sorted(
            order,
            rest,
        ).to_multiset().insert(data[0]));
        assert(rest.insert(0, data[0]).to_multiset() == rest.to_multiset().insert(data[0]));
    }
}

/// The sorted stations are in order: none goes strictly before one that
/// stands in front of it.
pub proof fn lemma_sorted_is_ordered(order: SortOrder, data: Seq<Record>)
    ensures
        is_ordered(order, sorted(order, data)),
    decreases data.len(),
{
    if data.len() > 0 {
        let x = data[0];
        let before = sorted(order, data.skip(1));
        lemma_sorted_is_ordered(order, data.skip(1));
        let at = lemma_insertion_point(order, x, before);
        let after = before.insert(at, x);
        assert forall|i: int, j: int| 0 <= i < j < after.len() implies !goes_before(
            order,
            after[j],
            after[i],
        ) by {
            if i == at {
                assert(after[j] == before[j - 1]);
                if at < j - 1 {
                    assert(!goes_before(order, before[j - 1], before[at]));
                }
            } else if j == at {
                assert(after[i] == before[i]);
            } else {
                let bi = if i < at {
                    i
                } else {
                    i - 1
                };
                let bj = if j < at {
                    j
                } else {
                    j - 1
                };
                assert(after[i] == before[bi]);
                assert(after[j] == before[bj]);
                assert(!goes_before(order, before[bj], before[bi]));
            }
        }
    }
}

/// Under the order that holds all stations equal, sorting changes nothing.
pub proof fn lemma_unsorted_stays(data: Seq<Record>)
    ensures
        sorted(SortOrder::Unsorted, data) == data,
    decreases data.len(),
{
    if data.len() > 0 {
        lemma_unsorted_stays(data.skip(1));
        assert(seq![data[0]] + data.skip(1) =~= data);
    }
}

/// The stations tied with `with` in two lists, one after the other.
pub proof fn lemma_tied_concat(order: SortOrder, with: Record, a: Seq<Record>, b: Seq<Record>)
    ensures
        tied(order, with, a + b) == tied(order, with, a) + tied(order, with, b),
    decreases a.len(),
{
    if a.len() == 0 {
        assert(a + b =~= b);
        assert(tied(order, with, a) + tied(order, with, b) =~= tied(order, with, b));
    } else {
        lemma_tied_concat(order, with, a.skip(1), b);
        assert((a + b).skip(1) =~= a.skip(1) + b);
        assert((a + b)[0] == a[0]);
        let rest = tied(order, with, a.skip(1));
        assert(seq![a[0]] + (rest + tied(order, with, b)) =~= (seq![a[0]] + rest) + tied(
            order,
            with,
            b,
        ));
    }
}

/// Sorting is stable: the stations that the order holds equal come out as
/// they came in.
pub proof fn lemma_sorted_is_stable(order: SortOrder, with: Record, data: Seq<Record>)
    ensures
        tied(order, with, sorted(order, data)) == tied(order, with, data),
    decreases data.len(),
{
    if data.len() > 0 {
        let x = data[0];
        let before = sorted(order, data.skip(1));
        lemma_sorted_is_stable(order, with, data.skip(1));
        let at = lemma_insertion_point(order, x, before);
        let head = before.take(at);
        let tail = before.skip(at);
        assert(before.insert(at, x) =~= head + (seq![x] + tail));
        assert(before =~= head + tail);
        lemma_tied_concat(order, with, head, seq![x] + tail);
        lemma_tied_concat(order, with, head, tail);
        assert((seq![x] + tail).skip(1) =~= tail);
        if ties_with(order, x, with) {
            lemma_none_tied(order, with, x, head);
            assert(tied(order, with, head) + (seq![x] + tied(order, with, tail)) =~= seq![x] + (
            tied(order, with, head) + tied(order, with, tail)));
        }
    }
}

/// Of stations that all go strictly before `x`, none is tied with what `x`
/// is tied with.
proof fn lemma_none_tied(order: SortOrder, with: Record, x: Record, list: Seq<Record>)
    requires
        ties_with(order, x, with),
        forall|j: int| 0 <= j < list.len() ==> goes_before(order, #[trigger] list[j], x),
    ensures
        tied(order, with, list) == Seq::<Record>::empty(),
    decreases list.len(),
{
    if list.len() > 0 {
        assert(goes_before(order, list[0], x));
        assert forall|j: int| 0 <= j < list.skip(1).len() implies goes_before(
            order,
            #[trigger] list.skip(1)[j],
            x,
        ) by {
            assert(list.skip(1)[j] == list[j + 1]);
        }
        lemma_none_tied(order, with, x, list.skip(1));
    }
}

pub fn order_for(value: &str) -> (r: SortOrder)
    ensures
        r == order_of(value@),
{
    if same_text(value, "TEMP") {
        SortOrder::Temperature
    } else if same_text(value, "H_24R") {
        SortOrder::Precipitation
    } else {
        SortOrder::Unsorted
    }
}

/// Sorts the stations under `order`.
pub fn sort(order: SortOrder, data: Vec<Record>) -> (r: Vec<Record>)
    ensures
        r@ == sorted(order, data@),
{
    let ghost all = data@;
    let mut data = data;
    let mut out: Vec<Record> = Vec::new();
    assert(all.skip(all.len() as int) =~= Seq::<Record>::empty());
    while data.len() > 0
        invariant
            data@ == all.take(data.len() as int),
            data.len() <= all.len(),
            out@ == sorted(order, all.skip(data.len() as int)),
        decreases data.len(),
    {
        let ghost n = data.len() - 1;
        let x = match data.pop() {
            Some(x) => x,
            None => return out,
        };
        assert(x == all[n]);
        assert(all.skip(n)[0] == x);
        assert(all.skip(n).skip(1) =~= all.skip(n + 1));
        let mut at: usize = 0;
        while at < out.len() && precedes(order, &out[at], &x)
            invariant
                at <= out.len(),
                forall|j: int| 0 <= j < at ==> goes_before(order, #[trigger] out@[j], x),
            decreases out.len() - at,
        {
            at += 1;
        }
        proof {
            lemma_inserted_at(order, x, out@, at as int);
        }
        out.insert(at, x);
        assert(data@ =~= all.take(data.len() as int));
    }
    assert(all.skip(0) =~= all);
    out
}

} // verus!
