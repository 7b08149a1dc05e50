//! The query of a request: a text of `key=value` pairs joined by `&`.

use vstd::prelude::*;
use crate::cwb::model::decimal::{
    all_digits,
    digit_value,
    digits_value,
    is_digit,
    lemma_digits_value_grows,
};
use crate::cwb::text::first_index;

verus! {

/// The pieces of `s` between the separators `sep`: one more than there are
/// separators, empty pieces among them.
pub open spec fn split(s: Seq<char>, sep: char) -> Seq<Seq<char>>
    decreases s.len(),
{
    let i = first_index(s, sep);
    if i < 0 || i >= s.len() {
        seq![s]
    } else {
        seq![s.take(i)] + split(s.skip(i + 1), sep)
    }
}

/// The key and the value of a piece: what stands before its first `=`, and
/// what stands between that and the next `=` or the end. A piece without `=`
/// has neither.
pub open spec fn pair_of(piece: Seq<char>) -> Option<(Seq<char>, Seq<char>)> {
    let parts = split(piece, '=');
    if parts.len() >= 2 {
        Some((parts[0], parts[1]))
    } else {
        None
    }
}

/// The pairs of those of `pieces` that have one, in their order.
pub open spec fn pairs_of(pieces: Seq<Seq<char>>) -> Seq<(Seq<char>, Seq<char>)>
    decreases pieces.len(),
{
    if pieces.len() == 0 {
        Seq::empty()
    } else {
        let rest = pairs_of(pieces.drop_last());
        match pair_of(pieces.last()) {
            Some(pair) => rest.push(pair),
            None => rest,
        }
    }
}

/// The pairs of the query `query`, in their order.
pub open spec fn query_pairs(query: Seq<char>) -> Seq<(Seq<char>, Seq<char>)> {
    pairs_of(split(query, '&'))
}

/// The pairs `pairs`, each as the characters of its key and of its value.
pub open spec fn pairs_view(pairs: Seq<(String, String)>) -> Seq<(Seq<char>, Seq<char>)> {
    pairs.map_values(|pair: (String, String)| (pair.0@, pair.1@))
}

/// Takes a query apart with `querystring::querify`, which cuts it at every
/// `&`, cuts each piece at `=`, keeps the first two parts of a piece as its
/// key and value, and passes over a piece without `=`. The contract claims
/// that the pairs come out as `query_pairs` gives them.
#[verifier::external_body]
pub(crate) fn querify(query: &str) -> (r: Vec<(String, String)>)
    ensures
        pairs_view(r@) == query_pairs(query@),
{
    querystring::querify(query).into_iter().map(
        |(key, value)| (key.to_owned(), value.to_owned()),
    ).collect()
}

/// The text of a limit without its sign.
pub open spec fn limit_digits(text: Seq<char>) -> Seq<char> {
    if text.len() > 0 && text[0] == '+' {
        text.skip(1)
    } else {
        text
    }
}

/// The number that the text of a limit denotes: digits, or `+` and digits,
/// that denote a number within the range of `usize`.
pub open spec fn limit_of(text: Seq<char>) -> Option<usize> {
    let digits = limit_digits(text);
    if digits.len() > 0 && all_digits(digits) && digits_value(digits) <= usize::MAX {
        Some(digits_value(digits) as usize)
    } else {
        None
    }
}

/// Reads the number of a limit.
pub fn parse_limit(text: &str) -> (r: Option<usize>)
    ensures
        r == limit_of(text@),
{
    let n = text.unicode_len();
    let mut i: usize = 0;
    if n > 0 && text.get_char(0) == '+' {
        i = 1;
    }
    let start = i;
    let ghost digits = limit_digits(text@);
    assert(digits =~= text@.skip(start as int));
    if i == n {
        return None;
    }
    let mut value: usize = 0;
    while i < n
        invariant
            n == text@.len(),
            start <= i <= n,
            start <= 1,
            digits == text@.skip(start as int),
            digits == limit_digits(text@),
            digits.len() > 0,
            forall|j: int| 0 <= j < i - start ==> is_digit(#[trigger] digits[j]),
            value == digits_value(digits.take(i - start)),
        decreases n - i,
    {
        let c = text.get_char(i);
        let ghost k = i - start;
        assert(digits[k] == c);
        if !('0' <= c && c <= '9') {
            return None;
        }
        let d = (c as u8 - ('0' as u8)) as usize;
        proof {
            assert(d == digit_value(c));
            assert(digits.take(k + 1).drop_last() =~= digits.take(k));
            assert(digits.take(k + 1).last() == c);
            if all_digits(digits) {
                lemma_digits_value_grows(digits, k + 1);
            }
        }
        value = match value.checked_mul(10) {
            Some(v) => match v.checked_add(d) {
                Some(v) => v,
                None => return None,
            },
            None => return None,
        };
        i += 1;
    }
    assert(digits.take(i - start) =~= digits);
    Some(value)
}

} // verus!
