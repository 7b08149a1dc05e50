//! Readings as fixed-point numbers.
//!
//! A reading is kept as a whole number of millionths of its unit: `24.7` is
//! `24_700_000`. The text of a reading is a decimal numeral: an optional sign,
//! digits, and optionally a point followed by more digits, with at least one
//! digit in all. Digits beyond the sixth place after the point are dropped.
//! Exponents, infinities and "not a number" are not numerals here.

use vstd::prelude::*;
use crate::cwb::model::error::Error;
use crate::cwb::text::{first_index, lemma_first_index_bounds, lemma_first_index_is};

verus! {

/// The number of millionths in one unit.
pub const SCALE: i64 = 1_000_000;

/// The whole part of a reading stays below this many units.
pub const UNIT_LIMIT: i64 = 1_000_000_000;

/// Every reading lies strictly between `-READING_LIMIT` and `READING_LIMIT`.
pub const READING_LIMIT: i64 = 1_000_000_000_000_000;

/// The weight, in millionths, of the first digit after the point.
pub const FIRST_PLACE: i64 = 100_000;

/// Whether `v` is a reading that a numeral can denote.
pub open spec fn in_range(v: int) -> bool {
    -READING_LIMIT < v < READING_LIMIT
}

pub open spec fn is_digit(c: char) -> bool {
    '0' <= c <= '9'
}

pub open spec fn digit_value(c: char) -> int {
    c as int - '0' as int
}

pub open spec fn all_digits(s: Seq<char>) -> bool {
    forall|i: int| 0 <= i < s.len() ==> is_digit(#[trigger] s[i])
}

/// The number that a run of digits denotes; 0 for the empty run.
pub open spec fn digits_value(s: Seq<char>) -> int
    decreases s.len(),
{
    if s.len() == 0 {
        0
    } else {
        10 * digits_value(s.drop_last()) + digit_value(s.last())
    }
}

/// The millionths that the digits after the point denote, the first of them
/// weighing `weight`, each next one a tenth of that, rounded down.
pub open spec fn fraction_value(s: Seq<char>, weight: int) -> int
    decreases s.len(),
{
    if s.len() == 0 {
        0
    } else {
        digit_value(s[0]) * weight + fraction_value(s.skip(1), weight / 10)
    }
}

pub open spec fn has_sign(s: Seq<char>) -> bool {
    s.len() > 0 && (s[0] == '-' || s[0] == '+')
}

pub open spec fn is_negative(s: Seq<char>) -> bool {
    s.len() > 0 && s[0] == '-'
}

/// The numeral without its sign.
pub open spec fn unsigned_part(s: Seq<char>) -> Seq<char> {
    if has_sign(s) {
        s.skip(1)
    } else {
        s
    }
}

/// The digits before the point.
pub open spec fn whole_digits(s: Seq<char>) -> Seq<char> {
    let body = unsigned_part(s);
    body.take(first_index(body, '.'))
}

/// The digits after the point; none where there is no point.
pub open spec fn fraction_digits(s: Seq<char>) -> Seq<char> {
    let body = unsigned_part(s);
    let point = first_index(body, '.');
    if point < body.len() {
        body.skip(point + 1)
    } else {
        Seq::empty()
    }
}

/// Whether `s` is a decimal numeral.
pub open spec fn is_numeral(s: Seq<char>) -> bool {
    &&& all_digits(whole_digits(s))
    &&& all_digits(fraction_digits(s))
    &&& whole_digits(s).len() + fraction_digits(s).len() > 0
}

/// The magnitude of the numeral `s`, in millionths.
pub open spec fn magnitude(s: Seq<char>) -> int {
    digits_value(whole_digits(s)) * SCALE + fraction_value(fraction_digits(s), FIRST_PLACE as int)
}

/// The reading that the text `s` denotes: `None` where `s` is no numeral or
/// its whole part reaches `UNIT_LIMIT`.
pub open spec fn decimal_value(s: Seq<char>) -> Option<int> {
    if is_numeral(s) && digits_value(whole_digits(s)) < UNIT_LIMIT {
        Some(
            if is_negative(s) {
                -magnitude(s)
            } else {
                magnitude(s)
            },
        )
    } else {
        None
    }
}

/// A run of digits denotes at least what any of its prefixes denotes.
pub proof fn lemma_digits_value_grows(s: Seq<char>, n: int)
    requires
        all_digits(s),
        0 <= n <= s.len(),
    ensures
        0 <= digits_value(s.take(n)) <= digits_value(s),
    decreases s.len() - n,
{
    if n == s.len() {
        assert(s.take(n) =~= s);
        lemma_digits_value_nonnegative(s);
    } else {
        lemma_digits_value_grows(s, n + 1);
        let longer = s.take(n + 1);
        assert(longer.drop_last() =~= s.take(n));
        assert(is_digit(s[n]));
        assert(longer.last() == s[n]);
        assert(all_digits(s.take(n))) by {
            assert forall|i: int| 0 <= i < s.take(n).len() implies is_digit(
                #[trigger] s.take(n)[i],
            ) by {
                assert(s.take(n)[i] == s[i]);
            }
        }
        lemma_digits_value_nonnegative(s.take(n));
    }
}

pub proof fn lemma_digits_value_nonnegative(s: Seq<char>)
    requires
        all_digits(s),
    ensures
        0 <= digits_value(s),
    decreases s.len(),
{
    if s.len() > 0 {
        assert(is_digit(s[s.len() - 1]));
        assert forall|i: int| 0 <= i < s.drop_last().len() implies is_digit(
            #[trigger] s.drop_last()[i],
        ) by {
            assert(s.drop_last()[i] == s[i]);
        }
        lemma_digits_value_nonnegative(s.drop_last());
    }
}

/// The digits after the point denote less than one unit.
pub proof fn lemma_fraction_value_bounds(s: Seq<char>, weight: int)
    requires
        all_digits(s),
        0 <= weight,
    ensures
        0 <= fraction_value(s, weight) <= 10 * weight,
        weight > 0 ==> fraction_value(s, weight) < 10 * weight,
    decreases s.len(),
{
    if s.len() > 0 {
        let rest = s.skip(1);
        assert forall|i: int| 0 <= i < rest.len() implies is_digit(#[trigger] rest[i]) by {
            assert(rest[i] == s[i + 1]);
        }
        lemma_fraction_value_bounds(rest, weight / 10);
        let d = digit_value(s[0]);
        assert(is_digit(s[0]));
        assert(0 <= d * weight <= 9 * weight) by (nonlinear_arith)
            requires
                0 <= d <= 9,
                0 <= weight,
        ;
    }
}

/// A numeral within the limit denotes a reading in range.
pub proof fn lemma_decimal_value_in_range(s: Seq<char>)
    ensures
        decimal_value(s) is Some ==> in_range(decimal_value(s).unwrap()),
{
    if decimal_value(s) is Some {
        lemma_digits_value_nonnegative(whole_digits(s));
        lemma_fraction_value_bounds(fraction_digits(s), FIRST_PLACE as int);
    }
}

/// A text with a character outside ASCII is no numeral.
proof fn lemma_numeral_is_ascii(s: Seq<char>)
    requires
        is_numeral(s),
    ensures
        vstd::utf8::is_ascii_chars(s),
{
    let body = unsigned_part(s);
    let point = first_index(body, '.');
    lemma_first_index_bounds(body, '.');
    assert forall|i: int| 0 <= i < s.len() implies '\0' <= #[trigger] s[i] <= '\u{7f}' by {
        let shift: int = if has_sign(s) {
            1
        } else {
            0
        };
        if i >= shift {
            let j = i - shift;
            assert(body[j] == s[i]);
            if j < point {
                assert(whole_digits(s)[j] == body[j]);
                assert(is_digit(whole_digits(s)[j]));
            } else if j > point {
                assert(fraction_digits(s)[j - point - 1] == body[j]);
                assert(is_digit(fraction_digits(s)[j - point - 1]));
            }
        }
    }
}

/// Reads a reading from its text.
pub fn parse_decimal(s: &str) -> (r: Result<i64, Error>)
    ensures
        match r {
            Ok(v) => decimal_value(s@) == Some(v as int),
            Err(e) => e == Error::ParseError && decimal_value(s@) is None,
        },
{
    if !s.is_ascii() {
        proof {
            if is_numeral(s@) {
                lemma_numeral_is_ascii(s@);
            }
        }
        return Err(Error::ParseError);
    }
    let n = s.unicode_len();
    let mut start: usize = 0;
    let mut negative = false;
    if n > 0 {
        let sign = s.get_ascii(0);
        if sign == ('-' as u8) {
            negative = true;
            start = 1;
        } else if sign == ('+' as u8) {
            start = 1;
        }
    }
    let ghost body = unsigned_part(s@);
    let ghost point = first_index(body, '.');
    proof {
        lemma_first_index_bounds(body, '.');
    }
    assert(negative == is_negative(s@));
    assert(body =~= s@.skip(start as int));

    let mut i = start;
    let mut whole: i64 = 0;
    while i < n && ('0' as u8) <= s.get_ascii(i) && s.get_ascii(i) <= ('9' as u8)
        invariant
            s.is_ascii(),
            n == s@.len(),
            start <= i <= n,
            start <= 1,
            body == s@.skip(start as int),
            body == unsigned_part(s@),
            point == first_index(body, '.'),
            0 <= point <= body.len(),
            forall|j: int| 0 <= j < i - start ==> is_digit(#[trigger] body[j]),
            i - start <= point,
            whole == digits_value(body.take(i - start)),
            0 <= whole < UNIT_LIMIT,
        decreases n - i,
    {
        let d = s.get_ascii(i) - ('0' as u8);
        let ghost k = i - start;
        proof {
            lemma_first_index_bounds(body, '.');
            assert(body[k] == s@[i as int]);
            assert(is_digit(body[k]));
            assert(d == digit_value(body[k]));
            if point == k {
                assert(body[point] == '.');
            }
            assert(point >= k + 1);
            assert(body.take(k + 1).drop_last() =~= body.take(k));
            assert(body.take(k + 1).last() == body[k]);
        }
        whole = whole * 10 + d as i64;
        i += 1;
        if whole >= UNIT_LIMIT {
            proof {
                assert(whole_digits(s@) == body.take(point));
                if all_digits(whole_digits(s@)) {
                    lemma_digits_value_grows(whole_digits(s@), k + 1);
                    assert(whole_digits(s@).take(k + 1) =~= body.take(k + 1));
                }
            }
            return Err(Error::ParseError);
        }
    }
    let whole_len = i - start;
    let mut fraction: i64 = 0;
    let mut fraction_len: usize = 0;
    if i < n {
        proof {
            assert(body[whole_len as int] == s@[i as int]);
        }
        if s.get_ascii(i) != ('.' as u8) {
            proof {
                assert(!is_digit(body[whole_len as int]));
                assert(body[whole_len as int] != '.');
                assert(point > whole_len);
                assert(whole_digits(s@)[whole_len as int] == body[whole_len as int]);
            }
            return Err(Error::ParseError);
        }
        proof {
            assert(body[whole_len as int] == '.');
            assert forall|j: int| 0 <= j < whole_len implies body[j] != '.' by {
                assert(is_digit(body[j]));
            }
            lemma_first_index_is(body, '.', whole_len as int);
        }
        i += 1;
        let first = i;
        let ghost digits = fraction_digits(s@);
        assert(digits =~= s@.skip(first as int));
        assert(digits.skip(0) =~= digits);
        let mut weight: i64 = FIRST_PLACE;
        while i < n && ('0' as u8) <= s.get_ascii(i) && s.get_ascii(i) <= ('9' as u8)
            invariant
                s.is_ascii(),
                n == s@.len(),
                first <= i <= n,
                digits == s@.skip(first as int),
                forall|j: int| 0 <= j < i - first ==> is_digit(#[trigger] digits[j]),
                0 <= weight <= FIRST_PLACE,
                0 <= fraction <= SCALE - 10 * weight,
                fraction_value(digits, FIRST_PLACE as int) == fraction + fraction_value(
                    digits.skip(i - first),
                    weight as int,
                ),
            decreases n - i,
        {
            let d = s.get_ascii(i) - ('0' as u8);
            let ghost k = i - first;
            proof {
                assert(digits[k] == s@[i as int]);
                assert(digits.skip(k)[0] == digits[k]);
                assert(digits.skip(k).skip(1) =~= digits.skip(k + 1));
                assert(d == digit_value(digits[k]));
                assert(0 <= d * weight <= 9 * weight) by (nonlinear_arith)
                    requires
                        0 <= d <= 9,
                        0 <= weight,
                ;
            }
            fraction = fraction + d as i64 * weight;
            weight = weight / 10;
            i += 1;
        }
        fraction_len = i - first;
        if i < n {
            proof {
                let k = i - first;
                assert(digits[k] == s@[i as int]);
                assert(!is_digit(digits[k]));
            }
            return Err(Error::ParseError);
        }
        proof {
            assert(digits.skip(i - first) =~= Seq::<char>::empty());
            assert(digits.len() == fraction_len);
            assert(all_digits(digits));
        }
    } else {
        proof {
            assert forall|j: int| 0 <= j < whole_len implies body[j] != '.' by {
                assert(is_digit(body[j]));
            }
            lemma_first_index_is(body, '.', whole_len as int);
            assert(fraction_digits(s@) =~= Seq::<char>::empty());
        }
    }
    proof {
        assert(whole_digits(s@) =~= body.take(whole_len as int));
        assert(all_digits(whole_digits(s@)));
        assert(fraction_digits(s@).len() == fraction_len);
    }
    if whole_len == 0 && fraction_len == 0 {
        return Err(Error::ParseError);
    }
    let value = whole * SCALE + fraction;
    if negative {
        Ok(-value)
    } else {
        Ok(value)
    }
}

} // verus!
