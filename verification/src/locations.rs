//! Places on the world map, found by their names.
//!
//! A place of the map is named `Location.` followed by its number, such as
//! `Location.12`. Every other name is something else.

use vstd::prelude::*;
use vstd::string::StrSliceExecFns;

verus! {

/// What the name of every place starts with.
pub open spec fn marker() -> Seq<char> {
    seq!['L', 'o', 'c', 'a', 't', 'i', 'o', 'n', '.']
}

/// The text with every occurrence of `marker` taken out, going from left to
/// right and never using a character twice.
pub open spec fn without(text: Seq<char>, marker: Seq<char>) -> Seq<char>
    decreases text.len(),
{
    if marker.len() == 0 || text.len() == 0 {
        text
    } else if marker.is_prefix_of(text) {
        without(text.skip(marker.len() as int), marker)
    } else {
        seq![text[0]] + without(text.skip(1), marker)
    }
}

/// Whether the character is one of the ten decimal digits.
pub open spec fn is_digit(c: char) -> bool {
    '0' <= c <= '9'
}

/// The number that the digits write in decimal.
pub open spec fn number_of(digits: Seq<char>) -> int
    decreases digits.len(),
{
    if digits.len() == 0 {
        0
    } else {
        number_of(digits.drop_last()) * 10 + (digits.last() as int - '0' as int)
    }
}

/// Whether every character is a digit.
pub open spec fn all_digits(text: Seq<char>) -> bool {
    forall|i: int| 0 <= i < text.len() ==> is_digit(#[trigger] text[i])
}

/// The number that one or more digits write, if a `usize` holds it.
pub open spec fn number_written(digits: Seq<char>) -> Option<usize> {
    if digits.len() > 0 && all_digits(digits) && number_of(digits) <= usize::MAX {
        Some(number_of(digits) as usize)
    } else {
        None
    }
}

/// The number that a text stands for: one or more decimal digits, with or
/// without a plus sign in front, that come to no more than a `usize` holds.
pub open spec fn number_in(text: Seq<char>) -> Option<usize> {
    if text.len() > 0 && text[0] == '+' {
        number_written(text.skip(1))
    } else {
        number_written(text)
    }
}

/// The number of the place that a name stands for: the name starts with the
/// marker, and what is left of it without any marker is a number.
pub open spec fn spec_location_id(name: Seq<char>) -> Option<usize> {
    if marker().is_prefix_of(name) {
        number_in(without(name, marker()))
    } else {
        None
    }
}

/// The characters of a text.
fn chars_of(text: &str) -> (chars: Vec<char>)
    ensures
        chars@ == text@,
{
    let length = text.unicode_len();
    let mut chars: Vec<char> = Vec::new();
    let mut i: usize = 0;
    while i < length
        invariant
            i <= length,
            length == text@.len(),
            chars@ == text@.take(i as int),
        decreases length - i,
    {
        chars.push(text.get_char(i));
        i = i + 1;
        assert(chars@ =~= text@.take(i as int));
    }
    assert(text@.take(i as int) =~= text@);
    chars
}

/// Whether `marker` stands in `text` at `at`.
fn stands_at(text: &Vec<char>, at: usize, marker: &Vec<char>) -> (stands: bool)
    requires
        at <= text@.len(),
    ensures
        stands == marker@.is_prefix_of(text@.skip(at as int)),
{
    if marker.len() > text.len() - at {
        return false;
    }
    let mut k: usize = 0;
    while k < marker.len()
        invariant
            k <= marker@.len(),
            at <= text@.len() <= usize::MAX,
            marker@.len() <= text@.len() - at,
            forall|j: int| 0 <= j < k ==> marker@[j] == text@[at + j],
        decreases marker@.len() - k,
    {
        if marker[k] != text[at + k] {
            assert(text@.skip(at as int).subrange(0, marker@.len() as int)[k as int] != marker@[k as int]);
            return false;
        }
        k = k + 1;
    }
    assert(marker@ =~= text@.skip(at as int).subrange(0, marker@.len() as int));
    true
}

/// Takes every occurrence of `marker` out of `text`.
fn strip(text: &Vec<char>, marker: &Vec<char>) -> (rest: Vec<char>)
    requires
        marker@.len() > 0,
    ensures
        rest@ == without(text@, marker@),
{
    let mut rest: Vec<char> = Vec::new();
    let mut i: usize = 0;
    assert(text@.skip(0) =~= text@);
    assert(rest@ + without(text@, marker@) =~= without(text@, marker@));
    while i < text.len()
        invariant
            i <= text@.len(),
            marker@.len() > 0,
            rest@ + without(text@.skip(i as int), marker@) == without(text@, marker@),
        decreases text@.len() - i,
    {
        let ghost before = rest@;
        let ghost here = text@.skip(i as int);
        if stands_at(text, i, marker) {
            proof {
                assert(here.skip(marker@.len() as int) =~= text@.skip(i + marker@.len()));
            }
            i = i + marker.len();
        } else {
            rest.push(text[i]);
            proof {
                assert(here.skip(1) =~= text@.skip(i + 1));
                assert(before.push(text@[i as int]) + without(here.skip(1), marker@) =~= before + (
                seq![here[0]] + without(here.skip(1), marker@)));
            }
            i = i + 1;
        }
    }
    assert(text@.skip(i as int) =~= Seq::<char>::empty());
    assert(rest@ + Seq::<char>::empty() =~= rest@);
    rest
}

/// Digits written behind other digits make the number no smaller.
proof fn lemma_number_grows(digits: Seq<char>, n: int)
    requires
        0 <= n <= digits.len(),
        all_digits(digits),
    ensures
        0 <= number_of(digits.take(n)) <= number_of(digits),
    decreases digits.len() - n,
{
    assert forall|i: int| 0 <= i < n implies is_digit(#[trigger] digits.take(n)[i]) by {
        assert(is_digit(digits[i]));
    }
    lemma_number_is_natural(digits.take(n));
    if n == digits.len() {
        assert(digits.take(n) =~= digits);
    } else {
        lemma_number_grows(digits, n + 1);
        assert(digits.take(n + 1).drop_last() =~= digits.take(n));
        assert(is_digit(digits[n]));
    }
}

/// Digits write a number that is not negative.
proof fn lemma_number_is_natural(digits: Seq<char>)
    requires
        all_digits(digits),
    ensures
        0 <= number_of(digits),
    decreases digits.len(),
{
    if digits.len() > 0 {
        assert forall|i: int| 0 <= i < digits.len() - 1 implies is_digit(
            #[trigger] digits.drop_last()[i],
        ) by {
            assert(is_digit(digits[i]));
        }
        lemma_number_is_natural(digits.drop_last());
        assert(is_digit(digits[digits.len() - 1]));
    }
}

/// Reads the number that one or more digits write.
fn read_digits(text: &Vec<char>, start: usize) -> (number: Option<usize>)
    requires
        start <= text@.len(),
    ensures
        number == number_written(text@.skip(start as int)),
{
    let ghost digits = text@.skip(start as int);
    if start >= text.len() {
        return None;
    }
    let mut value: usize = 0;
    let mut i: usize = start;
    assert(digits.take(0) =~= Seq::<char>::empty());
    while i < text.len()
        invariant
            start <= i <= text@.len(),
            digits == text@.skip(start as int),
            all_digits(digits.take(i - start)),
            value == number_of(digits.take(i - start)),
        decreases text@.len() - i,
    {
        let c = text[i];
        assert(c == digits[i - start]);
        if c < '0' || c > '9' {
            assert(!is_digit(digits[i - start]));
            return None;
        }
        let digit = (c as u32 - '0' as u32) as usize;
        let ghost seen = digits.take(i - start + 1);
        proof {
            assert(seen.drop_last() =~= digits.take(i - start));
            assert forall|k: int| 0 <= k < seen.len() implies is_digit(#[trigger] seen[k]) by {
                if k < i - start {
                    assert(is_digit(digits.take(i - start)[k]));
                }
            }
            assert(number_of(seen) == value * 10 + digit);
        }
        let grown = match value.checked_mul(10) {
            Some(tenfold) => tenfold.checked_add(digit),
            None => None,
        };
        match grown {
            Some(next) => {
                value = next;
            },
            None => {
                proof {
                    assert(number_of(seen) > usize::MAX);
                    if all_digits(digits) {
                        lemma_number_grows(digits, i - start + 1);
                    }
                }
                return None;
            },
        }
        i = i + 1;
    }
    assert(digits.take(i - start) =~= digits);
    Some(value)
}

/// Reads the number that a text stands for.
fn read_number(text: &Vec<char>) -> (number: Option<usize>)
    ensures
        number == number_in(text@),
{
    if text.len() > 0 && text[0] == '+' {
        read_digits(text, 1)
    } else {
        assert(text@.skip(0) =~= text@);
        read_digits(text, 0)
    }
}

/// Reads the number of a place from its name. A name that is not that of a
/// place has none.
pub fn location_id(name: &str) -> (id: Option<usize>)
    ensures
        id == spec_location_id(name@),
{
    let text = chars_of(name);
    let mut sign: Vec<char> = Vec::new();
    sign.push('L');
    sign.push('o');
    sign.push('c');
    sign.push('a');
    sign.push('t');
    sign.push('i');
    sign.push('o');
    sign.push('n');
    sign.push('.');
    assert(sign@ =~= marker());
    assert(text@.skip(0) =~= text@);
    if !stands_at(&text, 0, &sign) {
        return None;
    }
    let rest = strip(&text, &sign);
    read_number(&rest)
}

} // verus!
