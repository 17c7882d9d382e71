//! Text primitives shared by the template formatter and the flag parser:
//! decimal rendering of ratings and single-pass reading up to a delimiter.

use vstd::prelude::*;
use vstd::std_specs::iter::IteratorSpec;

verus! {

/// `String::push` appends exactly one character and leaves the rest of the
/// string as it was.
pub assume_specification[ String::push ](s: &mut String, ch: char)
    ensures
        final(s)@ == old(s)@.push(ch),
;

/// The character that writes the decimal digit `d`: the digits follow one
/// another from `0`, whose code is 48.
pub open spec fn digit_char(d: nat) -> char
    recommends
        d < 10,
{
    ((48 + d) as u8) as char
}

/// The decimal numeral of `n`, without sign or leading zeros.
pub open spec fn decimal(n: nat) -> Seq<char>
    decreases n,
{
    if n < 10 {
        seq![digit_char(n)]
    } else {
        decimal(n / 10).push(digit_char(n % 10))
    }
}

/// Appends the decimal numeral of `n` to `out`.
pub fn push_decimal(out: &mut String, n: u32)
    ensures
        final(out)@ == old(out)@ + decimal(n as nat),
    decreases n,
{
    if n >= 10 {
        push_decimal(out, n / 10);
    }
    let digit: u8 = (n % 10) as u8;
    out.push((48u8 + digit) as char);
}

/// The decimal numeral of `n` as an owned string.
pub fn decimal_string(n: u32) -> (s: String)
    ensures
        s@ == decimal(n as nat),
{
    let mut s = String::new();
    push_decimal(&mut s, n);
    s
}

/// The number that a sequence of decimal digits writes.
pub open spec fn decimal_value(digits: Seq<char>) -> nat
    decreases digits.len(),
{
    if digits.len() == 0 {
        0
    } else {
        (10 * decimal_value(digits.drop_last()) + (digits.last() as nat - 48)) as nat
    }
}

/// A decimal numeral is one or more of the digits `0` to `9`, starts with
/// `0` only where it writes zero, and writes the number it was made from.
pub proof fn lemma_decimal_numeral(n: nat)
    ensures
        decimal(n).len() >= 1,
        forall|i: int| 0 <= i < decimal(n).len() ==> '0' <= #[trigger] decimal(n)[i] <= '9',
        n > 0 ==> decimal(n)[0] != '0',
        decimal_value(decimal(n)) == n,
    decreases n,
{
    if n < 10 {
        assert(decimal(n).drop_last() =~= Seq::<char>::empty());
        assert(decimal_value(decimal(n)) == n) by {
            reveal_with_fuel(decimal_value, 2);
        }
    } else {
        lemma_decimal_numeral(n / 10);
        assert(decimal(n).drop_last() =~= decimal(n / 10));
        assert(decimal(n)[0] == decimal(n / 10)[0]);
    }
}

/// Whether `c` first occurs in `s` at index `i`.
pub open spec fn first_at(s: Seq<char>, c: char, i: int) -> bool {
    &&& 0 <= i < s.len()
    &&& s[i] == c
    &&& forall|j: int| 0 <= j < i ==> s[j] != c
}

/// The first occurrence of a character, where there is one, is where
/// `index_of_first` says; where there is none, `index_of_first` is `None`.
pub proof fn lemma_first_index(s: Seq<char>, c: char)
    ensures
        forall|i: int| first_at(s, c, i) ==> s.index_of_first(c) == Some(i),
        !s.contains(c) ==> s.index_of_first(c) is None,
        s.index_of_first(c) matches Some(i) ==> first_at(s, c, i),
{
    s.index_of_first_ensures(c);
    assert forall|i: int| first_at(s, c, i) implies s.index_of_first(c) == Some(i) by {
        assert(s.contains(c));
        let k = s.index_of_first(c)->0;
        if k < i {
            assert(s[k] != c);
        } else if i < k {
            assert(s[i] != c);
        }
    }
}

/// Reads characters from `input` up to and including the first `stop`, or
/// to the end of the input where there is no `stop`. Returns what was read
/// before the `stop`, and whether there was one.
///
/// The input must be one that ends and keeps to the iterator laws, as
/// `str::chars` does.
pub fn read_until<T>(input: &mut T, stop: char) -> (res: (String, bool)) where
    T: Iterator<Item = char>,

    requires
        (*old(input)).obeys_prophetic_iter_laws(),
        (*old(input)).decrease() is Some,
    ensures
        (*final(input)).obeys_prophetic_iter_laws(),
        (*final(input)).decrease() is Some,
        ({
            let all = (*old(input)).remaining();
            let text = res.0@;
            if res.1 {
                &&& first_at(all, stop, text.len() as int)
                &&& text == all.take(text.len() as int)
                &&& (*final(input)).remaining() == all.skip(text.len() as int + 1)
                &&& (*final(input)).decrease()->0 < (*old(input)).decrease()->0
            } else {
                &&& !all.contains(stop)
                &&& text == all
                &&& (*final(input)).remaining() == Seq::<char>::empty()
            }
        }),
{
    let mut text = String::new();
    let ghost all = (*input).remaining();
    loop
        invariant
            all == (*old(input)).remaining(),
            (*input).decrease()->0 <= (*old(input)).decrease()->0,
            (*input).obeys_prophetic_iter_laws(),
            (*input).decrease() is Some,
            text@.len() <= all.len(),
            text@ == all.take(text@.len() as int),
            (*input).remaining() == all.skip(text@.len() as int),
            forall|j: int| 0 <= j < text@.len() ==> all[j] != stop,
        decreases (*input).decrease()->0,
    {
        match input.next() {
            None => {
                return (text, false);
            },
            Some(c) => {
                if c == stop {
                    return (text, true);
                }
                text.push(c);
            },
        }
    }
}

/// Whether two strings hold the same characters.
pub fn same_text(a: &str, b: &str) -> (same: bool)
    ensures
        same == (a@ == b@),
{
    let mut left = a.chars();
    let mut right = b.chars();
    let ghost mut seen: int = 0;
    loop
        invariant
            0 <= seen <= a@.len(),
            seen <= b@.len(),
            left.remaining() == a@.skip(seen),
            right.remaining() == b@.skip(seen),
            a@.take(seen) == b@.take(seen),
            left.decrease() is Some,
        decreases left.decrease()->0,
    {
        match (left.next(), right.next()) {
            (None, None) => {
                assert(a@.take(seen) =~= a@ && b@.take(seen) =~= b@);
                return true;
            },
            (Some(x), Some(y)) => {
                if x != y {
                    return false;
                }
                proof {
                    seen = seen + 1;
                }
            },
            _ => {
                return false;
            },
        }
    }
}

} // verus!
