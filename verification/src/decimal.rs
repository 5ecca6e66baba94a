//! Numbers in decimal notation.

use crate::text::push_char;
use vstd::prelude::*;

verus! {

/// The character that writes the digit `d`.
pub open spec fn digit_char(d: nat) -> char {
    (0x30 + d) as char
}

/// The decimal notation of `n`, without leading zeros.
pub open spec fn decimal(n: nat) -> Seq<char>
    decreases n,
{
    if n < 10 {
        seq![digit_char(n)]
    } else {
        decimal(n / 10).push(digit_char(n % 10))
    }
}

/// Writes the decimal notation of `n` behind `text`.
pub fn push_decimal(text: &mut String, n: usize)
    ensures
        final(text)@ == old(text)@ + decimal(n as nat),
{
    let mut digits: Vec<u8> = Vec::new();
    let mut rest: usize = n;
    while rest >= 10
        invariant
            forall|i: int| 0 <= i < digits@.len() ==> digits@[i] < 10,
            decimal(n as nat) =~= decimal(rest as nat) + reversed_digits(digits@),
        decreases rest,
    {
        proof {
            lemma_reversed_digits_push(digits@, (rest % 10) as u8);
        }
        digits.push((rest % 10) as u8);
        rest = rest / 10;
    }
    let ghost start = text@;
    push_char(text, digit_of(rest as u8));
    let mut i: usize = digits.len();
    while i > 0
        invariant
            i <= digits@.len(),
            forall|j: int| 0 <= j < digits@.len() ==> digits@[j] < 10,
            text@ =~= start + decimal(rest as nat) + reversed_digits(
                digits@.subrange(i as int, digits@.len() as int),
            ),
        decreases i,
    {
        i = i - 1;
        proof {
            let tail = digits@.subrange(i as int, digits@.len() as int);
            assert(tail.drop_first() =~= digits@.subrange(i + 1, digits@.len() as int));
        }
        push_char(text, digit_of(digits[i]));
    }
    proof {
        assert(digits@.subrange(0, digits@.len() as int) =~= digits@);
    }
}

/// The characters of a run of digits that was collected lowest digit
/// first.
spec fn reversed_digits(digits: Seq<u8>) -> Seq<char>
    decreases digits.len(),
{
    if digits.len() == 0 {
        Seq::empty()
    } else {
        reversed_digits(digits.drop_first()).push(digit_char(digits[0] as nat))
    }
}

/// A digit collected last is written first.
proof fn lemma_reversed_digits_push(digits: Seq<u8>, d: u8)
    ensures
        reversed_digits(digits.push(d)) == seq![digit_char(d as nat)] + reversed_digits(digits),
    decreases digits.len(),
{
    let more = digits.push(d);
    if digits.len() == 0 {
        assert(more.drop_first() =~= Seq::<u8>::empty());
        assert(more[0] == d);
        assert(reversed_digits(more) == reversed_digits(more.drop_first()).push(
            digit_char(d as nat),
        ));
        assert(reversed_digits(more) =~= seq![digit_char(d as nat)] + reversed_digits(digits));
    } else {
        assert(more.drop_first() =~= digits.drop_first().push(d));
        lemma_reversed_digits_push(digits.drop_first(), d);
    }
}

/// The character that writes the digit `d`.
fn digit_of(d: u8) -> (c: char)
    requires
        d < 10,
    ensures
        c == digit_char(d as nat),
{
    (0x30 + d) as char
}

} // verus!
