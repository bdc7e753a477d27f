//! Numbers whose decimal digits read the same in both directions.

use vstd::prelude::*;
use crate::Solution;

verus! {

/// The decimal digits of `n`, the most significant first, without leading
/// zeros; zero has the one digit 0.
pub open spec fn decimal_digits(n: nat) -> Seq<u8>
    decreases n,
{
    if n < 10 {
        seq![n as u8]
    } else {
        decimal_digits(n / 10).push((n % 10) as u8)
    }
}

/// The number that `digits` spell in decimal, the most significant digit
/// first.
pub open spec fn number_of(digits: Seq<u8>) -> nat
    decreases digits.len(),
{
    if digits.len() == 0 {
        0
    } else {
        number_of(digits.drop_last()) * 10 + digits.last() as nat
    }
}

/// `decimal_digits(n)` is the decimal numeral of `n`: at least one digit,
/// each of them at most 9, no leading zero but the numeral of zero itself,
/// and together they spell `n`.
pub proof fn lemma_decimal_digits_spell(n: nat)
    ensures
        decimal_digits(n).len() >= 1,
        forall|k: int| 0 <= k < decimal_digits(n).len() ==> decimal_digits(n)[k] <= 9,
        n > 0 ==> decimal_digits(n)[0] != 0,
        number_of(decimal_digits(n)) == n,
    decreases n,
{
    if n < 10 {
        assert(decimal_digits(n).drop_last() =~= Seq::empty());
        assert(number_of(Seq::<u8>::empty()) == 0);
    } else {
        let higher = decimal_digits(n / 10);
        lemma_decimal_digits_spell(n / 10);
        assert(decimal_digits(n).drop_last() =~= higher);
    }
}

/// `x` is not negative, and its decimal digits are their own reverse.
pub open spec fn is_palindrome_number(x: int) -> bool {
    x >= 0 && decimal_digits(x as nat) == decimal_digits(x as nat).reverse()
}

/// `items` in the opposite order.
pub fn reversed(items: &Vec<u8>) -> (turned: Vec<u8>)
    ensures
        turned@ == items@.reverse(),
{
    let mut turned: Vec<u8> = Vec::new();
    let mut left: usize = items.len();
    while left > 0
        invariant
            left <= items@.len(),
            turned@.len() == items@.len() - left,
            forall|k: int| 0 <= k < turned@.len() ==> turned@[k] == items@[items@.len() - 1 - k],
        decreases left,
    {
        left -= 1;
        turned.push(items[left]);
    }
    turned
}

/// The decimal digits of `n`, the most significant first.
pub fn digits_of(n: u32) -> (digits: Vec<u8>)
    ensures
        digits@ == decimal_digits(n as nat),
{
    let mut low_first: Vec<u8> = Vec::new();
    let mut rest: u32 = n;
    while rest >= 10
        invariant
            decimal_digits(n as nat) == decimal_digits(rest as nat) + low_first@.reverse(),
        decreases rest,
    {
        let digit: u8 = (rest % 10) as u8;
        proof {
            let higher = decimal_digits((rest / 10) as nat);
            assert(low_first@.push(digit).reverse() =~= seq![digit] + low_first@.reverse());
            assert(higher.push(digit) + low_first@.reverse() =~= higher + (seq![digit]
                + low_first@.reverse()));
        }
        low_first.push(digit);
        rest = rest / 10;
    }
    let digit: u8 = rest as u8;
    proof {
        assert(low_first@.push(digit).reverse() =~= seq![digit] + low_first@.reverse());
    }
    low_first.push(digit);
    reversed(&low_first)
}

impl Solution {
    /// Whether `x`, written in decimal, reads the same in both directions.
    /// No negative number does.
    pub fn is_palindrome(x: i32) -> (yes: bool)
        ensures
            yes == is_palindrome_number(x as int),
    {
        if x < 0 {
            return false;
        }
        let digits = digits_of(x as u32);
        let turned = reversed(&digits);
        let same = digits == turned;
        assert(same == (digits@ =~= turned@));
        same
    }
}

} // verus!
