pub mod editor;
pub mod highlight;
pub mod escape;
pub mod event;
pub mod input;
pub mod size;
pub mod text;

use vstd::prelude::*;

verus! {

/// Number of decimal digits in `n`, matching the decimal rendering below.
pub open spec fn spec_digits(n: nat) -> nat
    decreases n,
{
    if n < 10 {
        1
    } else {
        1 + spec_digits(n / 10)
    }
}

/// The digit count is positive and far below the number itself.
pub proof fn lemma_digits_bound(n: nat)
    ensures
        1 <= spec_digits(n),
        n >= 1 ==> spec_digits(n) <= n,
        n >= 10 ==> spec_digits(n) < n,
    decreases n,
{
    if n >= 10 {
        lemma_digits_bound(n / 10);
    }
}

/// Count of decimal digits of `number` (1 for 0).
pub fn digits(number: usize) -> (d: usize)
    ensures
        d == spec_digits(number as nat),
{
    let mut n: usize = number;
    let mut d: usize = 1;
    while n >= 10
        invariant
            d >= 1,
            n <= number,
            d + spec_digits(n as nat) == 1 + spec_digits(number as nat),
        decreases n,
    {
        proof {
            lemma_digits_bound(n as nat);
            lemma_digits_bound(number as nat);
            assert(spec_digits(n as nat) == 1 + spec_digits(n as nat / 10));
        }
        n = n / 10;
        d = d + 1;
    }
    d
}

} // verus!
