//! Small formatting helpers for the line-number gutter.

use vstd::prelude::*;

verus! {

/// Number of decimal digits of `n`.
pub open spec fn spec_number_digits(n: nat) -> nat
    decreases n,
{
    if n < 10 {
        1
    } else {
        1 + spec_number_digits(n / 10)
    }
}

/// A number never has more digits than its own value (for positive numbers).
proof fn lemma_number_digits_le(n: nat)
    requires
        n >= 1,
    ensures
        spec_number_digits(n) <= n,
    decreases n,
{
    if n >= 10 {
        lemma_number_digits_le(n / 10);
    }
}

/// Returns the number of digits in a number, in order to compute the char
/// width needed to display it.
pub fn number_digits(n: usize) -> (r: usize)
    ensures
        r == spec_number_digits(n as nat),
{
    let mut digits: usize = 1;
    let mut rest: usize = n;
    while rest >= 10
        invariant
            rest <= n,
            digits >= 1,
            digits + spec_number_digits(rest as nat) == 1 + spec_number_digits(n as nat),
        decreases rest,
    {
        proof {
            lemma_number_digits_le(n as nat);
            assert(spec_number_digits(rest as nat) == 1 + spec_number_digits(
                (rest / 10) as nat,
            ));
            assert(spec_number_digits((rest / 10) as nat) >= 1);
        }
        rest = rest / 10;
        digits = digits + 1;
    }
    digits
}

/// Returns a whitespace string such that when printed along with `n` it
/// occupies at least `width` chars.
pub fn whitespace_padding(n: usize, width: usize) -> (r: String)
    ensures
        r@.len() == if spec_number_digits(n as nat) <= width {
            width - spec_number_digits(n as nat)
        } else {
            0
        },
        forall|i: int| 0 <= i < r@.len() ==> r@[i] == ' ',
{
    let digits = number_digits(n);
    let remaining = if digits <= width {
        width - digits
    } else {
        0
    };
    let mut pad = String::new();
    let mut i: usize = 0;
    proof {
        reveal_strlit(" ");
    }
    while i < remaining
        invariant
            i <= remaining,
            pad@.len() == i,
            forall|j: int| 0 <= j < pad@.len() ==> pad@[j] == ' ',
            " "@ == seq![' '],
        decreases remaining - i,
    {
        pad.append(" ");
        i = i + 1;
    }
    pad
}

} // verus!
