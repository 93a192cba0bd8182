//! Bit parity: whether the population count (number of set bits) of a value's
//! binary representation is even or odd.

use vstd::prelude::*;

verus! {

/// The target bit parity of an assignment run: a value satisfies it when its
/// population count is even (`Even`) or odd (`Odd`).
#[derive(Copy, Clone, Debug, PartialEq, Eq, Structural)]
pub enum Parity {
    Even,
    Odd,
}

/// The number of set bits in the binary representation of `n`.
pub open spec fn popcount(n: nat) -> nat
    decreases n,
{
    if n == 0 {
        0
    } else {
        popcount(n / 2) + n % 2
    }
}

/// `n`'s population count is even.
pub open spec fn has_even_popcount(n: nat) -> bool {
    popcount(n) % 2 == 0
}

/// The bit pattern `n` satisfies the target parity `p`.
pub open spec fn matches_parity(n: nat, p: Parity) -> bool {
    has_even_popcount(n) == (p == Parity::Even)
}

/// The population count of a value never exceeds the value itself.
pub proof fn lemma_popcount_le_self(n: nat)
    ensures
        popcount(n) <= n,
    decreases n,
{
    if n > 0 {
        lemma_popcount_le_self(n / 2);
    }
}

/// Computes the bit parity of the raw pattern `v`: `true` iff the number of
/// set bits is even.
pub fn has_even_parity(v: u128) -> (r: bool)
    ensures
        r == has_even_popcount(v as nat),
{
    let mut x: u128 = v;
    let mut count: u128 = 0;
    proof {
        lemma_popcount_le_self(v as nat);
    }
    while x > 0
        invariant
            count + popcount(x as nat) == popcount(v as nat),
            popcount(v as nat) <= u128::MAX,
        decreases x,
    {
        count = count + x % 2;
        x = x / 2;
    }
    count % 2 == 0
}

} // verus!
