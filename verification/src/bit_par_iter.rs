//! The parity sequence generator: a lazily advancing, strictly increasing
//! sequence of raw bit patterns within an [`IntegerDomain`], each with the
//! target bit parity.

use vstd::prelude::*;

use crate::domain::first_value;
use crate::domain::IntegerDomain;
use crate::domain::IntegerParity;
use crate::parity::has_even_popcount;

verus! {

/// The abstract state of a [`BitParityIter`]: the last produced (or resumed
/// past) value, the target parity, and the largest pattern of the domain.
pub ghost struct GenState {
    pub prev: Option<u128>,
    pub is_even: bool,
    pub max: u128,
}

/// The generator's cursor as an integer: `-1` before the first value.
pub open spec fn cursor_of(prev: Option<u128>) -> int {
    match prev {
        None => -1,
        Some(p) => p as int,
    }
}

/// The smallest value `v` with `cur < v <= max` whose population count
/// matches the target parity, if any.
pub open spec fn next_qualifying(cur: int, is_even: bool, max: int) -> Option<int>
    decreases max - cur,
{
    if cur >= max {
        None
    } else if has_even_popcount((cur + 1) as nat) == is_even {
        Some(cur + 1)
    } else {
        next_qualifying(cur + 1, is_even, max)
    }
}

/// What the next call of [`BitParityIter::next`] returns in state `g`:
/// the smallest qualifying value strictly above the cursor, or nothing once
/// the domain is exhausted.
pub open spec fn gen_next(g: GenState) -> Option<int> {
    next_qualifying(cursor_of(g.prev), g.is_even, g.max as int)
}

/// `next_qualifying` returns exactly the least qualifying value above `cur`:
/// the result is in range, has the target parity, and no value strictly
/// between `cur` and it qualifies; `None` means nothing up to `max`
/// qualifies.
pub proof fn lemma_next_qualifying(cur: int, is_even: bool, max: int)
    ensures
        match next_qualifying(cur, is_even, max) {
            Some(v) => cur < v <= max && has_even_popcount(v as nat) == is_even && forall|w: int|
                cur < w < v ==> #[trigger] has_even_popcount(w as nat) != is_even,
            None => forall|w: int|
                cur < w <= max ==> #[trigger] has_even_popcount(w as nat) != is_even,
        },
    decreases max - cur,
{
    if cur >= max {
    } else if has_even_popcount((cur + 1) as nat) == is_even {
    } else {
        lemma_next_qualifying(cur + 1, is_even, max);
        assert forall|w: int| cur < w <= max implies match next_qualifying(
            cur,
            is_even,
            max,
        ) {
            Some(v) => w < v ==> #[trigger] has_even_popcount(w as nat) != is_even,
            None => has_even_popcount(w as nat) != is_even,
        } by {
            if w == cur + 1 {
            }
        }
    }
}

/// Law: for successive outputs `a`, `b` of the generator with no intervening
/// resume — `a` was produced, so the state's cursor is `Some(a)`, and the
/// next call yields `b` — the sequence strictly increases, stays within the
/// domain, and skips no value of the target parity: nothing strictly between
/// `a` and `b` qualifies.
pub proof fn lemma_generator_monotonic(g: GenState, a: u128, b: u128)
    requires
        g.prev == Some(a),
        gen_next(g) == Some(b as int),
    ensures
        a < b <= g.max,
        has_even_popcount(b as nat) == g.is_even,
        forall|w: int| a < w < b ==> #[trigger] has_even_popcount(w as nat) != g.is_even,
{
    lemma_next_qualifying(a as int, g.is_even, g.max as int);
}

/// Produces the strictly increasing sequence of values of a fixed domain
/// whose bit parity matches the target, by minimal steps; the sequence stays
/// exhausted once no further value fits the domain.
pub struct BitParityIter {
    /// the domain whose raw patterns are enumerated
    domain: IntegerDomain,
    /// the previous value
    ///
    /// `None` if this is the first iteration, `Some` otherwise
    prev_val: Option<u128>,
    /// `true` if there should be an even number of ones, `false` otherwise
    is_even_parity: bool,
}

impl View for BitParityIter {
    type V = GenState;

    closed spec fn view(&self) -> GenState {
        GenState { prev: self.prev_val, is_even: self.is_even_parity, max: self.domain.max_raw() }
    }
}

impl BitParityIter {
    /// The cursor never passes the end of the domain.
    pub closed spec fn wf(&self) -> bool {
        &&& self.domain.wf()
        &&& match self.prev_val {
            Some(p) => p <= self.domain.max_raw(),
            None => true,
        }
    }

    /// A well-formed generator's cursor never lies beyond the domain.
    pub proof fn cursor_in_range(&self)
        requires
            self.wf(),
        ensures
            -1 <= cursor_of(self@.prev) <= self@.max,
    {
    }

    /// Starts the sequence at its unstarted state: the first call of `next`
    /// yields the domain's first value of the target parity.
    pub fn new(domain: IntegerDomain, is_even: bool) -> (r: BitParityIter)
        requires
            domain.wf(),
        ensures
            r.wf(),
            r@ == (GenState { prev: None, is_even, max: domain.max_raw() }),
    {
        BitParityIter { domain, prev_val: None, is_even_parity: is_even }
    }

    /// Yields the next value of the sequence: the smallest pattern of the
    /// target parity strictly above the cursor, or `None` once the domain
    /// holds no further such pattern.
    pub fn next(&mut self) -> (r: Option<u128>)
        requires
            old(self).wf(),
        ensures
            final(self).wf(),
            final(self)@.is_even == old(self)@.is_even,
            final(self)@.max == old(self)@.max,
            match r {
                Some(v) => gen_next(old(self)@) == Some(v as int) && final(self)@.prev == Some(v),
                None => gen_next(old(self)@) == None::<int> && final(self)@.prev == old(
                    self,
                )@.prev,
            },
    {
        let mut cur: u128 = match self.prev_val {
            Some(p) => p,
            None => {
                let f = self.domain.first(self.is_even_parity);
                proof {
                    reveal_with_fuel(next_qualifying, 3);
                    assert(has_even_popcount(0nat));
                    assert(crate::parity::popcount(1nat) == 1) by {
                        reveal_with_fuel(crate::parity::popcount, 2);
                    }
                    assert(next_qualifying(-1, self.is_even_parity, self@.max as int) == Some(
                        f as int,
                    ));
                }
                self.prev_val = Some(f);
                return Some(f);
            },
        };
        loop
            invariant
                self.wf(),
                self == old(self),
                cur <= self.domain.max_raw(),
                next_qualifying(cursor_of(self.prev_val), self.is_even_parity, self@.max as int)
                    == next_qualifying(cur as int, self.is_even_parity, self@.max as int),
            decreases self.domain.max_raw() - cur,
        {
            match self.domain.checked_increment(cur) {
                None => {
                    return None;
                },
                Some(n) => {
                    if self.domain.has_even_parity(n) == self.is_even_parity {
                        self.prev_val = Some(n);
                        return Some(n);
                    }
                    cur = n;
                },
            }
        }
    }

    /// Sets the cursor to an externally claimed value without emitting it:
    /// the next value of the sequence falls strictly after `v`.
    pub fn resume_after(&mut self, v: u128)
        requires
            old(self).wf(),
            v <= old(self)@.max,
        ensures
            final(self).wf(),
            final(self)@ == (GenState {
                prev: Some(v),
                is_even: old(self)@.is_even,
                max: old(self)@.max,
            }),
    {
        self.prev_val = Some(v);
    }
}

} // verus!
