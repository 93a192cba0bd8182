//! The discriminant resolution engine: walks an ordered variant list once,
//! validates and registers explicit values, and assigns every remaining
//! variant the next still-free value of the target parity.

use vstd::prelude::*;

use crate::bit_par_iter::cursor_of;
use crate::bit_par_iter::next_qualifying;
use crate::bit_par_iter::BitParityIter;
use crate::domain::IntegerDomain;
use crate::parity::has_even_popcount;
use crate::parity::matches_parity;
use crate::parity::Parity;

verus! {

/// The explicit discriminant carried by a variant, as handed to the engine.
#[derive(Copy, Clone, Debug, PartialEq, Eq, Structural)]
pub enum ExplicitValue {
    /// An integer literal, as the raw bit pattern of the chosen domain.
    Literal(u128),
    /// A symbolic or computed expression that is not an integer literal; the
    /// engine rejects it as malformed.
    Opaque,
}

/// An ordered element of the input list: a label used only for error
/// attribution, and an optional explicit value.
#[derive(Debug)]
pub struct Variant {
    pub label: String,
    pub explicit: Option<ExplicitValue>,
}

/// One line of a successful resolution: the variant's label and its assigned
/// raw value.
#[derive(Debug, PartialEq, Eq)]
pub struct Assignment {
    pub label: String,
    pub value: u128,
}

/// Why a resolution failed. Variants are attributed by their position in the
/// input list.
#[derive(Copy, Clone, Debug, PartialEq, Eq, Structural)]
pub enum ResolutionError {
    /// An explicit value's population count does not match the requested
    /// parity, and overrides are disallowed.
    ParityViolation { index: usize, value: u128, required: Parity },
    /// Two variants resolve to the same value; `first_index` claimed it
    /// first.
    ValueCollision { first_index: usize, second_index: usize, value: u128 },
    /// No further value of the domain satisfies the target parity.
    DomainExhausted { index: usize, domain: IntegerDomain, parity: Parity },
    /// An explicit value is not an integer literal of the configured domain.
    MalformedExplicitValue { index: usize },
}

/// The values assigned so far, in input order.
pub open spec fn values_of(out: Seq<Assignment>) -> Seq<u128> {
    out.map_values(|a: Assignment| a.value)
}

/// Some already-assigned value equals `v`. The assignments made so far double
/// as the set of claimed values, used for collision detection against both
/// other explicit values and future auto-generated values.
pub open spec fn claimed(out: Seq<u128>, v: u128) -> bool {
    exists|j: int| 0 <= j < out.len() && out[j] == v
}

/// The position of the first value equal to `v` at or after `k`, if any.
pub open spec fn find_claimant(out: Seq<u128>, v: u128, k: int) -> Option<int>
    decreases out.len() - k,
{
    if k < 0 || k >= out.len() {
        None
    } else if out[k] == v {
        Some(k)
    } else {
        find_claimant(out, v, k + 1)
    }
}

/// `find_claimant` returns exactly the first claimant at or after `k`.
pub proof fn lemma_find_claimant(out: Seq<u128>, v: u128, k: int)
    requires
        0 <= k <= out.len(),
    ensures
        match find_claimant(out, v, k) {
            Some(j) => k <= j < out.len() && out[j] == v && forall|l: int|
                k <= l < j ==> out[l] != v,
            None => forall|l: int| k <= l < out.len() ==> out[l] != v,
        },
    decreases out.len() - k,
{
    if k < out.len() && out[k] != v {
        lemma_find_claimant(out, v, k + 1);
    }
}

/// The smallest value above `cur` that the generator would hand out and that
/// no variant has claimed: it lies in `(cur, max]`, matches the target
/// parity, and is not in `out`.
pub open spec fn next_free(cur: int, is_even: bool, max: int, out: Seq<u128>) -> Option<int>
    decreases max - cur,
{
    if cur >= max {
        None
    } else if has_even_popcount((cur + 1) as nat) == is_even && !claimed(out, (cur + 1) as u128) {
        Some(cur + 1)
    } else {
        next_free(cur + 1, is_even, max, out)
    }
}

/// What `next_free` returns is in range, of the target parity, and unclaimed.
pub proof fn lemma_next_free_props(cur: int, is_even: bool, max: int, out: Seq<u128>)
    ensures
        match next_free(cur, is_even, max, out) {
            Some(v) => cur < v <= max && has_even_popcount(v as nat) == is_even && !claimed(
                out,
                v as u128,
            ),
            None => true,
        },
    decreases max - cur,
{
    if cur < max && !(has_even_popcount((cur + 1) as nat) == is_even && !claimed(
        out,
        (cur + 1) as u128,
    )) {
        lemma_next_free_props(cur + 1, is_even, max, out);
    }
}

/// An exhausted parity sequence stays exhausted when values are claimed.
pub proof fn lemma_next_free_of_exhausted(cur: int, is_even: bool, max: int, out: Seq<u128>)
    requires
        next_qualifying(cur, is_even, max) == None::<int>,
    ensures
        next_free(cur, is_even, max, out) == None::<int>,
    decreases max - cur,
{
    if cur < max {
        lemma_next_free_of_exhausted(cur + 1, is_even, max, out);
    }
}

/// A generated value that nobody claimed is the next free value.
pub proof fn lemma_next_free_of_unclaimed(cur: int, is_even: bool, max: int, out: Seq<u128>, v: int)
    requires
        next_qualifying(cur, is_even, max) == Some(v),
        !claimed(out, v as u128),
    ensures
        next_free(cur, is_even, max, out) == Some(v),
    decreases max - cur,
{
    if cur < max && !(has_even_popcount((cur + 1) as nat) == is_even) {
        lemma_next_free_of_unclaimed(cur + 1, is_even, max, out, v);
    }
}

/// Skipping a generated but claimed value does not change the next free
/// value.
pub proof fn lemma_next_free_skip_claimed(cur: int, is_even: bool, max: int, out: Seq<u128>, v: int)
    requires
        next_qualifying(cur, is_even, max) == Some(v),
        claimed(out, v as u128),
    ensures
        next_free(cur, is_even, max, out) == next_free(v, is_even, max, out),
    decreases max - cur,
{
    if cur < max && !(has_even_popcount((cur + 1) as nat) == is_even) {
        lemma_next_free_skip_claimed(cur + 1, is_even, max, out, v);
    }
}

/// The whole resolution, one variant at a time, from variant `i` on:
/// `cur` is the generator's cursor and `out` the values assigned so far.
///
/// An explicit value must be a literal within the domain, must match the
/// target parity unless overrides are allowed, and must be unclaimed; once
/// accepted it becomes the generator's new baseline. A variant without an
/// explicit value receives the next free value of the target parity, or
/// fails when the domain holds none.
pub open spec fn resolve_from(
    vs: Seq<Variant>,
    i: int,
    cur: int,
    out: Seq<u128>,
    domain: IntegerDomain,
    parity: Parity,
    allow: bool,
) -> Result<Seq<u128>, ResolutionError>
    decreases vs.len() - i,
{
    if i < 0 || i >= vs.len() {
        Ok(out)
    } else {
        match vs[i].explicit {
            Some(ExplicitValue::Opaque) => Err(
                ResolutionError::MalformedExplicitValue { index: i as usize },
            ),
            Some(ExplicitValue::Literal(v)) => {
                if v > domain.max_raw() {
                    Err(ResolutionError::MalformedExplicitValue { index: i as usize })
                } else if !matches_parity(v as nat, parity) && !allow {
                    Err(
                        ResolutionError::ParityViolation {
                            index: i as usize,
                            value: v,
                            required: parity,
                        },
                    )
                } else {
                    match find_claimant(out, v, 0) {
                        Some(j) => Err(
                            ResolutionError::ValueCollision {
                                first_index: j as usize,
                                second_index: i as usize,
                                value: v,
                            },
                        ),
                        None => resolve_from(vs, i + 1, v as int, out.push(v), domain, parity, allow),
                    }
                }
            },
            None => {
                match next_free(cur, parity == Parity::Even, domain.max_raw() as int, out) {
                    None => Err(
                        ResolutionError::DomainExhausted { index: i as usize, domain, parity },
                    ),
                    Some(v) => resolve_from(
                        vs,
                        i + 1,
                        v,
                        out.push(v as u128),
                        domain,
                        parity,
                        allow,
                    ),
                }
            },
        }
    }
}

/// What resolution returns: the values of a complete run from the unstarted
/// generator state and an empty claimed set.
pub open spec fn spec_resolve(
    vs: Seq<Variant>,
    domain: IntegerDomain,
    parity: Parity,
    allow: bool,
) -> Result<Seq<u128>, ResolutionError> {
    resolve_from(vs, 0, -1, Seq::<u128>::empty(), domain, parity, allow)
}

/// A successful result carries one line per variant, in input order, with
/// the variant's own label and exactly the values of `spec_resolve`.
pub open spec fn resolve_matches(
    vs: Seq<Variant>,
    domain: IntegerDomain,
    parity: Parity,
    allow: bool,
    out: Seq<Assignment>,
) -> bool {
    &&& spec_resolve(vs, domain, parity, allow) == Ok::<Seq<u128>, ResolutionError>(values_of(out))
    &&& out.len() == vs.len()
    &&& forall|k: int| 0 <= k < vs.len() ==> #[trigger] out[k].label@ == vs[k].label@
}

/// Variant `j`'s value in a successful result conforms to the rules: a
/// variant without an explicit value received a value of the target parity;
/// an explicit literal was taken verbatim and either has the target parity
/// or was accepted under the override policy; a malformed explicit value
/// never appears in a successful result.
pub open spec fn assigned_conforms(
    vs: Seq<Variant>,
    vals: Seq<u128>,
    j: int,
    parity: Parity,
    allow: bool,
) -> bool {
    match vs[j].explicit {
        None => matches_parity(vals[j] as nat, parity),
        Some(ExplicitValue::Literal(x)) => vals[j] == x && (matches_parity(x as nat, parity)
            || allow),
        Some(ExplicitValue::Opaque) => false,
    }
}

/// The induction behind [`lemma_resolve_ok_invariants`]: a run that starts
/// from a claimed set of pairwise distinct in-domain values ends in one.
proof fn lemma_resolve_from_ok(
    vs: Seq<Variant>,
    i: int,
    cur: int,
    out: Seq<u128>,
    domain: IntegerDomain,
    parity: Parity,
    allow: bool,
)
    requires
        0 <= i <= vs.len(),
        out.len() == i,
        -1 <= cur <= domain.max_raw(),
        forall|j: int| 0 <= j < out.len() ==> #[trigger] out[j] <= domain.max_raw(),
        forall|j1: int, j2: int| 0 <= j1 < j2 < out.len() ==> out[j1] != out[j2],
    ensures
        match resolve_from(vs, i, cur, out, domain, parity, allow) {
            Ok(vals) => {
                &&& vals.len() == vs.len()
                &&& vals.subrange(0, i) == out
                &&& forall|j: int| 0 <= j < vals.len() ==> #[trigger] vals[j] <= domain.max_raw()
                &&& forall|j1: int, j2: int| 0 <= j1 < j2 < vals.len() ==> vals[j1] != vals[j2]
                &&& forall|j: int|
                    i <= j < vs.len() ==> #[trigger] assigned_conforms(vs, vals, j, parity, allow)
            },
            Err(_) => true,
        },
    decreases vs.len() - i,
{
    if i >= vs.len() {
        assert(out.subrange(0, i) =~= out);
    } else {
        match vs[i].explicit {
            Some(ExplicitValue::Opaque) => {},
            Some(ExplicitValue::Literal(x)) => {
                if x <= domain.max_raw() && (matches_parity(x as nat, parity) || allow) {
                    match find_claimant(out, x, 0) {
                        Some(_) => {},
                        None => {
                            lemma_find_claimant(out, x, 0);
                            lemma_resolve_from_ok(
                                vs,
                                i + 1,
                                x as int,
                                out.push(x),
                                domain,
                                parity,
                                allow,
                            );
                            if let Ok(vals) = resolve_from(vs, i, cur, out, domain, parity, allow) {
                                assert(vals.subrange(0, i + 1) == out.push(x));
                                assert(vals[i] == vals.subrange(0, i + 1)[i]);
                                assert(vals.subrange(0, i) =~= out);
                                assert(assigned_conforms(vs, vals, i, parity, allow));
                            }
                        },
                    }
                }
            },
            None => {
                lemma_next_free_props(cur, parity == Parity::Even, domain.max_raw() as int, out);
                match next_free(cur, parity == Parity::Even, domain.max_raw() as int, out) {
                    None => {},
                    Some(v) => {
                        lemma_resolve_from_ok(
                            vs,
                            i + 1,
                            v,
                            out.push(v as u128),
                            domain,
                            parity,
                            allow,
                        );
                        if let Ok(vals) = resolve_from(vs, i, cur, out, domain, parity, allow) {
                            assert(vals.subrange(0, i + 1) == out.push(v as u128));
                            assert(vals[i] == vals.subrange(0, i + 1)[i]);
                            assert(vals.subrange(0, i) =~= out);
                            assert(assigned_conforms(vs, vals, i, parity, allow));
                        }
                    },
                }
            },
        }
    }
}

/// Law: a successful resolution assigns one value per variant; the values
/// are pairwise distinct and lie within the domain; and every single value
/// conforms to the parity and override rules (see [`assigned_conforms`]).
pub proof fn lemma_resolve_ok_invariants(
    vs: Seq<Variant>,
    domain: IntegerDomain,
    parity: Parity,
    allow: bool,
)
    ensures
        match spec_resolve(vs, domain, parity, allow) {
            Ok(vals) => {
                &&& vals.len() == vs.len()
                &&& forall|j: int| 0 <= j < vals.len() ==> #[trigger] vals[j] <= domain.max_raw()
                &&& forall|j1: int, j2: int| 0 <= j1 < j2 < vals.len() ==> vals[j1] != vals[j2]
                &&& forall|j: int|
                    0 <= j < vs.len() ==> #[trigger] assigned_conforms(vs, vals, j, parity, allow)
            },
            Err(_) => true,
        },
{
    lemma_resolve_from_ok(vs, 0, -1, Seq::<u128>::empty(), domain, parity, allow);
}

/// The induction behind [`lemma_resolve_auto_only`]: without explicit
/// values the cursor stays ahead of everything assigned, so the output is
/// strictly increasing.
proof fn lemma_resolve_from_auto(
    vs: Seq<Variant>,
    i: int,
    cur: int,
    out: Seq<u128>,
    domain: IntegerDomain,
    parity: Parity,
    allow: bool,
)
    requires
        0 <= i <= vs.len(),
        out.len() == i,
        -1 <= cur <= domain.max_raw(),
        forall|j: int| 0 <= j < vs.len() ==> vs[j].explicit is None,
        forall|j: int| 0 <= j < out.len() ==> #[trigger] out[j] as int <= cur,
        forall|j1: int, j2: int| 0 <= j1 < j2 < out.len() ==> out[j1] < out[j2],
    ensures
        match resolve_from(vs, i, cur, out, domain, parity, allow) {
            Ok(vals) => {
                &&& vals.len() == vs.len()
                &&& vals.subrange(0, i) == out
                &&& forall|j1: int, j2: int| 0 <= j1 < j2 < vals.len() ==> vals[j1] < vals[j2]
            },
            Err(_) => true,
        },
    decreases vs.len() - i,
{
    if i >= vs.len() {
        assert(out.subrange(0, i) =~= out);
    } else {
        lemma_next_free_props(cur, parity == Parity::Even, domain.max_raw() as int, out);
        match next_free(cur, parity == Parity::Even, domain.max_raw() as int, out) {
            None => {},
            Some(v) => {
                lemma_resolve_from_auto(vs, i + 1, v, out.push(v as u128), domain, parity, allow);
                if let Ok(vals) = resolve_from(vs, i, cur, out, domain, parity, allow) {
                    assert(vals.subrange(0, i + 1) == out.push(v as u128));
                    assert(vals.subrange(0, i) =~= out);
                }
            },
        }
    }
}

/// Law: resolving a variant list with no explicit values, when it succeeds,
/// yields one value per variant, all of the target parity, in strictly
/// increasing order — and therefore pairwise distinct. (With enough
/// variants the domain runs out instead and resolution fails.)
pub proof fn lemma_resolve_auto_only(
    vs: Seq<Variant>,
    domain: IntegerDomain,
    parity: Parity,
    allow: bool,
)
    requires
        forall|j: int| 0 <= j < vs.len() ==> vs[j].explicit is None,
    ensures
        match spec_resolve(vs, domain, parity, allow) {
            Ok(vals) => {
                &&& vals.len() == vs.len()
                &&& forall|j: int|
                    0 <= j < vals.len() ==> #[trigger] matches_parity(vals[j] as nat, parity)
                &&& forall|j1: int, j2: int| 0 <= j1 < j2 < vals.len() ==> vals[j1] < vals[j2]
            },
            Err(_) => true,
        },
{
    lemma_resolve_from_auto(vs, 0, -1, Seq::<u128>::empty(), domain, parity, allow);
    lemma_resolve_ok_invariants(vs, domain, parity, allow);
    if let Ok(vals) = spec_resolve(vs, domain, parity, allow) {
        assert forall|j: int| 0 <= j < vals.len() implies #[trigger] matches_parity(
            vals[j] as nat,
            parity,
        ) by {
            assert(assigned_conforms(vs, vals, j, parity, allow));
        }
    }
}

/// Law: resolution is idempotent. Any two results that satisfy the
/// resolution contract for the same inputs agree line by line, label and
/// value alike; so repeated calls of [`resolve`] on identical inputs return
/// identical outputs.
pub proof fn lemma_resolve_idempotent(
    vs: Seq<Variant>,
    domain: IntegerDomain,
    parity: Parity,
    allow: bool,
    out1: Seq<Assignment>,
    out2: Seq<Assignment>,
)
    requires
        resolve_matches(vs, domain, parity, allow, out1),
        resolve_matches(vs, domain, parity, allow, out2),
    ensures
        out1.len() == out2.len(),
        forall|k: int|
            0 <= k < out1.len() ==> #[trigger] out1[k].value == out2[k].value && out1[k].label@
                == out2[k].label@,
{
    assert(values_of(out1) == values_of(out2));
    assert forall|k: int| 0 <= k < out1.len() implies #[trigger] out1[k].value == out2[k].value
        && out1[k].label@ == out2[k].label@ by {
        assert(values_of(out1)[k] == out1[k].value);
        assert(values_of(out2)[k] == out2[k].value);
    }
}

/// Pushing an assignment appends its value.
proof fn lemma_values_push(s: Seq<Assignment>, a: Assignment)
    ensures
        values_of(s.push(a)) == values_of(s).push(a.value),
{
    assert(values_of(s.push(a)) =~= values_of(s).push(a.value));
}

/// The position of the first assigned value equal to `v`, if any.
fn find_value(out: &Vec<Assignment>, v: u128) -> (r: Option<usize>)
    ensures
        match r {
            Some(j) => find_claimant(values_of(out@), v, 0) == Some(j as int),
            None => find_claimant(values_of(out@), v, 0) == None::<int>,
        },
{
    let ghost vals = values_of(out@);
    let mut k: usize = 0;
    while k < out.len()
        invariant
            0 <= k <= out@.len(),
            vals == values_of(out@),
            find_claimant(vals, v, 0) == find_claimant(vals, v, k as int),
        decreases out@.len() - k,
    {
        if out[k].value == v {
            return Some(k);
        }
        k = k + 1;
    }
    None
}

/// Pulls values from the generator until one is free of the claimed set,
/// advancing the cursor past every claimed value it meets.
fn next_unclaimed(gen: &mut BitParityIter, out: &Vec<Assignment>) -> (r: Option<u128>)
    requires
        old(gen).wf(),
    ensures
        final(gen).wf(),
        final(gen)@.is_even == old(gen)@.is_even,
        final(gen)@.max == old(gen)@.max,
        match r {
            Some(v) => next_free(
                cursor_of(old(gen)@.prev),
                old(gen)@.is_even,
                old(gen)@.max as int,
                values_of(out@),
            ) == Some(v as int) && final(gen)@.prev == Some(v),
            None => next_free(
                cursor_of(old(gen)@.prev),
                old(gen)@.is_even,
                old(gen)@.max as int,
                values_of(out@),
            ) == None::<int>,
        },
{
    let ghost vals = values_of(out@);
    let ghost e = old(gen)@.is_even;
    let ghost m = old(gen)@.max as int;
    proof {
        gen.cursor_in_range();
    }
    loop
        invariant
            gen.wf(),
            e == old(gen)@.is_even,
            m == old(gen)@.max as int,
            vals == values_of(out@),
            gen@.is_even == e,
            gen@.max as int == m,
            -1 <= cursor_of(gen@.prev) <= m,
            next_free(cursor_of(old(gen)@.prev), e, m, vals) == next_free(
                cursor_of(gen@.prev),
                e,
                m,
                vals,
            ),
        decreases m - cursor_of(gen@.prev),
    {
        let ghost pre = gen@;
        match gen.next() {
            None => {
                proof {
                    lemma_next_free_of_exhausted(cursor_of(pre.prev), e, m, vals);
                }
                return None;
            },
            Some(v) => {
                match find_value(out, v) {
                    None => {
                        proof {
                            lemma_find_claimant(vals, v, 0);
                            lemma_next_free_of_unclaimed(cursor_of(pre.prev), e, m, vals, v as int);
                        }
                        return Some(v);
                    },
                    Some(_) => {
                        proof {
                            crate::bit_par_iter::lemma_next_qualifying(cursor_of(pre.prev), e, m);
                            lemma_find_claimant(vals, v, 0);
                            lemma_next_free_skip_claimed(cursor_of(pre.prev), e, m, vals, v as int);
                        }
                    },
                }
            },
        }
    }
}

/// Walks the ordered variant list once and assigns a value to each variant:
/// the result is exactly [`spec_resolve`] of the inputs, with each line
/// carrying its variant's label.
///
/// Resolution is all-or-nothing: the first conflict aborts it with an error
/// attributing the offending variant (or both, for a collision), and no
/// partial assignment is returned. Since the result is a function of the
/// inputs alone, repeated calls with identical inputs return identical
/// outputs.
pub fn resolve(
    variants: &Vec<Variant>,
    domain: IntegerDomain,
    parity: Parity,
    allow_explicit_overrides: bool,
) -> (r: Result<Vec<Assignment>, ResolutionError>)
    requires
        domain.wf(),
    ensures
        match r {
            Ok(out) => resolve_matches(variants@, domain, parity, allow_explicit_overrides, out@),
            Err(e) => spec_resolve(variants@, domain, parity, allow_explicit_overrides) == Err::<
                Seq<u128>,
                ResolutionError,
            >(e),
        },
{
    let ghost vs = variants@;
    let is_even = parity == Parity::Even;
    let max = domain.max_value();
    let mut gen = BitParityIter::new(domain, is_even);
    let mut out: Vec<Assignment> = Vec::new();
    let mut i: usize = 0;
    proof {
        assert(values_of(out@) =~= Seq::<u128>::empty());
    }
    while i < variants.len()
        invariant
            domain.wf(),
            vs == variants@,
            is_even == (parity == Parity::Even),
            max == domain.max_raw(),
            0 <= i <= vs.len(),
            out@.len() == i,
            forall|k: int| 0 <= k < i ==> #[trigger] out@[k].label@ == vs[k].label@,
            gen.wf(),
            gen@.is_even == is_even,
            gen@.max == domain.max_raw(),
            -1 <= cursor_of(gen@.prev) <= domain.max_raw(),
            spec_resolve(vs, domain, parity, allow_explicit_overrides) == resolve_from(
                vs,
                i as int,
                cursor_of(gen@.prev),
                values_of(out@),
                domain,
                parity,
                allow_explicit_overrides,
            ),
        decreases vs.len() - i,
    {
        let ghost cur = cursor_of(gen@.prev);
        let ghost vals = values_of(out@);
        match variants[i].explicit {
            Some(ExplicitValue::Opaque) => {
                return Err(ResolutionError::MalformedExplicitValue { index: i });
            },
            Some(ExplicitValue::Literal(x)) => {
                if x > max {
                    return Err(ResolutionError::MalformedExplicitValue { index: i });
                }
                let parity_ok = crate::parity::has_even_parity(x) == is_even;
                if !parity_ok && !allow_explicit_overrides {
                    return Err(
                        ResolutionError::ParityViolation { index: i, value: x, required: parity },
                    );
                }
                match find_value(&out, x) {
                    Some(j) => {
                        return Err(
                            ResolutionError::ValueCollision {
                                first_index: j,
                                second_index: i,
                                value: x,
                            },
                        );
                    },
                    None => {
                        gen.resume_after(x);
                        let label = variants[i].label.clone();
                        let ghost pre_out = out@;
                        out.push(Assignment { label, value: x });
                        proof {
                            lemma_values_push(pre_out, out@.last());
                            assert(values_of(out@) == vals.push(x));
                            assert(resolve_from(
                                vs,
                                i as int,
                                cur,
                                vals,
                                domain,
                                parity,
                                allow_explicit_overrides,
                            ) == resolve_from(
                                vs,
                                i + 1,
                                x as int,
                                vals.push(x),
                                domain,
                                parity,
                                allow_explicit_overrides,
                            ));
                        }
                    },
                }
            },
            None => {
                match next_unclaimed(&mut gen, &out) {
                    None => {
                        return Err(ResolutionError::DomainExhausted { index: i, domain, parity });
                    },
                    Some(v) => {
                        proof {
                            lemma_next_free_props(cur, is_even, max as int, vals);
                        }
                        let label = variants[i].label.clone();
                        let ghost pre_out = out@;
                        out.push(Assignment { label, value: v });
                        proof {
                            lemma_values_push(pre_out, out@.last());
                            assert(values_of(out@) == vals.push(v));
                            assert(resolve_from(
                                vs,
                                i as int,
                                cur,
                                vals,
                                domain,
                                parity,
                                allow_explicit_overrides,
                            ) == resolve_from(
                                vs,
                                i + 1,
                                v as int,
                                vals.push(v),
                                domain,
                                parity,
                                allow_explicit_overrides,
                            ));
                        }
                    },
                }
            },
        }
        i = i + 1;
    }
    Ok(out)
}

} // verus!
