use vstd::prelude::*;

use crate::filter::FilterError;

verus! {

/// An inclusive range of how many concurrent work units a component
/// recommends.
#[derive(Debug, Clone, Copy, PartialEq, Eq, Structural)]
pub struct RecommendedConcurrency {
    pub minimum: usize,
    pub maximum: usize,
}

impl RecommendedConcurrency {
    /// A recommendation of `minimum..=maximum`.
    pub fn new(minimum: usize, maximum: usize) -> (r: Self)
        ensures
            r.minimum == minimum,
            r.maximum == maximum,
    {
        RecommendedConcurrency { minimum, maximum }
    }

    /// A recommendation of at least `minimum`, with no upper bound.
    pub fn new_minimum(minimum: usize) -> (r: Self)
        ensures
            r.minimum == minimum,
            r.maximum == usize::MAX,
    {
        RecommendedConcurrency { minimum, maximum: usize::MAX }
    }

    /// A recommendation of at most `maximum`.
    pub fn new_maximum(maximum: usize) -> (r: Self)
        ensures
            r.minimum == 1,
            r.maximum == maximum,
    {
        RecommendedConcurrency { minimum: 1, maximum }
    }

    pub open spec fn is_valid(&self) -> bool {
        self.minimum <= self.maximum
    }

    /// A recommendation that places no bound on the concurrency.
    pub open spec fn is_unbounded(&self) -> bool {
        self.minimum <= 1 && self.maximum == usize::MAX
    }
}

pub open spec fn min_nat(a: nat, b: nat) -> nat {
    if a <= b { a } else { b }
}

pub open spec fn max_nat(a: nat, b: nat) -> nat {
    if a >= b { a } else { b }
}

/// The outer concurrency: the outer recommendation's minimum, clipped to at
/// least one and at most the total parallelism and the number of work units.
pub open spec fn outer_spec(total: nat, outer: RecommendedConcurrency, units: nat) -> nat {
    let cap = max_nat(1, min_nat(total, units));
    min_nat(max_nat(outer.minimum as nat, 1), cap)
}

/// The inner concurrency: what is left of the total parallelism for each outer
/// task, clipped into the inner recommendation and to at least one.
pub open spec fn inner_spec(total: nat, outer_concurrency: nat, inner: RecommendedConcurrency) -> nat {
    let share = max_nat(1, total / outer_concurrency);
    max_nat(1, min_nat(max_nat(share, inner.minimum as nat), inner.maximum as nat))
}

/// Reconciles the total parallelism with an outer (per work unit) and an inner
/// (within one work unit) recommendation into concrete concurrencies.
///
/// Fails with `ConcurrencyConfig` where `total_parallelism` is zero or either
/// recommendation has its minimum above its maximum.
pub fn calc_concurrency_outer_inner(
    total_parallelism: usize,
    outer: &RecommendedConcurrency,
    inner: &RecommendedConcurrency,
    work_units: usize,
) -> (r: Result<(usize, usize), FilterError>)
    ensures
        (total_parallelism == 0 || !outer.is_valid() || !inner.is_valid()) <==> r is Err,
        r is Err ==> r->Err_0 == FilterError::ConcurrencyConfig,
        r is Ok ==> {
            let (o, i) = r->Ok_0;
            &&& o as nat == outer_spec(total_parallelism as nat, *outer, work_units as nat)
            &&& i as nat == inner_spec(total_parallelism as nat, o as nat, *inner)
            &&& o >= 1
            &&& i >= 1
        },
{
    if total_parallelism == 0 || outer.minimum > outer.maximum || inner.minimum > inner.maximum {
        return Err(FilterError::ConcurrencyConfig);
    }
    let limited = if total_parallelism <= work_units { total_parallelism } else { work_units };
    let cap = if limited >= 1 { limited } else { 1 };
    let wanted = if outer.minimum >= 1 { outer.minimum } else { 1 };
    let o = if wanted <= cap { wanted } else { cap };
    let q = total_parallelism / o;
    let share = if q >= 1 { q } else { 1 };
    let lifted = if share >= inner.minimum { share } else { inner.minimum };
    let clipped = if lifted <= inner.maximum { lifted } else { inner.maximum };
    let i = if clipped >= 1 { clipped } else { 1 };
    Ok((o, i))
}

/// With an unbounded inner recommendation, the outer concurrency times the
/// inner concurrency never exceeds the total parallelism, and both are at
/// least one.
pub proof fn lemma_concurrency_within_total(
    total_parallelism: nat,
    outer: RecommendedConcurrency,
    inner: RecommendedConcurrency,
    work_units: nat,
)
    requires
        1 <= total_parallelism <= usize::MAX,
        inner.is_unbounded(),
    ensures
        outer_spec(total_parallelism, outer, work_units) >= 1,
        inner_spec(
            total_parallelism,
            outer_spec(total_parallelism, outer, work_units),
            inner,
        ) >= 1,
        outer_spec(total_parallelism, outer, work_units) * inner_spec(
            total_parallelism,
            outer_spec(total_parallelism, outer, work_units),
            inner,
        ) <= total_parallelism,
{
    let o = outer_spec(total_parallelism, outer, work_units);
    let i = inner_spec(total_parallelism, o, inner);
    assert(1 <= o <= total_parallelism);
    vstd::arithmetic::div_mod::lemma_div_is_ordered_by_denominator(
        total_parallelism as int,
        o as int,
        total_parallelism as int,
    );
    vstd::arithmetic::div_mod::lemma_div_by_self(total_parallelism as int);
    assert(total_parallelism / o >= 1);
    vstd::arithmetic::div_mod::lemma_div_is_ordered_by_denominator(
        total_parallelism as int,
        1,
        o as int,
    );
    assert(i == total_parallelism / o);
    vstd::arithmetic::div_mod::lemma_fundamental_div_mod(total_parallelism as int, o as int);
    assert(o * i <= total_parallelism) by (nonlinear_arith)
        requires
            total_parallelism == o * i + total_parallelism % o,
            total_parallelism % o >= 0,
    ;
}

} // verus!
