use vstd::prelude::*;

use crate::element::num_elements;
use crate::filter::FilterError;

verus! {

/// How a retrieval benchmark reads an array.
#[derive(Debug, Clone, Copy, PartialEq, Eq, Structural)]
pub enum RetrievalMode {
    /// One retrieval covering the whole array.
    WholeArray,
    /// One retrieval per chunk.
    PerChunk,
}

/// The outcome of a sequence of retrievals: the first error, or else the sum
/// of the decoded byte counts.
pub open spec fn tally_spec(outcomes: Seq<Result<usize, FilterError>>) -> Result<nat, FilterError>
    decreases outcomes.len(),
{
    if outcomes.len() == 0 {
        Ok(0)
    } else {
        match tally_spec(outcomes.drop_last()) {
            Err(e) => Err(e),
            Ok(t) => match outcomes.last() {
                Ok(n) => Ok(t + n as nat),
                Err(e) => Err(e),
            },
        }
    }
}

/// The sum of all decoded byte counts, errors counting as zero.
pub open spec fn sum_ok(outcomes: Seq<Result<usize, FilterError>>) -> nat
    decreases outcomes.len(),
{
    if outcomes.len() == 0 {
        0
    } else {
        sum_ok(outcomes.drop_last()) + match outcomes.last() {
            Ok(n) => n as nat,
            Err(_) => 0,
        }
    }
}

/// The running state of a retrieval: the bytes decoded so far and the first
/// failure, if any.
#[derive(Debug, Clone, Copy)]
pub struct RetrievalTally {
    pub decoded: u64,
    pub failure: Option<FilterError>,
}

impl RetrievalTally {
    pub fn new() -> (r: Self)
        ensures
            r.decoded == 0,
            r.failure is None,
    {
        RetrievalTally { decoded: 0, failure: None }
    }

    /// Whether a retrieval has failed, after which nothing more is recorded.
    pub fn is_failed(&self) -> (r: bool)
        ensures
            r <==> self.failure is Some,
    {
        self.failure.is_some()
    }

    /// Records the outcome of one retrieval. The first failure is kept and
    /// every later outcome ignored.
    pub fn record(&mut self, outcome: Result<usize, FilterError>)
        requires
            old(self).failure is None && outcome is Ok ==> old(self).decoded + outcome->Ok_0
                <= u64::MAX,
        ensures
            old(self).failure is Some ==> *final(self) == *old(self),
            old(self).failure is None ==> match outcome {
                Ok(n) => final(self).decoded == old(self).decoded + n && final(self).failure is None,
                Err(e) => final(self).decoded == old(self).decoded && final(self).failure
                    == Some(e),
            },
    {
        if self.failure.is_some() {
            return;
        }
        match outcome {
            Ok(n) => {
                self.decoded = self.decoded + n as u64;
            },
            Err(e) => {
                self.failure = Some(e);
            },
        }
    }

    /// The result of the retrieval: the first failure, or the bytes decoded.
    pub fn finish(self) -> (r: Result<u64, FilterError>)
        ensures
            match self.failure {
                Some(e) => r == Err::<u64, FilterError>(e),
                None => r == Ok::<u64, FilterError>(self.decoded),
            },
    {
        match self.failure {
            Some(e) => Err(e),
            None => Ok(self.decoded),
        }
    }
}

/// Tallies the outcomes of per-chunk retrievals: the first failure, or else
/// the total number of bytes decoded.
pub fn tally_outcomes(outcomes: &Vec<Result<usize, FilterError>>) -> (r: Result<u64, FilterError>)
    requires
        sum_ok(outcomes@) <= u64::MAX,
    ensures
        match tally_spec(outcomes@) {
            Ok(t) => r is Ok && r->Ok_0 as nat == t,
            Err(e) => r == Err::<u64, FilterError>(e),
        },
{
    let mut tally = RetrievalTally::new();
    let mut i: usize = 0;
    while i < outcomes.len()
        invariant
            i <= outcomes@.len(),
            sum_ok(outcomes@) <= u64::MAX,
            match tally_spec(outcomes@.subrange(0, i as int)) {
                Ok(t) => tally.failure is None && tally.decoded as nat == t,
                Err(e) => tally.failure == Some(e),
            },
            tally.decoded as nat <= sum_ok(outcomes@.subrange(0, i as int)),
        decreases outcomes@.len() - i,
    {
        let ghost pre = outcomes@.subrange(0, i as int);
        let ghost next = outcomes@.subrange(0, i as int + 1);
        assert(next.drop_last() == pre);
        proof { lemma_sum_ok_prefix(outcomes@, i as int + 1); }
        tally.record(outcomes[i]);
        i = i + 1;
    }
    assert(outcomes@.subrange(0, i as int) == outcomes@);
    tally.finish()
}

/// A prefix of outcomes never decodes more than all of them.
pub proof fn lemma_sum_ok_prefix(outcomes: Seq<Result<usize, FilterError>>, k: int)
    requires
        0 <= k <= outcomes.len(),
    ensures
        sum_ok(outcomes.subrange(0, k)) <= sum_ok(outcomes),
    decreases outcomes.len(),
{
    if k == outcomes.len() {
        assert(outcomes.subrange(0, k) == outcomes);
    } else {
        lemma_sum_ok_prefix(outcomes.drop_last(), k);
        assert(outcomes.drop_last().subrange(0, k) == outcomes.subrange(0, k));
    }
}

/// Extents of an array tiled exactly by a grid of chunks: each array extent
/// is the grid extent times the chunk extent.
pub open spec fn tiles_exactly(shape: Seq<u64>, grid: Seq<u64>, chunk: Seq<u64>) -> bool {
    &&& shape.len() == grid.len()
    &&& grid.len() == chunk.len()
    &&& forall|d: int| 0 <= d < shape.len() ==> shape[d] as nat == (grid[d] as nat) * (chunk[d] as nat)
}

/// Outcomes of retrieving `n` chunks that each decode to `bytes` bytes.
pub open spec fn equal_chunks(n: nat, bytes: usize) -> Seq<Result<usize, FilterError>> {
    Seq::new(n, |_i: int| Ok::<usize, FilterError>(bytes))
}

/// Where chunks tile an array exactly, retrieving it chunk by chunk decodes
/// as many bytes in total as retrieving it whole.
pub proof fn lemma_per_chunk_total_matches_whole(
    shape: Seq<u64>,
    grid: Seq<u64>,
    chunk: Seq<u64>,
    element_bytes: nat,
    chunk_bytes: usize,
)
    requires
        tiles_exactly(shape, grid, chunk),
        chunk_bytes as nat == num_elements(chunk) * element_bytes,
    ensures
        tally_spec(equal_chunks(num_elements(grid), chunk_bytes)) == Ok::<nat, FilterError>(
            num_elements(shape) * element_bytes,
        ),
{
    lemma_tally_equal_chunks(num_elements(grid), chunk_bytes);
    lemma_num_elements_tiled(shape, grid, chunk);
    let g = num_elements(grid);
    let c = num_elements(chunk);
    assert(g * (c * element_bytes) == (g * c) * element_bytes) by (nonlinear_arith);
}

proof fn lemma_tally_equal_chunks(n: nat, bytes: usize)
    ensures
        tally_spec(equal_chunks(n, bytes)) == Ok::<nat, FilterError>(n * (bytes as nat)),
    decreases n,
{
    let s = equal_chunks(n, bytes);
    if n > 0 {
        lemma_tally_equal_chunks((n - 1) as nat, bytes);
        assert(s.last() == Ok::<usize, FilterError>(bytes));
        assert(equal_chunks(n, bytes).drop_last() == equal_chunks((n - 1) as nat, bytes));
        assert(((n - 1) as nat) * (bytes as nat) + (bytes as nat) == n * (bytes as nat)) by (nonlinear_arith)
            requires
                n > 0,
        ;
        assert(tally_spec(s) == Ok::<nat, FilterError>(((n - 1) as nat) * (bytes as nat) + (bytes as nat)));
    } else {
        assert(n * (bytes as nat) == 0) by (nonlinear_arith)
            requires
                n == 0,
        ;
    }
}

proof fn lemma_num_elements_tiled(shape: Seq<u64>, grid: Seq<u64>, chunk: Seq<u64>)
    requires
        tiles_exactly(shape, grid, chunk),
    ensures
        num_elements(shape) == num_elements(grid) * num_elements(chunk),
    decreases shape.len(),
{
    if shape.len() > 0 {
        let s = shape.drop_last();
        let g = grid.drop_last();
        let c = chunk.drop_last();
        assert(tiles_exactly(s, g, c));
        lemma_num_elements_tiled(s, g, c);
        let a = num_elements(g);
        let b = num_elements(c);
        let x = grid.last() as nat;
        let y = chunk.last() as nat;
        assert(shape.last() as nat == x * y);
        assert((a * b) * (x * y) == (a * x) * (b * y)) by (nonlinear_arith);
        assert(num_elements(grid) == a * x);
        assert(num_elements(chunk) == b * y);
        assert(num_elements(shape) == (a * b) * (shape.last() as nat));
        assert(num_elements(shape) == (a * b) * (x * y));
    } else {
        assert(num_elements(grid) == 1);
        assert(num_elements(chunk) == 1);
    }
}

} // verus!
