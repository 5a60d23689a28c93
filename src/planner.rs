use vstd::prelude::*;

verus! {

/// How many chunks fit in one block under a memory budget: at least one, even
/// where a single chunk exceeds the budget; unbounded where a chunk costs
/// nothing.
pub open spec fn chunk_limit_spec(memory_per_chunk: nat, memory_budget: nat) -> nat {
    if memory_per_chunk == 0 {
        usize::MAX as nat
    } else if memory_budget / memory_per_chunk >= 1 {
        memory_budget / memory_per_chunk
    } else {
        1
    }
}

/// `ceil(a / b)` for `b > 0`.
pub open spec fn div_ceil(a: nat, b: nat) -> nat
    recommends
        b > 0,
{
    ((a + b - 1) as nat) / b
}

/// Number of sequential blocks for `total` units with at most `limit` per block.
pub open spec fn num_blocks_spec(total: nat, limit: nat) -> nat {
    if div_ceil(total, limit) >= 1 {
        div_ceil(total, limit)
    } else {
        1
    }
}

/// Number of units in each block but possibly the last.
pub open spec fn block_size_spec(total: nat, num_blocks: nat) -> nat {
    div_ceil(total, num_blocks)
}

/// Start and end (exclusive) of block `k` of a uniform partition of `0..total`.
pub open spec fn block_bounds(total: nat, num_blocks: nat, k: nat) -> (nat, nat) {
    let bs = block_size_spec(total, num_blocks);
    (
        if k * bs <= total { k * bs } else { total },
        if (k + 1) * bs <= total { (k + 1) * bs } else { total },
    )
}

/// The number of chunks processed together in one block, derived from the
/// memory one chunk needs and the memory budget.
pub fn calculate_chunk_limit(memory_per_chunk: usize, memory_budget: usize) -> (r: usize)
    ensures
        r as nat == chunk_limit_spec(memory_per_chunk as nat, memory_budget as nat),
        r >= 1,
{
    if memory_per_chunk == 0 {
        usize::MAX
    } else {
        let q = memory_budget / memory_per_chunk;
        if q >= 1 {
            q
        } else {
            1
        }
    }
}

/// The number of uniform blocks that `total` units are split into when at
/// most `chunk_limit` units go in one block.
pub fn num_blocks(total: usize, chunk_limit: usize) -> (r: usize)
    requires
        chunk_limit >= 1,
    ensures
        r as nat == num_blocks_spec(total as nat, chunk_limit as nat),
        r >= 1,
{
    proof { lemma_div_ceil_exec(total as nat, chunk_limit as nat); }
    let q = total / chunk_limit;
    let c = if total % chunk_limit == 0 { q } else { q + 1 };
    if c >= 1 {
        c
    } else {
        1
    }
}

proof fn lemma_div_ceil_exec(a: nat, b: nat)
    requires
        b >= 1,
    ensures
        div_ceil(a, b) == if a % b == 0 { a / b } else { a / b + 1 },
        a / b <= a,
        a % b != 0 ==> a / b < a,
{
    let q = a / b;
    let r = a % b;
    vstd::arithmetic::div_mod::lemma_fundamental_div_mod(a as int, b as int);
    assert(a == b * q + r);
    if r == 0 {
        assert((a + b - 1) as int == (q as int) * (b as int) + (b - 1)) by (nonlinear_arith)
            requires
                a == b * q + r,
                r == 0,
        ;
        assert(((a + b - 1) as int) / (b as int) == q as int) by {
            vstd::arithmetic::div_mod::lemma_fundamental_div_mod_converse(
                (a + b - 1) as int,
                b as int,
                q as int,
                (b - 1) as int,
            );
        }
    } else {
        assert((a + b - 1) as int == ((q + 1) as int) * (b as int) + (r - 1)) by (nonlinear_arith)
            requires
                a == b * q + r,
        ;
        if a == 0 {
            vstd::arithmetic::div_mod::lemma_small_mod(0, b);
        }
        if b > 1 {
            vstd::arithmetic::div_mod::lemma_div_decreases(a as int, b as int);
        }
        assert(((a + b - 1) as int) / (b as int) == (q + 1) as int) by {
            vstd::arithmetic::div_mod::lemma_fundamental_div_mod_converse(
                (a + b - 1) as int,
                b as int,
                (q + 1) as int,
                (r - 1) as int,
            );
        }
    }
    vstd::arithmetic::div_mod::lemma_div_is_ordered_by_denominator(a as int, 1, b as int);
}

/// Splits the unit indices `0..total` into `num_blocks` contiguous blocks of
/// uniform size (the last ones may be shorter or empty). Each block is given by
/// its start and exclusive end.
pub fn uniform_blocks(total: usize, num_blocks: usize) -> (r: Vec<(usize, usize)>)
    requires
        num_blocks >= 1,
    ensures
        r@.len() == num_blocks,
        forall|k: int|
            0 <= k < num_blocks ==> (r@[k].0 as nat, r@[k].1 as nat) == block_bounds(
                total as nat,
                num_blocks as nat,
                k as nat,
            ),
{
    proof { lemma_div_ceil_exec(total as nat, num_blocks as nat); }
    let q = total / num_blocks;
    let bs = if total % num_blocks == 0 { q } else { q + 1 };
    let mut r: Vec<(usize, usize)> = Vec::new();
    let mut k: usize = 0;
    let mut start: usize = 0;
    while k < num_blocks
        invariant
            k <= num_blocks,
            bs as nat == block_size_spec(total as nat, num_blocks as nat),
            start as nat == block_bounds(total as nat, num_blocks as nat, k as nat).0,
            r@.len() == k,
            forall|j: int|
                0 <= j < k ==> (r@[j].0 as nat, r@[j].1 as nat) == block_bounds(
                    total as nat,
                    num_blocks as nat,
                    j as nat,
                ),
        decreases num_blocks - k,
    {
        let end = if total - start >= bs { start + bs } else { total };
        proof {
            let t = total as nat;
            let b = bs as nat;
            let kk = k as nat;
            assert((kk + 1) * b == kk * b + b) by (nonlinear_arith);
            if kk * b > t {
                assert((kk + 1) * b >= kk * b) by (nonlinear_arith);
            }
        }
        r.push((start, end));
        start = end;
        k = k + 1;
    }
    r
}

/// The uniform-block partition covers each unit index exactly once: every
/// index below `total` lies in exactly one block.
pub proof fn lemma_uniform_blocks_partition(total: nat, num_blocks: nat, i: nat)
    requires
        num_blocks >= 1,
        i < total,
    ensures
        i / block_size_spec(total, num_blocks) < num_blocks,
        ({
            let k = i / block_size_spec(total, num_blocks);
            block_bounds(total, num_blocks, k).0 <= i < block_bounds(total, num_blocks, k).1
        }),
        forall|k: nat|
            k < num_blocks && #[trigger] block_bounds(total, num_blocks, k).0 <= i
                < block_bounds(total, num_blocks, k).1 ==> k == i / block_size_spec(
                total,
                num_blocks,
            ),
{
    let bs = block_size_spec(total, num_blocks);
    lemma_div_ceil_exec(total, num_blocks);
    lemma_block_size_covers(total, num_blocks);
    assert(bs >= 1);
    let k0 = i / bs;
    vstd::arithmetic::div_mod::lemma_fundamental_div_mod(i as int, bs as int);
    assert(k0 * bs <= i < (k0 + 1) * bs) by (nonlinear_arith)
        requires
            i == bs * k0 + i % bs,
            0 <= i % bs < bs,
    ;
    assert(k0 < num_blocks) by (nonlinear_arith)
        requires
            k0 * bs <= i,
            i < total,
            total <= num_blocks * bs,
            bs >= 1,
    ;
    assert forall|k: nat|
        k < num_blocks && #[trigger] block_bounds(total, num_blocks, k).0 <= i < block_bounds(
            total,
            num_blocks,
            k,
        ).1 implies k == k0 by {
        let s = block_bounds(total, num_blocks, k).0;
        let e = block_bounds(total, num_blocks, k).1;
        assert(s == k * bs) by {
            if k * bs > total {
                assert(s == total);
            }
        }
        assert(e <= (k + 1) * bs);
        assert(k * bs <= i < (k + 1) * bs);
        if k < k0 {
            assert((k + 1) * bs <= k0 * bs) by (nonlinear_arith)
                requires
                    k + 1 <= k0,
            ;
        } else if k > k0 {
            assert((k0 + 1) * bs <= k * bs) by (nonlinear_arith)
                requires
                    k0 + 1 <= k,
            ;
        }
    }
}

/// The blocks together have room for every unit: `total <= num_blocks * block_size`.
proof fn lemma_block_size_covers(total: nat, num_blocks: nat)
    requires
        num_blocks >= 1,
    ensures
        total <= num_blocks * block_size_spec(total, num_blocks),
        total > 0 ==> block_size_spec(total, num_blocks) >= 1,
{
    let bs = block_size_spec(total, num_blocks);
    lemma_div_ceil_exec(total, num_blocks);
    vstd::arithmetic::div_mod::lemma_fundamental_div_mod(total as int, num_blocks as int);
    let q = total / num_blocks;
    let r = total % num_blocks;
    if r == 0 {
        assert(total == num_blocks * bs);
    } else {
        assert(total <= num_blocks * bs) by (nonlinear_arith)
            requires
                total == num_blocks * q + r,
                r < num_blocks,
                bs == q + 1,
        ;
    }
    if total > 0 && bs == 0 {
        assert(num_blocks * bs == 0) by (nonlinear_arith)
            requires
                bs == 0,
        ;
    }
}

} // verus!
