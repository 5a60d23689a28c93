use vstd::prelude::*;

verus! {

/// The multi-dimensional index at row-major position `index` of a grid of
/// the given extents: the last axis varies fastest.
pub open spec fn unravel_spec(index: nat, shape: Seq<u64>) -> Seq<u64>
    decreases shape.len(),
{
    if shape.len() == 0 {
        seq![]
    } else {
        let d = shape.last() as nat;
        unravel_spec(index / d, shape.drop_last()).push((index % d) as u64)
    }
}

/// The multi-dimensional index at row-major position `index` of a grid of
/// the given extents, none of them zero.
pub fn unravel_index(index: u64, shape: &Vec<u64>) -> (r: Vec<u64>)
    requires
        forall|d: int| 0 <= d < shape@.len() ==> shape@[d] > 0,
    ensures
        r@ == unravel_spec(index as nat, shape@),
        r@.len() == shape@.len(),
        forall|d: int| 0 <= d < shape@.len() ==> r@[d] < shape@[d],
{
    let mut out: Vec<u64> = Vec::new();
    let mut rest: u64 = index;
    let mut k: usize = shape.len();
    assert(shape@.subrange(0, k as int) =~= shape@);
    assert(unravel_spec(index as nat, shape@) + out@ =~= unravel_spec(index as nat, shape@));
    while k > 0
        invariant
            k <= shape@.len(),
            forall|d: int| 0 <= d < shape@.len() ==> shape@[d] > 0,
            out@.len() == shape@.len() - k,
            unravel_spec(index as nat, shape@) == unravel_spec(
                rest as nat,
                shape@.subrange(0, k as int),
            ) + out@,
            forall|j: int| 0 <= j < out@.len() ==> out@[j] < shape@[k + j],
        decreases k,
    {
        let dim = shape[k - 1];
        let ghost prefix = shape@.subrange(0, k as int);
        let ghost old_out = out@;
        assert(prefix.drop_last() == shape@.subrange(0, k - 1));
        assert(prefix.last() == dim);
        out.insert(0, rest % dim);
        proof {
            let head = unravel_spec((rest / dim) as nat, shape@.subrange(0, k - 1));
            assert(unravel_spec(rest as nat, prefix) == head.push((rest % dim) as u64));
            assert(head.push((rest % dim) as u64) + old_out =~= head + out@);
        }
        rest = rest / dim;
        k = k - 1;
    }
    assert(shape@.subrange(0, 0) =~= Seq::<u64>::empty());
    assert(unravel_spec(rest as nat, shape@.subrange(0, 0)) + out@ =~= out@);
    out
}

} // verus!
