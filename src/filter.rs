use vstd::prelude::*;

use crate::element::{ChunkRepresentation, DataType, num_elements, shape_num_elements};
use crate::planner::{
    block_bounds,
    calculate_chunk_limit,
    chunk_limit_spec,
    num_blocks,
    num_blocks_spec,
    uniform_blocks,
};
use vstd::std_specs::cmp::PartialEqSpec;

verus! {

/// Why a filter or a retrieval failed.
#[derive(Debug, Clone, Copy, PartialEq, Eq, Structural)]
pub enum FilterError {
    /// An input or output element type outside a filter's allowed set.
    UnsupportedElementType(DataType),
    /// The output array's shape differs from the input's.
    IncompatibleShape,
    /// Invalid parallelism or concurrency recommendation.
    ConcurrencyConfig,
    /// An error from the storage or codec read path, with the position of the
    /// chunk in the row-major order of the chunk grid (`None` for a whole-array
    /// read).
    RetrievalFailure(Option<usize>),
    /// An error from the storage or codec write path, with the position of the
    /// chunk in the row-major order of the chunk grid.
    StorageFailure(usize),
}

/// What a filter reads of an array: its shape, chunk grid, element type, and
/// the representation of its first chunk.
#[derive(Debug, Clone)]
pub struct ArrayDescriptor {
    pub shape: Vec<u64>,
    pub chunk_grid_shape: Vec<u64>,
    pub first_chunk: ChunkRepresentation,
}

impl ArrayDescriptor {
    pub open spec fn data_type(&self) -> DataType {
        self.first_chunk.data_type
    }

    pub open spec fn num_chunks(&self) -> nat {
        num_elements(self.chunk_grid_shape@)
    }
}

/// Element types the equal filter reads.
pub open spec fn equal_input_supported(t: DataType) -> bool {
    match t {
        DataType::Complex64 | DataType::Complex128 | DataType::RawBits(_) => false,
        _ => true,
    }
}

/// Element types the equal filter writes.
pub open spec fn equal_output_supported(t: DataType) -> bool {
    t == DataType::Bool || t == DataType::UInt8
}

/// The byte an equal filter writes for one element.
pub open spec fn equal_byte(same: bool) -> u8 {
    if same { 1 } else { 0 }
}

/// The schedule for applying a filter chunk by chunk: the number of chunks,
/// how many go in one block, and the blocks of chunk positions (start, exclusive
/// end) in the row-major order of the chunk grid.
#[derive(Debug, Clone)]
pub struct ApplyPlan {
    pub num_chunks: usize,
    pub chunk_limit: usize,
    pub blocks: Vec<(usize, usize)>,
}

/// Compares every element of an array with one value and writes 1 where they
/// are equal and 0 elsewhere, as booleans or unsigned bytes.
pub struct Equal {
    /// The comparison value, as the native-endian bytes of the input's element type.
    value: Vec<u8>,
    chunk_limit: Option<usize>,
}

impl Equal {
    pub closed spec fn value_spec(&self) -> Seq<u8> {
        self.value@
    }

    pub closed spec fn chunk_limit_spec(&self) -> Option<usize> {
        self.chunk_limit
    }

    /// A chunk limit override, where given, is at least one.
    pub closed spec fn wf(&self) -> bool {
        self.chunk_limit is Some ==> self.chunk_limit->0 >= 1
    }

    pub fn new(value: Vec<u8>, chunk_limit: Option<usize>) -> (r: Self)
        requires
            chunk_limit is Some ==> chunk_limit->0 >= 1,
        ensures
            r.value_spec() == value@,
            r.chunk_limit_spec() == chunk_limit,
            r.wf(),
    {
        Equal { value, chunk_limit }
    }

    /// The comparison value's bytes.
    pub fn value(&self) -> (r: &Vec<u8>)
        ensures
            r@ == self.value_spec(),
    {
        &self.value
    }

    pub fn chunk_limit(&self) -> (r: Option<usize>)
        ensures
            r == self.chunk_limit_spec(),
    {
        self.chunk_limit
    }

    /// Compares each input element with `equal`: 1 where equal, 0 elsewhere.
    pub fn apply_elements<T: PartialEq>(&self, input_elements: &[T], equal: &T) -> (r: Result<
        Vec<u8>,
        FilterError,
    >)
        ensures
            r is Ok,
            r->Ok_0@.len() == input_elements@.len(),
            forall|p: int|
                0 <= p < input_elements@.len() ==> #[trigger] r->Ok_0@[p] == 0 || r->Ok_0@[p]
                    == 1,
            T::obeys_eq_spec() ==> forall|p: int|
                0 <= p < input_elements@.len() ==> #[trigger] r->Ok_0@[p] == equal_byte(
                    input_elements@[p].eq_spec(equal),
                ),
    {
        let mut out: Vec<u8> = Vec::new();
        let mut p: usize = 0;
        while p < input_elements.len()
            invariant
                p <= input_elements@.len(),
                out@.len() == p,
                forall|q: int| 0 <= q < p ==> #[trigger] out@[q] == 0 || out@[q] == 1,
                T::obeys_eq_spec() ==> forall|q: int|
                    0 <= q < p ==> #[trigger] out@[q] == equal_byte(
                        input_elements@[q].eq_spec(equal),
                    ),
            decreases input_elements@.len() - p,
        {
            let same = input_elements[p].eq(equal);
            out.push(if same { 1u8 } else { 0u8 });
            p = p + 1;
        }
        Ok(out)
    }

    /// Checks that the filter reads the input's element type and writes the
    /// output's. The input is checked first.
    pub fn is_compatible(
        &self,
        chunk_input: &ChunkRepresentation,
        chunk_output: &ChunkRepresentation,
    ) -> (r: Result<(), FilterError>)
        ensures
            r is Ok <==> equal_input_supported(chunk_input.data_type) && equal_output_supported(
                chunk_output.data_type,
            ),
            !equal_input_supported(chunk_input.data_type) ==> r == Err::<(), FilterError>(
                FilterError::UnsupportedElementType(chunk_input.data_type),
            ),
            equal_input_supported(chunk_input.data_type) && !equal_output_supported(
                chunk_output.data_type,
            ) ==> r == Err::<(), FilterError>(
                FilterError::UnsupportedElementType(chunk_output.data_type),
            ),
    {
        match chunk_input.data_type() {
            DataType::Complex64 | DataType::Complex128 | DataType::RawBits(_) => {
                return Err(FilterError::UnsupportedElementType(chunk_input.data_type()));
            },
            _ => {},
        }
        match chunk_output.data_type() {
            DataType::Bool | DataType::UInt8 => {},
            _ => {
                return Err(FilterError::UnsupportedElementType(chunk_output.data_type()));
            },
        }
        Ok(())
    }

    /// Memory needed to hold one input chunk and one output chunk, or `None`
    /// where that does not fit in a `usize`.
    pub fn memory_per_chunk(
        &self,
        chunk_input: &ChunkRepresentation,
        chunk_output: &ChunkRepresentation,
    ) -> (r: Option<usize>)
        ensures
            r is Some <==> chunk_input.size_spec() + chunk_output.size_spec() <= usize::MAX,
            r is Some ==> r->0 as nat == chunk_input.size_spec() + chunk_output.size_spec(),
    {
        match (chunk_input.size_usize(), chunk_output.size_usize()) {
            (Some(a), Some(b)) => a.checked_add(b),
            _ => None,
        }
    }

    /// The output element type and fill value this filter fixes: booleans,
    /// filled with `false`.
    pub fn output_data_type(&self, _input: &ArrayDescriptor) -> (r: Option<(DataType, Vec<u8>)>)
        ensures
            match r {
                Some((t, fill)) => t == DataType::Bool && fill@ == seq![0u8],
                None => false,
            },
    {
        Some((DataType::Bool, vec![0u8]))
    }

    /// Schedules the application of the filter from `input` to `output`:
    /// checks shapes and element types, then splits the output's chunks into
    /// blocks of at most the chunk limit, which is the override where given and
    /// otherwise what `memory_budget` allows for one input and one output chunk.
    pub fn plan(&self, input: &ArrayDescriptor, output: &ArrayDescriptor, memory_budget: usize) -> (r:
        Result<ApplyPlan, FilterError>)
        requires
            self.wf(),
            output.num_chunks() <= usize::MAX,
        ensures
            (r is Err && r->Err_0 == FilterError::IncompatibleShape) <==> input.shape@
                != output.shape@,
            r is Ok <==> input.shape@ == output.shape@ && equal_input_supported(input.data_type())
                && equal_output_supported(output.data_type()),
            input.shape@ == output.shape@ && !equal_input_supported(input.data_type()) ==> r
                == Err::<ApplyPlan, FilterError>(
                FilterError::UnsupportedElementType(input.data_type()),
            ),
            input.shape@ == output.shape@ && equal_input_supported(input.data_type())
                && !equal_output_supported(output.data_type()) ==> r == Err::<
                ApplyPlan,
                FilterError,
            >(FilterError::UnsupportedElementType(output.data_type())),
            r is Ok ==> {
                let p = r->Ok_0;
                &&& p.num_chunks as nat == output.num_chunks()
                &&& p.chunk_limit >= 1
                &&& p.chunk_limit == match self.chunk_limit_spec() {
                    Some(l) => l,
                    None => {
                        let m = input.first_chunk.size_spec() + output.first_chunk.size_spec();
                        if m <= usize::MAX {
                            chunk_limit_spec(m, memory_budget as nat) as usize
                        } else {
                            1usize
                        }
                    },
                }
                &&& p.blocks@.len() == num_blocks_spec(p.num_chunks as nat, p.chunk_limit as nat)
                &&& forall|k: int|
                    0 <= k < p.blocks@.len() ==> (p.blocks@[k].0 as nat, p.blocks@[k].1 as nat)
                        == block_bounds(p.num_chunks as nat, p.blocks@.len(), k as nat)
            },
    {
        if !same_shape(&input.shape, &output.shape) {
            return Err(FilterError::IncompatibleShape);
        }
        match self.is_compatible(&input.first_chunk, &output.first_chunk) {
            Ok(()) => {},
            Err(e) => {
                return Err(e);
            },
        }
        let count = match shape_num_elements(&output.chunk_grid_shape) {
            Some(n) => n,
            None => {
                return Err(FilterError::IncompatibleShape);
            },
        };
        let chunk_limit = match self.chunk_limit {
            Some(l) => l,
            None => match self.memory_per_chunk(&input.first_chunk, &output.first_chunk) {
                Some(m) => calculate_chunk_limit(m, memory_budget),
                None => 1,
            },
        };
        let n = num_blocks(count, chunk_limit);
        let blocks = uniform_blocks(count, n);
        Ok(ApplyPlan { num_chunks: count, chunk_limit, blocks })
    }
}

/// Whether two shapes are equal, extent by extent.
pub fn same_shape(a: &Vec<u64>, b: &Vec<u64>) -> (r: bool)
    ensures
        r <==> a@ == b@,
{
    if a.len() != b.len() {
        return false;
    }
    let mut i: usize = 0;
    while i < a.len()
        invariant
            i <= a@.len(),
            a@.len() == b@.len(),
            forall|j: int| 0 <= j < i ==> a@[j] == b@[j],
        decreases a@.len() - i,
    {
        if a[i] != b[i] {
            return false;
        }
        i = i + 1;
    }
    assert(a@ =~= b@);
    true
}

} // verus!
