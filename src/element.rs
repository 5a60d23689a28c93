use vstd::prelude::*;

verus! {

/// The element type tag of an array or chunk.
#[derive(Debug, Clone, Copy, PartialEq, Eq, Structural)]
pub enum DataType {
    Bool,
    Int8,
    Int16,
    Int32,
    Int64,
    UInt8,
    UInt16,
    UInt32,
    UInt64,
    BFloat16,
    Float16,
    Float32,
    Float64,
    Complex64,
    Complex128,
    RawBits(usize),
}

/// Byte width of one element of the given type.
pub open spec fn element_size(t: DataType) -> nat {
    match t {
        DataType::Bool | DataType::Int8 | DataType::UInt8 => 1,
        DataType::Int16 | DataType::UInt16 | DataType::BFloat16 | DataType::Float16 => 2,
        DataType::Int32 | DataType::UInt32 | DataType::Float32 => 4,
        DataType::Int64 | DataType::UInt64 | DataType::Float64 | DataType::Complex64 => 8,
        DataType::Complex128 => 16,
        DataType::RawBits(n) => n as nat,
    }
}

/// Number of elements in a hyper-rectangle of the given extents.
pub open spec fn num_elements(shape: Seq<u64>) -> nat
    decreases shape.len(),
{
    if shape.len() == 0 {
        1
    } else {
        num_elements(shape.drop_last()) * (shape.last() as nat)
    }
}

impl DataType {
    /// Byte width of one element.
    pub fn size(&self) -> (r: usize)
        ensures
            r as nat == element_size(*self),
    {
        match self {
            DataType::Bool | DataType::Int8 | DataType::UInt8 => 1,
            DataType::Int16 | DataType::UInt16 | DataType::BFloat16 | DataType::Float16 => 2,
            DataType::Int32 | DataType::UInt32 | DataType::Float32 => 4,
            DataType::Int64 | DataType::UInt64 | DataType::Float64 | DataType::Complex64 => 8,
            DataType::Complex128 => 16,
            DataType::RawBits(n) => *n,
        }
    }
}

/// The element type and shape of one chunk.
#[derive(Debug, Clone)]
pub struct ChunkRepresentation {
    pub shape: Vec<u64>,
    pub data_type: DataType,
}

impl ChunkRepresentation {
    /// Bytes a chunk of this representation occupies in memory.
    pub open spec fn size_spec(&self) -> nat {
        num_elements(self.shape@) * element_size(self.data_type)
    }

    pub fn new(shape: Vec<u64>, data_type: DataType) -> (r: Self)
        ensures
            r.shape@ == shape@,
            r.data_type == data_type,
    {
        ChunkRepresentation { shape, data_type }
    }

    pub fn data_type(&self) -> (r: DataType)
        ensures
            r == self.data_type,
    {
        self.data_type
    }

    /// Number of elements, or `None` where it does not fit in a `usize`.
    pub fn num_elements_usize(&self) -> (r: Option<usize>)
        ensures
            r is Some <==> num_elements(self.shape@) <= usize::MAX,
            r is Some ==> r->0 as nat == num_elements(self.shape@),
    {
        shape_num_elements(&self.shape)
    }

    /// Bytes a chunk of this representation occupies in memory, or `None`
    /// where that does not fit in a `usize`.
    pub fn size_usize(&self) -> (r: Option<usize>)
        ensures
            r.is_some() <==> self.size_spec() <= usize::MAX,
            r.is_some() ==> r.unwrap() as nat == self.size_spec(),
    {
        let w = self.data_type.size();
        match self.num_elements_usize() {
            Some(n) => {
                let r = n.checked_mul(w);
                proof {
                    if r.is_none() && w > 0 {
                        assert(self.size_spec() == (n as nat) * (w as nat));
                    }
                }
                r
            },
            None => {
                if w == 0 {
                    assert(self.size_spec() == 0) by (nonlinear_arith)
                        requires
                            element_size(self.data_type) == 0,
                            self.size_spec() == num_elements(self.shape@) * element_size(self.data_type),
                    ;
                    Some(0)
                } else {
                    proof {
                        let ne = num_elements(self.shape@);
                        assert(ne * (w as nat) >= ne) by (nonlinear_arith)
                            requires
                                w >= 1,
                        ;
                    }
                    None
                }
            },
        }
    }
}

/// Number of elements in a hyper-rectangle of the given extents, or `None` where it does not fit in a `usize`.
pub fn shape_num_elements(shape: &Vec<u64>) -> (r: Option<usize>)
    ensures
        r is Some <==> num_elements(shape@) <= usize::MAX,
        r is Some ==> r->0 as nat == num_elements(shape@),
{
    let mut z: usize = 0;
    while z < shape.len()
        invariant
            z <= shape@.len(),
            forall|j: int| 0 <= j < z ==> shape@[j] > 0,
        decreases shape@.len() - z,
    {
        if shape[z] == 0 {
            proof { lemma_num_elements_zero(shape@, z as int); }
            return Some(0);
        }
        z = z + 1;
    }
    let mut acc: usize = 1;
    let mut i: usize = 0;
    while i < shape.len()
        invariant
            i <= shape@.len(),
            forall|j: int| 0 <= j < shape@.len() ==> shape@[j] > 0,
            acc as nat == num_elements(shape@.subrange(0, i as int)),
            acc >= 1,
        decreases shape@.len() - i,
    {
        let ghost s = shape@.subrange(0, i as int + 1);
        assert(s.drop_last() == shape@.subrange(0, i as int));
        let d = shape[i];
        if d > usize::MAX as u64 {
            proof {
                assert(num_elements(s) >= d) by (nonlinear_arith)
                    requires
                        num_elements(s) == (acc as nat) * (d as nat),
                        acc >= 1,
                ;
                lemma_num_elements_prefix_le(shape@, i as int + 1);
            }
            return None;
        }
        match acc.checked_mul(d as usize) {
            Some(v) => {
                assert(v >= 1) by (nonlinear_arith)
                    requires
                        v == acc * d,
                        acc >= 1,
                        d >= 1,
                ;
                acc = v;
            },
            None => {
                proof { lemma_num_elements_prefix_le(shape@, i as int + 1); }
                return None;
            },
        }
        i = i + 1;
    }
    assert(shape@.subrange(0, i as int) == shape@);
    Some(acc)
}

/// With no zero extent, a prefix never has more elements than the whole.
pub proof fn lemma_num_elements_prefix_le(shape: Seq<u64>, k: int)
    requires
        0 <= k <= shape.len(),
        forall|j: int| 0 <= j < shape.len() ==> shape[j] > 0,
    ensures
        num_elements(shape.subrange(0, k)) <= num_elements(shape),
    decreases shape.len(),
{
    if k == shape.len() {
        assert(shape.subrange(0, k) == shape);
    } else {
        let p = shape.drop_last();
        lemma_num_elements_prefix_le(p, k);
        assert(p.subrange(0, k) == shape.subrange(0, k));
        let a = num_elements(p);
        let b = shape.last() as nat;
        assert(a * b >= a) by (nonlinear_arith)
            requires
                b >= 1,
        ;
    }
}

/// A zero extent anywhere makes the element count zero.
pub proof fn lemma_num_elements_zero(shape: Seq<u64>, z: int)
    requires
        0 <= z < shape.len(),
        shape[z] == 0,
    ensures
        num_elements(shape) == 0,
    decreases shape.len(),
{
    let a = num_elements(shape.drop_last());
    let b = shape.last() as nat;
    if z == shape.len() - 1 {
        assert(a * b == 0) by (nonlinear_arith)
            requires
                b == 0,
        ;
    } else {
        lemma_num_elements_zero(shape.drop_last(), z);
        assert(a * b == 0) by (nonlinear_arith)
            requires
                a == 0,
        ;
    }
}

} // verus!
