use zarrs_tools::element::{ChunkRepresentation, DataType};
use zarrs_tools::filter::{same_shape, ArrayDescriptor, Equal, FilterError};

fn descriptor(shape: Vec<u64>, grid: Vec<u64>, chunk: Vec<u64>, data_type: DataType) -> ArrayDescriptor {
    ArrayDescriptor {
        shape,
        chunk_grid_shape: grid,
        first_chunk: ChunkRepresentation::new(chunk, data_type),
    }
}

/// Runs the equal filter chunk by chunk over a row-major 2-D array, the way
/// the engine does: gather each chunk's elements, transform, scatter back.
fn apply_2d(
    filter: &Equal,
    values: &[i32],
    shape: [usize; 2],
    chunk: [usize; 2],
    value: i32,
) -> Vec<u8> {
    let input = descriptor(
        vec![shape[0] as u64, shape[1] as u64],
        vec![(shape[0] / chunk[0]) as u64, (shape[1] / chunk[1]) as u64],
        vec![chunk[0] as u64, chunk[1] as u64],
        DataType::Int32,
    );
    let output_type = filter.output_data_type(&input).unwrap().0;
    let output = descriptor(
        input.shape.clone(),
        input.chunk_grid_shape.clone(),
        vec![chunk[0] as u64, chunk[1] as u64],
        output_type,
    );
    let plan = filter.plan(&input, &output, 1 << 30).unwrap();
    let grid_cols = shape[1] / chunk[1];
    let mut out = vec![0xAAu8; values.len()];
    for &(start, end) in &plan.blocks {
        for c in start..end {
            let (ci, cj) = (c / grid_cols, c % grid_cols);
            let mut elements = Vec::new();
            for i in 0..chunk[0] {
                for j in 0..chunk[1] {
                    elements.push(values[(ci * chunk[0] + i) * shape[1] + cj * chunk[1] + j]);
                }
            }
            let result = filter.apply_elements(&elements, &value).unwrap();
            let mut k = 0;
            for i in 0..chunk[0] {
                for j in 0..chunk[1] {
                    out[(ci * chunk[0] + i) * shape[1] + cj * chunk[1] + j] = result[k];
                    k += 1;
                }
            }
        }
    }
    out
}

#[test]
fn equal_4x4_int32_in_2x2_chunks() {
    let filter = Equal::new(5i32.to_ne_bytes().to_vec(), None);
    let values = [1, 2, 5, 6, 3, 4, 7, 8, 9, 5, 11, 12, 13, 14, 15, 5];
    let out = apply_2d(&filter, &values, [4, 4], [2, 2], 5);
    assert_eq!(out, vec![0, 0, 1, 0, 0, 0, 0, 0, 0, 1, 0, 0, 0, 0, 0, 1]);
}

#[test]
fn chunk_limit_one_gives_one_block_per_chunk() {
    let filter = Equal::new(5i32.to_ne_bytes().to_vec(), Some(1));
    let input = descriptor(vec![4, 4], vec![2, 2], vec![2, 2], DataType::Int32);
    let output = descriptor(vec![4, 4], vec![2, 2], vec![2, 2], DataType::Bool);
    let plan = filter.plan(&input, &output, 1 << 30).unwrap();
    assert_eq!(plan.num_chunks, 4);
    assert_eq!(plan.chunk_limit, 1);
    assert_eq!(plan.blocks, vec![(0, 1), (1, 2), (2, 3), (3, 4)]);
    let values = [1, 2, 5, 6, 3, 4, 7, 8, 9, 5, 11, 12, 13, 14, 15, 5];
    let out = apply_2d(&filter, &values, [4, 4], [2, 2], 5);
    assert_eq!(out, vec![0, 0, 1, 0, 0, 0, 0, 0, 0, 1, 0, 0, 0, 0, 0, 1]);
}

#[test]
fn plan_from_memory_budget() {
    let filter = Equal::new(vec![0], None);
    // 2x2 int32 input chunk = 16 bytes, 2x2 bool output chunk = 4 bytes: 20 per chunk.
    let input = descriptor(vec![4, 4], vec![2, 2], vec![2, 2], DataType::Int32);
    let output = descriptor(vec![4, 4], vec![2, 2], vec![2, 2], DataType::Bool);
    let plan = filter.plan(&input, &output, 40).unwrap();
    assert_eq!(plan.chunk_limit, 2);
    assert_eq!(plan.blocks, vec![(0, 2), (2, 4)]);
    // A budget below one chunk still processes one chunk per block.
    let plan = filter.plan(&input, &output, 7).unwrap();
    assert_eq!(plan.chunk_limit, 1);
    assert_eq!(plan.blocks.len(), 4);
    // A generous budget puts everything in one block.
    let plan = filter.plan(&input, &output, 1000).unwrap();
    assert_eq!(plan.chunk_limit, 50);
    assert_eq!(plan.blocks, vec![(0, 4)]);
}

#[test]
fn plan_rejects_shape_mismatch() {
    let filter = Equal::new(vec![0], None);
    let input = descriptor(vec![4, 4], vec![2, 2], vec![2, 2], DataType::Int32);
    let output = descriptor(vec![4, 5], vec![2, 3], vec![2, 2], DataType::Bool);
    assert_eq!(filter.plan(&input, &output, 1000).unwrap_err(), FilterError::IncompatibleShape);
    let output = descriptor(vec![4], vec![2], vec![2], DataType::Bool);
    assert_eq!(filter.plan(&input, &output, 1000).unwrap_err(), FilterError::IncompatibleShape);
}

#[test]
fn plan_rejects_unsupported_types() {
    let filter = Equal::new(vec![0], None);
    let input = descriptor(vec![4], vec![2], vec![2], DataType::Complex64);
    let output = descriptor(vec![4], vec![2], vec![2], DataType::Bool);
    assert_eq!(
        filter.plan(&input, &output, 1000).unwrap_err(),
        FilterError::UnsupportedElementType(DataType::Complex64)
    );
    let input = descriptor(vec![4], vec![2], vec![2], DataType::Float32);
    let output = descriptor(vec![4], vec![2], vec![2], DataType::Int16);
    assert_eq!(
        filter.plan(&input, &output, 1000).unwrap_err(),
        FilterError::UnsupportedElementType(DataType::Int16)
    );
}

#[test]
fn is_compatible_sets() {
    let filter = Equal::new(vec![0], None);
    let supported_in = [
        DataType::Bool,
        DataType::Int8,
        DataType::Int16,
        DataType::Int32,
        DataType::Int64,
        DataType::UInt8,
        DataType::UInt16,
        DataType::UInt32,
        DataType::UInt64,
        DataType::BFloat16,
        DataType::Float16,
        DataType::Float32,
        DataType::Float64,
    ];
    for t in supported_in {
        let i = ChunkRepresentation::new(vec![2], t);
        for o in [DataType::Bool, DataType::UInt8] {
            assert!(filter.is_compatible(&i, &ChunkRepresentation::new(vec![2], o)).is_ok());
        }
        let bad = ChunkRepresentation::new(vec![2], DataType::Float64);
        assert_eq!(
            filter.is_compatible(&i, &bad),
            Err(FilterError::UnsupportedElementType(DataType::Float64))
        );
    }
    for t in [DataType::Complex64, DataType::Complex128, DataType::RawBits(3)] {
        let i = ChunkRepresentation::new(vec![2], t);
        let o = ChunkRepresentation::new(vec![2], DataType::Int8);
        assert_eq!(filter.is_compatible(&i, &o), Err(FilterError::UnsupportedElementType(t)));
    }
}

#[test]
fn memory_per_chunk_sums_both_chunks() {
    let filter = Equal::new(vec![0], None);
    let i = ChunkRepresentation::new(vec![3, 5], DataType::Float64);
    let o = ChunkRepresentation::new(vec![3, 5], DataType::Bool);
    assert_eq!(filter.memory_per_chunk(&i, &o), Some(15 * 8 + 15));
    let huge = ChunkRepresentation::new(vec![u64::MAX, 2], DataType::UInt16);
    assert_eq!(filter.memory_per_chunk(&huge, &o), None);
    let empty = ChunkRepresentation::new(vec![u64::MAX, 0, u64::MAX], DataType::UInt16);
    assert_eq!(filter.memory_per_chunk(&empty, &o), Some(15));
}

#[test]
fn output_type_is_bool_filled_false() {
    let filter = Equal::new(vec![0], None);
    let input = descriptor(vec![4], vec![2], vec![2], DataType::UInt32);
    let (t, fill) = filter.output_data_type(&input).unwrap();
    assert_eq!(t, DataType::Bool);
    assert_eq!(fill, vec![0u8]);
}

#[test]
fn equal_bytes_are_exactly_zero_or_one() {
    let filter = Equal::new(vec![], None);
    assert_eq!(filter.apply_elements(&[7u8, 0, 7, 255], &7).unwrap(), vec![1, 0, 1, 0]);
    assert_eq!(filter.apply_elements(&[-1i64, i64::MIN, -1], &-1).unwrap(), vec![1, 0, 1]);
    assert_eq!(filter.apply_elements(&[u64::MAX, 0], &u64::MAX).unwrap(), vec![1, 0]);
    assert_eq!(filter.apply_elements::<i16>(&[], &0).unwrap(), Vec::<u8>::new());
    assert_eq!(filter.apply_elements(&[true, false], &false).unwrap(), vec![0, 1]);
}

#[test]
fn equal_floats_follow_ieee() {
    let filter = Equal::new(vec![], None);
    let input = [f32::NAN, 0.0, -0.0, 1.5, f32::INFINITY];
    assert_eq!(filter.apply_elements(&input, &f32::NAN).unwrap(), vec![0, 0, 0, 0, 0]);
    assert_eq!(filter.apply_elements(&input, &0.0).unwrap(), vec![0, 1, 1, 0, 0]);
    assert_eq!(filter.apply_elements(&input, &-0.0).unwrap(), vec![0, 1, 1, 0, 0]);
    let input = [f64::NAN, -0.0, f64::NEG_INFINITY];
    assert_eq!(filter.apply_elements(&input, &f64::NEG_INFINITY).unwrap(), vec![0, 0, 1]);
}

#[test]
fn same_shape_compares_extents() {
    assert!(same_shape(&vec![1, 2, 3], &vec![1, 2, 3]));
    assert!(!same_shape(&vec![1, 2, 3], &vec![1, 2]));
    assert!(!same_shape(&vec![1, 2, 3], &vec![1, 2, 4]));
    assert!(same_shape(&vec![], &vec![]));
}

#[test]
fn equal_accessors() {
    let filter = Equal::new(vec![1, 2], Some(3));
    assert_eq!(filter.value(), &vec![1, 2]);
    assert_eq!(filter.chunk_limit(), Some(3));
}
