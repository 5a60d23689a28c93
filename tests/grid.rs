use zarrs_tools::grid::unravel_index;

#[test]
fn unravel_row_major() {
    assert_eq!(unravel_index(0, &vec![2, 2]), vec![0, 0]);
    assert_eq!(unravel_index(1, &vec![2, 2]), vec![0, 1]);
    assert_eq!(unravel_index(3, &vec![2, 2]), vec![1, 1]);
    assert_eq!(unravel_index(5, &vec![2, 3]), vec![1, 2]);
    assert_eq!(unravel_index(23, &vec![2, 3, 4]), vec![1, 2, 3]);
    assert_eq!(unravel_index(7, &vec![]), Vec::<u64>::new());
}

#[test]
fn unravel_enumerates_each_chunk_once() {
    let grid = vec![3u64, 1, 4];
    let mut all: Vec<Vec<u64>> = (0..12).map(|p| unravel_index(p, &grid)).collect();
    assert!(all.iter().all(|ix| ix[0] < 3 && ix[1] < 1 && ix[2] < 4));
    all.sort();
    all.dedup();
    assert_eq!(all.len(), 12);
}
