use copernicus_viewer::comparison::array_io::{
    cartesian_ranges, chunk_ranges, effective_chunks, iter_reference_chunk_subsets,
};

#[test]
fn reference_chunk_grid_uses_reference_boundaries() {
    let shape = vec![1200];
    let ref_chunks = vec![600];
    let subsets = iter_reference_chunk_subsets(&shape, &ref_chunks);
    assert_eq!(subsets.len(), 2);
    assert_eq!(subsets[0], vec![0..600]);
    assert_eq!(subsets[1], vec![600..1200]);
}

#[test]
fn reference_chunk_grid_is_independent_of_new_chunking() {
    let shape = vec![1200, 1200];
    let ref_chunks = vec![600, 600];
    let subsets = iter_reference_chunk_subsets(&shape, &ref_chunks);
    assert_eq!(subsets.len(), 4);
    assert!(subsets.contains(&vec![0..600, 0..600]));
    assert!(subsets.contains(&vec![600..1200, 600..1200]));
}

#[test]
fn uneven_reference_chunks_are_respected() {
    let shape = vec![1200];
    let ref_chunks = vec![601];
    let subsets = iter_reference_chunk_subsets(&shape, &ref_chunks);
    assert_eq!(subsets.len(), 2);
    assert_eq!(subsets[0], vec![0..601]);
    assert_eq!(subsets[1], vec![601..1200]);
}

#[test]
fn missing_chunks_fall_back_to_shape() {
    assert_eq!(effective_chunks(&[10, 20], &[5]), vec![10, 20]);
    assert_eq!(effective_chunks(&[10, 20], &[5, 0]), vec![10, 20]);
    assert_eq!(effective_chunks(&[10, 20], &[5, 7]), vec![5, 7]);
}

#[test]
fn chunk_ranges_edge_cases() {
    assert_eq!(chunk_ranges(0, 4), vec![0..1]);
    assert_eq!(chunk_ranges(5, 0), vec![0..1, 1..2, 2..3, 3..4, 4..5]);
    assert_eq!(chunk_ranges(10, 4), vec![0..4, 4..8, 8..10]);
    assert_eq!(chunk_ranges(3, u64::MAX), vec![0..3]);
}

#[test]
fn cartesian_product_order_and_count() {
    let per_dim = vec![vec![0..1, 1..2], vec![0..3, 3..6, 6..7]];
    let all = cartesian_ranges(&per_dim);
    assert_eq!(all.len(), 6);
    assert_eq!(all[0], vec![0..1, 0..3]);
    assert_eq!(all[1], vec![0..1, 3..6]);
    assert_eq!(all[5], vec![1..2, 6..7]);
    assert_eq!(cartesian_ranges(&[]), vec![Vec::new()]);
}
