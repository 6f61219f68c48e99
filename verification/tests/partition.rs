use ray_tracer::schedule::thread_partition;

#[test]
fn bands_cover_uneven_image() {
    // Ten rows over four workers: each gets two, the last also takes the rest.
    assert_eq!(thread_partition(10, 0, 4), (0, 2));
    assert_eq!(thread_partition(10, 1, 4), (2, 4));
    assert_eq!(thread_partition(10, 2, 4), (4, 6));
    assert_eq!(thread_partition(10, 3, 4), (6, 10));
}

#[test]
fn bands_cover_even_image() {
    assert_eq!(thread_partition(8, 0, 4), (0, 2));
    assert_eq!(thread_partition(8, 1, 4), (2, 4));
    assert_eq!(thread_partition(8, 2, 4), (4, 6));
    assert_eq!(thread_partition(8, 3, 4), (6, 8));
}

#[test]
fn single_worker_takes_all_rows() {
    assert_eq!(thread_partition(600, 0, 1), (0, 600));
}

#[test]
fn more_workers_than_rows() {
    // Three rows over five workers: only the last band is non-empty.
    for k in 0..4 {
        assert_eq!(thread_partition(3, k, 5), (0, 0));
    }
    assert_eq!(thread_partition(3, 4, 5), (0, 3));
}

#[test]
fn bands_are_disjoint_and_exhaustive() {
    let height = 737u32;
    let workers = 12u32;
    let mut covered = vec![0u32; height as usize];
    for k in 0..workers {
        let (start, end) = thread_partition(height, k, workers);
        assert!(start <= end && end <= height);
        for row in start..end {
            covered[row as usize] += 1;
        }
    }
    assert!(covered.iter().all(|&c| c == 1));
}
