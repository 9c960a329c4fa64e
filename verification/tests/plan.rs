use chunkdl::plan::{plan, plan_chunks, select_threads, select_threads_with_cpu};

fn assert_well_formed(chunks: &[(u64, u64)], total: u64) {
    assert!(!chunks.is_empty());
    assert_eq!(chunks[0].0, 0);
    assert_eq!(chunks[chunks.len() - 1].1, total - 1);
    let mut sum: u64 = 0;
    for w in chunks.windows(2) {
        assert_eq!(w[1].0, w[0].1 + 1, "ranges must be contiguous and ascending");
    }
    for &(start, end) in chunks {
        assert!(start <= end);
        sum += end - start + 1;
    }
    assert_eq!(sum, total, "ranges must cover the transfer exactly");
}

#[test]
fn planner_balances_two_chunks_of_25_mib() {
    let chunks = plan_chunks(26214400, 2, 2);
    assert_eq!(chunks, vec![(0, 13107199), (13107200, 26214399)]);
    assert_well_formed(&chunks, 26214400);
}

#[test]
fn planner_splits_small_sizes() {
    let chunks = plan_chunks(10, 3, 8);
    assert_well_formed(&chunks, 10);
    assert_eq!(chunks.len(), 3);

    let chunks = plan_chunks(1, 1, 1);
    assert_eq!(chunks, vec![(0, 0)]);
}

#[test]
fn planner_never_exceeds_thread_or_size_budget() {
    for total in [1u64, 2, 5, 100, 1000, 26214400] {
        for threads in [1usize, 2, 3, 7, 64] {
            for cpu in [1usize, 2, 8] {
                let chunks = plan_chunks(total, threads, cpu);
                assert_well_formed(&chunks, total);
                assert!(chunks.len() <= threads);
                assert!(chunks.len() <= cpu);
                assert!(chunks.len() as u64 <= total);
            }
        }
    }
}

#[test]
fn planner_caps_chunk_count_by_bytes() {
    // five bytes can never make more than five chunks
    let chunks = plan_chunks(5, 8, 8);
    assert_well_formed(&chunks, 5);
    assert_eq!(chunks.len(), 5);
}

#[test]
fn plan_uses_host_parallelism() {
    let chunks = plan(4096, 2);
    assert_well_formed(&chunks, 4096);
    assert!(chunks.len() <= 2);
}

#[test]
fn selector_clamps_into_requested_range() {
    // 25 MiB at one worker per 10 MiB caps the budget at two
    assert_eq!(select_threads_with_cpu(4, 26214400, false, 2), 2);
    // small transfers never spawn extra workers
    assert_eq!(select_threads_with_cpu(8, 1024, false, 8), 1);
    // the request is the upper bound
    assert_eq!(select_threads_with_cpu(2, u64::MAX, false, 64), 2);
    // a forced request is returned unchanged
    assert_eq!(select_threads_with_cpu(9, 1024, true, 2), 9);

    for requested in [1usize, 2, 5, 9] {
        for total in [0u64, 1, 10485760, 104857600] {
            let r = select_threads_with_cpu(requested, total, false, 4);
            assert!(1 <= r && r <= requested);
            let r = select_threads(requested, total, false);
            assert!(1 <= r && r <= requested);
        }
    }
}

#[test]
fn selector_grows_with_transfer_size() {
    let mut last = 0;
    for total in [0u64, 10485760, 20971520, 31457280, 104857600] {
        let r = select_threads_with_cpu(8, total, false, 4);
        assert!(r >= last, "budget must not shrink as the transfer grows");
        last = r;
    }
    // capped by the CPU count from 40 MiB on
    assert_eq!(select_threads_with_cpu(8, 104857600, false, 4), 4);
}
