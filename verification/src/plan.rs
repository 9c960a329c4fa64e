//! Thread budget selection and chunk planning.
//!
//! `select_threads` reconciles a caller-requested worker count against the
//! host's available parallelism and the transfer size.  `plan_chunks` turns
//! a total size and a worker budget into a minimal, balanced, ascending set
//! of inclusive byte ranges that exactly covers the transfer.

use vstd::prelude::*;

verus! {

/// Smallest number of bytes a planned chunk may hold.
pub const MIN_CHUNK_SIZE: u64 = 1;

/// One worker is budgeted per this many bytes (10 MiB).
pub const BYTES_PER_WORKER: u64 = 10 * 1024 * 1024;

/// Relies on rayon_core::current_num_threads: the number of threads in the
/// current thread pool, which is never zero (a pool always has at least one
/// worker; a requested count of zero selects the default instead).
#[verifier::external_body]
pub fn available_parallelism() -> (r: usize)
    ensures
        r >= 1,
{
    rayon::current_num_threads()
}

/// The size-and-CPU cap applied to a non-forced thread request:
/// `max(1, min(cpu_cap, total_size / BYTES_PER_WORKER))`.
pub open spec fn thread_cap(total_size: u64, cpu_cap: usize) -> int {
    let size_cap = total_size as int / BYTES_PER_WORKER as int;
    let m = if cpu_cap as int <= size_cap {
        cpu_cap as int
    } else {
        size_cap
    };
    if m >= 1 {
        m
    } else {
        1
    }
}

/// What `select_threads` returns: the request itself when forced, otherwise
/// the request clamped into `[1, thread_cap(total_size, cpu_cap)]`.
pub open spec fn select_threads_spec(requested: usize, total_size: u64, force: bool, cpu_cap: usize) -> int {
    if force {
        requested as int
    } else {
        let cap = thread_cap(total_size, cpu_cap);
        if requested as int >= cap {
            cap
        } else {
            requested as int
        }
    }
}

/// Select the worker count for a transfer, against an explicit parallelism cap.
pub fn select_threads_with_cpu(requested: usize, total_size: u64, force: bool, cpu_cap: usize) -> (r: usize)
    requires
        requested >= 1,
        cpu_cap >= 1,
    ensures
        r as int == select_threads_spec(requested, total_size, force, cpu_cap),
        1 <= r <= requested,
{
    if force {
        requested
    } else {
        let size_cap: u64 = total_size / BYTES_PER_WORKER;
        let cap64: u64 = if (cpu_cap as u64) <= size_cap {
            cpu_cap as u64
        } else {
            size_cap
        };
        let cap: usize = if cap64 >= 1 {
            cap64 as usize
        } else {
            1
        };
        if requested >= cap {
            cap
        } else {
            requested
        }
    }
}

/// Select the worker count for a transfer, capped by the host's parallelism.
pub fn select_threads(requested: usize, total_size: u64, force: bool) -> (r: usize)
    requires
        requested >= 1,
    ensures
        1 <= r <= requested,
        exists|cpu_cap: usize|
            cpu_cap >= 1 && r as int == select_threads_spec(requested, total_size, force, cpu_cap),
{
    let cpu_cap = available_parallelism();
    let r = select_threads_with_cpu(requested, total_size, force, cpu_cap);
    proof {
        assert(cpu_cap >= 1 && r as int == select_threads_spec(requested, total_size, force, cpu_cap));
    }
    r
}

/// For a fixed request and parallelism cap, the selected worker count never
/// shrinks as the transfer grows.
pub proof fn lemma_select_threads_monotonic(requested: usize, cpu_cap: usize, t1: u64, t2: u64)
    requires
        requested >= 1,
        cpu_cap >= 1,
        t1 <= t2,
    ensures
        select_threads_spec(requested, t1, false, cpu_cap) <= select_threads_spec(requested, t2, false, cpu_cap),
{
    let d = BYTES_PER_WORKER as int;
    assert(t1 as int / d <= t2 as int / d) by (nonlinear_arith)
        requires
            t1 <= t2,
            d > 0,
    ;
}

/// The number of bytes an inclusive byte range holds.
pub open spec fn chunk_len(c: (u64, u64)) -> int {
    c.1 - c.0 + 1
}

/// A well-formed chunk plan for `total_size` bytes: at least one range, the
/// first starting at zero, the last ending at `total_size - 1`, every range
/// non-empty, and each range beginning right after its predecessor ends.
/// Ranges are therefore ascending, non-overlapping and contiguous.
pub open spec fn chunks_wf(cs: Seq<(u64, u64)>, total_size: u64) -> bool {
    &&& cs.len() >= 1
    &&& cs[0].0 == 0
    &&& cs[cs.len() - 1].1 == total_size - 1
    &&& forall|i: int| 0 <= i < cs.len() ==> (#[trigger] cs[i]).0 <= cs[i].1
    &&& forall|i: int| 1 <= i < cs.len() ==> (#[trigger] cs[i]).0 == cs[i - 1].1 + 1
}

/// The total number of bytes covered by a sequence of inclusive ranges.
pub open spec fn chunks_size_sum(cs: Seq<(u64, u64)>) -> int
    decreases cs.len(),
{
    if cs.len() == 0 {
        0
    } else {
        chunks_size_sum(cs.drop_last()) + chunk_len(cs.last())
    }
}

proof fn lemma_contiguous_sum(cs: Seq<(u64, u64)>)
    requires
        cs.len() >= 1,
        forall|i: int| 0 <= i < cs.len() ==> (#[trigger] cs[i]).0 <= cs[i].1,
        forall|i: int| 1 <= i < cs.len() ==> (#[trigger] cs[i]).0 == cs[i - 1].1 + 1,
    ensures
        chunks_size_sum(cs) == cs.last().1 - cs[0].0 + 1,
    decreases cs.len(),
{
    if cs.len() == 1 {
        assert(cs.drop_last().len() == 0);
        assert(chunks_size_sum(cs.drop_last()) == 0);
        assert(chunks_size_sum(cs) == chunk_len(cs.last()));
    } else {
        let pre = cs.drop_last();
        assert(forall|i: int| 0 <= i < pre.len() ==> (#[trigger] pre[i]).0 <= pre[i].1);
        assert(forall|i: int| 1 <= i < pre.len() ==> (#[trigger] pre[i]).0 == pre[i - 1].1 + 1);
        lemma_contiguous_sum(pre);
        assert(pre[0] == cs[0]);
        assert(pre.last() == cs[cs.len() - 2]);
        assert(cs[cs.len() - 1].0 == cs[cs.len() - 2].1 + 1);
        assert(chunks_size_sum(cs) == chunks_size_sum(pre) + chunk_len(cs.last()));
    }
}

/// A well-formed plan's ranges sum to exactly `total_size` bytes.
pub proof fn lemma_chunks_cover_total(cs: Seq<(u64, u64)>, total_size: u64)
    requires
        chunks_wf(cs, total_size),
        total_size >= 1,
    ensures
        chunks_size_sum(cs) == total_size as int,
{
    lemma_contiguous_sum(cs);
}

/// The number of ranges the planner emits: the requested thread count,
/// capped by the host parallelism and by one range per byte.
pub open spec fn planned_chunk_count(total_size: u64, threads: usize, cpu_cap: usize) -> int {
    let a = if threads as int <= total_size as int {
        threads as int
    } else {
        total_size as int
    };
    if a <= cpu_cap as int {
        a
    } else {
        cpu_cap as int
    }
}

/// An n-th of the transfer, rounded down: the least size a balanced range
/// may have.
pub open spec fn fair_share(total_size: u64, n: int) -> int {
    total_size as int / n
}

/// Every range holds an n-th of the transfer, rounded down or up.
pub open spec fn chunks_balanced(cs: Seq<(u64, u64)>, total_size: u64) -> bool {
    forall|j: int|
        0 <= j < cs.len() ==> fair_share(total_size, cs.len() as int) <= chunk_len(
            #[trigger] cs[j],
        ) <= fair_share(total_size, cs.len() as int) + 1
}

/// Partition `total_size` bytes into balanced, contiguous, ascending
/// inclusive ranges: one per requested thread, capped by `cpu_cap` and by
/// one range per byte, each holding an n-th of the transfer rounded down
/// or up.
pub fn plan_chunks(total_size: u64, threads: usize, cpu_cap: usize) -> (chunks: Vec<(u64, u64)>)
    requires
        total_size >= 1,
        threads >= 1,
        cpu_cap >= 1,
    ensures
        chunks_wf(chunks@, total_size),
        chunks@.len() == planned_chunk_count(total_size, threads, cpu_cap),
        chunks@.len() <= threads,
        chunks@.len() <= cpu_cap,
        chunks@.len() <= total_size,
        chunks_balanced(chunks@, total_size),
{
    let mut chunks: Vec<(u64, u64)> = Vec::new();
    let mut remaining: u64 = total_size;
    let mut start: u64 = 0;

    let min_chunk: u64 = if MIN_CHUNK_SIZE >= 1 {
        MIN_CHUNK_SIZE
    } else {
        1
    };
    let max_reasonable: u64 = total_size / min_chunk;
    let cap: u64 = if max_reasonable >= 1 {
        max_reasonable
    } else {
        1
    };
    let t64: u64 = threads as u64;
    let clamped: u64 = if t64 >= cap {
        cap
    } else {
        t64
    };
    let cpu64: u64 = cpu_cap as u64;
    let n64: u64 = if clamped >= cpu64 {
        cpu64
    } else {
        clamped
    };
    let n: usize = n64 as usize;
    let ghost f = fair_share(total_size, n as int);

    proof {
        assert(n as int * f <= total_size as int <= n as int * (f + 1)) by (nonlinear_arith)
            requires
                f == total_size as int / n as int,
                n >= 1,
        ;
    }
    let mut i: usize = 0;
    loop
        invariant_except_break
            i < n,
        invariant
            1 <= n <= threads,
            n <= cpu_cap,
            n as u64 <= total_size,
            n as int == planned_chunk_count(total_size, threads, cpu_cap),
            f == fair_share(total_size, n as int),
            f >= 0,
            i <= n,
            chunks@.len() == i,
            start == total_size - remaining,
            remaining >= n - i,
            ((n - i) as int) * f <= remaining as int,
            remaining as int <= ((n - i) as int) * (f + 1),
            i == 0 ==> start == 0,
            i > 0 ==> chunks@[0].0 == 0,
            i > 0 ==> chunks@[i - 1].1 == start - 1,
            forall|j: int| 0 <= j < i ==> (#[trigger] chunks@[j]).0 <= chunks@[j].1,
            forall|j: int| 1 <= j < i ==> (#[trigger] chunks@[j]).0 == chunks@[j - 1].1 + 1,
            forall|j: int| 0 <= j < i ==> f <= chunk_len(#[trigger] chunks@[j]) <= f + 1,
            i <= start,
        ensures
            i == n,
            remaining == 0,
        decreases n - i,
    {
        let chunk_size: u64 = if i == n - 1 {
            proof {
                assert(((n - i) as int) * f == f && ((n - i) as int) * (f + 1) == f + 1)
                    by (nonlinear_arith)
                    requires
                        (n - i) as int == 1,
                ;
                assert(f <= remaining as int <= f + 1);
            }
            remaining
        } else {
            let share: u64 = (n - i) as u64;
            let avg: u64 = remaining / share;
            proof {
                assert(avg >= 1) by (nonlinear_arith)
                    requires
                        avg == remaining / share,
                        remaining >= share,
                        share >= 1,
                ;
                assert(remaining - avg >= share - 1) by (nonlinear_arith)
                    requires
                        avg == remaining / share,
                        remaining >= share,
                        share >= 2,
                ;
                assert(f <= avg) by (nonlinear_arith)
                    requires
                        avg == remaining / share,
                        share as int * f <= remaining as int,
                        share >= 1,
                        f >= 0,
                ;
                assert(avg <= f + 1) by (nonlinear_arith)
                    requires
                        avg == remaining / share,
                        remaining as int <= share as int * (f + 1),
                        share >= 1,
                        f >= 0,
                ;
                assert((share - 1) as int * f <= remaining - avg) by (nonlinear_arith)
                    requires
                        avg == remaining / share,
                        share as int * f <= remaining as int,
                        share >= 2,
                        f >= 0,
                ;
                assert(remaining - avg <= (share - 1) as int * (f + 1)) by (nonlinear_arith)
                    requires
                        avg == remaining / share,
                        remaining as int <= share as int * (f + 1),
                        share >= 2,
                        f >= 0,
                ;
            }
            let grown: u64 = if avg >= MIN_CHUNK_SIZE {
                avg
            } else {
                MIN_CHUNK_SIZE
            };
            proof {
                assert(grown == avg);
                assert(grown < remaining);
            }
            if grown >= remaining {
                remaining
            } else {
                grown
            }
        };
        proof {
            assert(f <= chunk_size as int <= f + 1);
        }
        let end: u64 = start + (chunk_size - 1);
        chunks.push((start, end));
        proof {
            assert(chunk_len(chunks@[chunks@.len() - 1]) == chunk_size as int);
        }

        start = start + chunk_size;
        remaining = remaining - chunk_size;
        i = i + 1;

        if remaining == 0 {
            proof {
                assert(i == n);
                assert(((n - i) as int) * f == 0 && ((n - i) as int) * (f + 1) == 0)
                    by (nonlinear_arith)
                    requires
                        (n - i) as int == 0,
                ;
            }
            break;
        }
        if i >= n {
            proof {
                assert(false);
            }
            break;
        }
    }
    proof {
        assert(chunks@[chunks@.len() - 1].1 == total_size - 1);
        assert(chunks_balanced(chunks@, total_size));
    }
    chunks
}

/// Partition a transfer using the host's available parallelism as the cap.
pub fn plan(total_size: u64, threads: usize) -> (chunks: Vec<(u64, u64)>)
    requires
        total_size >= 1,
        threads >= 1,
    ensures
        chunks_wf(chunks@, total_size),
        chunks@.len() <= threads,
        chunks@.len() <= total_size,
        chunks_balanced(chunks@, total_size),
{
    let cpu_cap = available_parallelism();
    plan_chunks(total_size, threads, cpu_cap)
}

} // verus!
