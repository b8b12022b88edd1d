//! Decisions about when and how to split work for parallel processing.
use vstd::prelude::*;

verus! {

/// The parallel threshold in force: the configured one, else the default.
pub open spec fn threshold_in_force(threshold: Option<usize>) -> usize {
    match threshold {
        Some(t) => t,
        None => super::DEFAULT_PARALLEL_THRESHOLD,
    }
}

/// Whether an operation over `size` items should run in parallel: exactly
/// when `size` reaches the configured threshold (`threshold`, the
/// configuration's parallel threshold when there is a configuration) or,
/// without one, the default threshold.
pub fn should_parallelize(size: usize, threshold: Option<usize>) -> (r: bool)
    ensures
        r == (size >= threshold_in_force(threshold)),
{
    let threshold = match threshold {
        Some(t) => t,
        None => super::DEFAULT_PARALLEL_THRESHOLD,
    };
    size >= threshold
}

/// With a configured threshold, an operation is parallelised exactly when
/// its size reaches that threshold, whatever the threshold is; without one,
/// exactly when it reaches the default threshold.
pub proof fn lemma_should_parallelize_threshold(size: usize, threshold: usize)
    ensures
        (size >= threshold_in_force(Some(threshold))) == (size >= threshold),
        (size >= threshold_in_force(None)) == (size >= super::DEFAULT_PARALLEL_THRESHOLD),
{
}

/// Whether a larger operation is parallelised whenever a smaller one is,
/// under the same threshold.
pub proof fn lemma_should_parallelize_monotone(small: usize, large: usize, threshold: Option<
    usize,
>)
    requires
        small <= large,
    ensures
        small >= threshold_in_force(threshold) ==> large >= threshold_in_force(threshold),
{
}

/// The smallest chunk a parallel job is split into.
pub const MIN_CHUNK_SIZE: usize = 100;

/// The chunk size for splitting `total_size` items over `threads` threads:
/// `total_size` divided by `threads` rounded up, but never below
/// `MIN_CHUNK_SIZE`.
pub open spec fn chunk_size(total_size: nat, threads: nat) -> nat {
    let per_thread = (total_size + threads - 1) / (threads as int);
    if per_thread >= MIN_CHUNK_SIZE {
        per_thread as nat
    } else {
        MIN_CHUNK_SIZE as nat
    }
}

/// Computes the chunk size for splitting `total_size` items over a given
/// number of threads (at least one): the items per thread, rounded up, and
/// at least `MIN_CHUNK_SIZE`. Chunks of that size, one per thread, cover
/// all items.
pub fn parallel_chunk_size(total_size: usize, num_threads: usize) -> (chunk: usize)
    requires
        num_threads >= 1,
    ensures
        chunk == chunk_size(total_size as nat, num_threads as nat),
        chunk >= MIN_CHUNK_SIZE,
        chunk * num_threads >= total_size,
{
    let quotient = total_size / num_threads;
    proof {
        let t = total_size as int;
        let n = num_threads as int;
        assert(t % n != 0 ==> quotient < usize::MAX) by (nonlinear_arith)
            requires
                n >= 1,
                t >= 0,
                t <= usize::MAX,
                quotient == t / n,
        ;
    }
    let per_thread = if total_size % num_threads == 0 {
        quotient
    } else {
        quotient + 1
    };
    proof {
        let t = total_size as int;
        let n = num_threads as int;
        assert(per_thread == (t + n - 1) / n && per_thread * n >= t) by (nonlinear_arith)
            requires
                n >= 1,
                t >= 0,
                per_thread == (if t % n == 0 { t / n } else { t / n + 1 }),
        ;
    }
    if per_thread >= MIN_CHUNK_SIZE {
        per_thread
    } else {
        proof {
            assert(MIN_CHUNK_SIZE * num_threads >= per_thread * num_threads) by (nonlinear_arith)
                requires
                    per_thread < MIN_CHUNK_SIZE,
            ;
        }
        MIN_CHUNK_SIZE
    }
}

} // verus!
