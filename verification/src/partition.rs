//! Division of the counter space `[0, target)` into contiguous worker ranges.

use vstd::prelude::*;
use vstd::arithmetic::div_mod::{lemma_fundamental_div_mod, lemma_mod_bound};
use vstd::arithmetic::mul::{lemma_mul_inequality, lemma_mul_is_commutative,
    lemma_mul_is_distributive_add};

verus! {

/// First counter of worker `i` out of `workers`.
pub open spec fn spec_worker_start(i: int, workers: int, target: int) -> int {
    i * (target / workers)
}

/// One past the last counter of worker `i`; the last worker absorbs the
/// remainder.
pub open spec fn spec_worker_end(i: int, workers: int, target: int) -> int {
    if i == workers - 1 {
        target
    } else {
        (i + 1) * (target / workers)
    }
}

/// The contiguous counter range assigned to worker `i` of `workers`.
pub fn worker_range(i: u64, workers: u64, target: u64) -> (r: (u64, u64))
    requires
        0 < workers,
        i < workers,
    ensures
        r.0 == spec_worker_start(i as int, workers as int, target as int),
        r.1 == spec_worker_end(i as int, workers as int, target as int),
        r.0 <= r.1 <= target,
{
    let q = target / workers;
    proof {
        lemma_fundamental_div_mod(target as int, workers as int);
        lemma_mul_inequality(i as int, workers as int, q as int);
        lemma_mul_inequality(i as int + 1, workers as int, q as int);
        lemma_mul_is_commutative(workers as int, q as int);
        assert(workers as int * q as int <= target as int);
    }
    let start = i * q;
    let end = if i == workers - 1 {
        target
    } else {
        proof {
            lemma_mul_inequality(i as int, i as int + 1, q as int);
        }
        (i + 1) * q
    };
    (start, end)
}

/// Counter `x` falls in the range of some worker.
pub open spec fn some_worker_covers(x: int, workers: int, target: int) -> bool {
    exists|i: int|
        0 <= i < workers && #[trigger] spec_worker_start(i, workers, target) <= x
            < spec_worker_end(i, workers, target)
}

/// The worker ranges partition `[0, target)` exactly: the first starts at 0,
/// each range ends where the next begins, the last ends at `target`, and
/// every counter below `target` falls in exactly one range.
pub proof fn lemma_partition_exact(workers: int, target: int)
    requires
        0 < workers,
        0 <= target,
    ensures
        spec_worker_start(0, workers, target) == 0,
        spec_worker_end(workers - 1, workers, target) == target,
        forall|i: int|
            0 <= i < workers - 1 ==> #[trigger] spec_worker_end(i, workers, target)
                == spec_worker_start(i + 1, workers, target),
        forall|i: int|
            0 <= i < workers ==> #[trigger] spec_worker_start(i, workers, target)
                <= spec_worker_end(i, workers, target) <= target,
        forall|x: int| 0 <= x < target ==> #[trigger] some_worker_covers(x, workers, target),
{
    let q = target / workers;
    lemma_fundamental_div_mod(target, workers);
    assert forall|i: int|
        0 <= i < workers implies #[trigger] spec_worker_start(i, workers, target)
        <= spec_worker_end(i, workers, target) <= target by {
        lemma_mul_inequality(i, i + 1, q);
        lemma_mul_inequality(i + 1, workers, q);
        lemma_mul_inequality(i, workers, q);
        lemma_mul_is_commutative(workers, q);
    }
    assert forall|x: int| 0 <= x < target implies #[trigger] some_worker_covers(
        x,
        workers,
        target,
    ) by {
        if q > 0 && x / q < workers - 1 {
            let i = x / q;
            lemma_fundamental_div_mod(x, q);
            lemma_mod_bound(x, q);
            lemma_mul_is_distributive_add(q, i, 1);
            lemma_mul_is_commutative(i, q);
            lemma_mul_is_commutative(i + 1, q);
            assert(spec_worker_start(i, workers, target) <= x < spec_worker_end(
                i,
                workers,
                target,
            ));
        } else {
            let i = workers - 1;
            if q > 0 {
                lemma_fundamental_div_mod(x, q);
                lemma_mul_inequality(workers - 1, x / q, q);
                lemma_mul_is_commutative(workers - 1, q);
                lemma_mul_is_commutative(x / q, q);
            }
            assert(spec_worker_start(i, workers, target) <= x < spec_worker_end(
                i,
                workers,
                target,
            ));
        }
    }
}

} // verus!
