//! The first of something.

use vstd::prelude::*;

verus! {

/// The first number from `k` on, below `n`, with a property; `n` where there is
/// none.
pub open spec fn first_from(k: int, n: int, p: spec_fn(int) -> bool) -> int
    decreases n - k,
{
    if k >= n {
        n
    } else if p(k) {
        k
    } else {
        first_from(k + 1, n, p)
    }
}

/// The first number below `n` with a property; `n` where there is none.
pub open spec fn first(n: int, p: spec_fn(int) -> bool) -> int {
    first_from(0, n, p)
}

proof fn lemma_first_from(j: int, k: int, n: int, p: spec_fn(int) -> bool)
    requires
        j <= k <= n,
        forall|i: int| j <= i < k ==> !#[trigger] p(i),
        k < n ==> p(k),
    ensures
        first_from(j, n, p) == k,
    decreases n - j,
{
    if j < k {
        assert(!p(j));
        lemma_first_from(j + 1, k, n, p);
    }
}

pub proof fn lemma_first(k: int, n: int, p: spec_fn(int) -> bool)
    requires
        0 <= k <= n,
        forall|i: int| 0 <= i < k ==> !#[trigger] p(i),
        k < n ==> p(k),
    ensures
        first(n, p) == k,
{
    lemma_first_from(0, k, n, p);
}

proof fn lemma_first_from_is(j: int, n: int, p: spec_fn(int) -> bool)
    requires
        j <= n,
    ensures
        j <= first_from(j, n, p) <= n,
        first_from(j, n, p) < n ==> p(first_from(j, n, p)),
        forall|i: int| j <= i < first_from(j, n, p) ==> !#[trigger] p(i),
    decreases n - j,
{
    if j < n && !p(j) {
        lemma_first_from_is(j + 1, n, p);
        assert forall|i: int| j <= i < first_from(j, n, p) implies !#[trigger] p(i) by {
            if i > j {
                assert(j + 1 <= i);
            }
        }
    }
}

/// The first number with a property has it, and none before it does.
pub proof fn lemma_first_is(n: int, p: spec_fn(int) -> bool)
    requires
        0 <= n,
    ensures
        0 <= first(n, p) <= n,
        first(n, p) < n ==> p(first(n, p)),
        forall|i: int| 0 <= i < first(n, p) ==> !#[trigger] p(i),
{
    lemma_first_from_is(0, n, p);
}

} // verus!
