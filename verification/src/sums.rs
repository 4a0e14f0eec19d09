//! Sums over particles.
//!
//! A field of the simulation is a sum of one term per particle. Most terms
//! vanish, namely those of the particles out of reach, so the executable
//! code adds up the terms of a neighbour list only. The lemmas here show
//! that the two sums agree.

use vstd::prelude::*;

verus! {

/// The term `f(j)` of a sum.
pub open spec fn term(f: spec_fn(int) -> int, j: int) -> int {
    f(j)
}

/// The sum of `f(j)` for `j` from 0 up to, but not including, `n`.
pub open spec fn range_sum(f: spec_fn(int) -> int, n: int) -> int
    decreases n,
{
    if n <= 0 {
        0
    } else {
        range_sum(f, n - 1) + f(n - 1)
    }
}

/// The sum of `f(id)` over the ids of a list.
pub open spec fn list_sum(f: spec_fn(int) -> int, ids: Seq<usize>) -> int
    decreases ids.len(),
{
    if ids.len() == 0 {
        0
    } else {
        list_sum(f, ids.drop_last()) + f(ids.last() as int)
    }
}

/// Appending an id to a list adds its term to the sum.
pub proof fn lemma_list_sum_push(f: spec_fn(int) -> int, ids: Seq<usize>, id: usize)
    ensures
        list_sum(f, ids.push(id)) == list_sum(f, ids) + f(id as int),
{
    assert(ids.push(id).drop_last() =~= ids);
}

/// Taking an id out of a list takes its term out of the sum.
pub proof fn lemma_list_sum_remove(f: spec_fn(int) -> int, ids: Seq<usize>, k: int)
    requires
        0 <= k < ids.len(),
    ensures
        list_sum(f, ids) == list_sum(f, ids.remove(k)) + f(ids[k] as int),
    decreases ids.len(),
{
    if k == ids.len() - 1 {
        assert(ids.remove(k) =~= ids.drop_last());
    } else {
        lemma_list_sum_remove(f, ids.drop_last(), k);
        assert(ids.remove(k).drop_last() =~= ids.drop_last().remove(k));
    }
}

/// Taking the id `n - 1` out of a list of distinct ids below `n` leaves a
/// list of distinct ids below `n - 1` that holds the same other ids.
pub proof fn lemma_remove_largest(ids: Seq<usize>, n: int, k: int)
    requires
        0 < n <= usize::MAX,
        ids.no_duplicates(),
        forall|m: int| 0 <= m < ids.len() ==> (#[trigger] ids[m]) < n,
        0 <= k < ids.len(),
        ids[k] == n - 1,
    ensures
        ids.remove(k).len() == ids.len() - 1,
        ids.remove(k).no_duplicates(),
        forall|m: int| 0 <= m < ids.remove(k).len() ==> (#[trigger] ids.remove(k)[m]) < n - 1,
        forall|id: usize|
            id != n - 1 && ids.contains(id) ==> #[trigger] ids.remove(k).contains(id),
{
    let rest: Seq<usize> = ids.remove(k);
    assert forall|m: int| 0 <= m < rest.len() implies (#[trigger] rest[m]) < n - 1 by {
        if m < k {
            assert(rest[m] == ids[m]);
        } else {
            assert(rest[m] == ids[m + 1]);
        }
    }
    assert forall|id: usize| id != n - 1 && ids.contains(id) implies #[trigger] rest.contains(
        id,
    ) by {
        let m: int = choose|m: int| 0 <= m < ids.len() && ids[m] == id;
        if m < k {
            assert(rest[m] == id);
        } else {
            assert(rest[m - 1] == id);
        }
    }
}

/// A list of distinct ids below `n` that holds every id whose term is not
/// zero sums to the same as all ids below `n`.
pub proof fn lemma_list_sum_covers(f: spec_fn(int) -> int, ids: Seq<usize>, n: int)
    requires
        0 <= n <= usize::MAX,
        ids.no_duplicates(),
        forall|k: int| 0 <= k < ids.len() ==> (#[trigger] ids[k]) < n,
        forall|j: int| 0 <= j < n && #[trigger] term(f, j) != 0 ==> ids.contains(j as usize),
    ensures
        list_sum(f, ids) == range_sum(f, n),
    decreases n,
{
    if n == 0 {
        if ids.len() > 0 {
            assert(ids[0] < 0);
        }
    } else {
        let last: int = n - 1;
        if ids.contains(last as usize) {
            let k: int = choose|k: int| 0 <= k < ids.len() && ids[k] == last as usize;
            let rest: Seq<usize> = ids.remove(k);
            lemma_list_sum_remove(f, ids, k);
            lemma_remove_largest(ids, n, k);
            assert forall|j: int| 0 <= j < n - 1 && #[trigger] term(f, j) != 0 implies rest.contains(
                j as usize,
            ) by {
                assert(ids.contains(j as usize));
            }
            lemma_list_sum_covers(f, rest, n - 1);
        } else {
            assert(term(f, last) == 0);
            lemma_list_sum_covers(f, ids, n - 1);
        }
    }
}

/// A list of distinct ids below `n` has at most `n` entries.
pub proof fn lemma_distinct_ids_are_few(ids: Seq<usize>, n: int)
    requires
        0 <= n <= usize::MAX,
        ids.no_duplicates(),
        forall|k: int| 0 <= k < ids.len() ==> (#[trigger] ids[k]) < n,
    ensures
        ids.len() <= n,
    decreases n,
{
    if n == 0 {
        if ids.len() > 0 {
            assert(ids[0] < 0);
        }
    } else if ids.contains((n - 1) as usize) {
        let k: int = choose|k: int| 0 <= k < ids.len() && ids[k] == (n - 1) as usize;
        lemma_remove_largest(ids, n, k);
        lemma_distinct_ids_are_few(ids.remove(k), n - 1);
    } else {
        lemma_distinct_ids_are_few(ids, n - 1);
    }
}

/// A sum of terms that are never negative is never negative, and at least
/// as large as any one of its terms.
pub proof fn lemma_range_sum_lower(f: spec_fn(int) -> int, n: int, i: int)
    requires
        forall|j: int| 0 <= j < n ==> #[trigger] term(f, j) >= 0,
    ensures
        range_sum(f, n) >= 0,
        0 <= i < n ==> range_sum(f, n) >= f(i),
    decreases n,
{
    if n > 0 {
        lemma_range_sum_lower(f, n - 1, i);
        assert(term(f, n - 1) >= 0);
    }
}

/// A sum whose terms all vanish is zero.
pub proof fn lemma_range_sum_zero(f: spec_fn(int) -> int, n: int)
    requires
        forall|j: int| 0 <= j < n ==> #[trigger] term(f, j) == 0,
    ensures
        range_sum(f, n) == 0,
    decreases n,
{
    if n > 0 {
        lemma_range_sum_zero(f, n - 1);
        assert(term(f, n - 1) == 0);
    }
}

/// A sum with at most one term that does not vanish is that term.
pub proof fn lemma_range_sum_single(f: spec_fn(int) -> int, n: int, i: int)
    requires
        0 <= i < n,
        forall|j: int| 0 <= j < n && j != i ==> #[trigger] term(f, j) == 0,
    ensures
        range_sum(f, n) == f(i),
    decreases n,
{
    if n - 1 == i {
        lemma_range_sum_zero(f, n - 1);
    } else {
        lemma_range_sum_single(f, n - 1, i);
        assert(term(f, n - 1) == 0);
    }
}

} // verus!
