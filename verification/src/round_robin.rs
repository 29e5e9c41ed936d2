//! The mathematical model of round-robin dispatch: given the sorted sequence
//! of registered identifiers and the current one, which identifier runs
//! next, and what a run of consecutive scheduling steps visits.

use vstd::prelude::*;

verus! {

/// A sequence of identifiers in strictly ascending order, as the
/// scheduler's registry keeps them.
pub open spec fn sorted_strict(ids: Seq<u64>) -> bool {
    forall|i: int, j: int| 0 <= i < j < ids.len() ==> ids[i] < ids[j]
}

/// The first identifier in `ids` strictly greater than `c`, scanning left
/// to right; `None` if every identifier is at most `c`.
pub open spec fn first_greater(ids: Seq<u64>, c: u64) -> Option<u64>
    decreases ids.len(),
{
    if ids.len() == 0 {
        None
    } else if ids[0] > c {
        Some(ids[0])
    } else {
        first_greater(ids.drop_first(), c)
    }
}

/// The identifier that runs after `cur` in round-robin order: the smallest
/// registered identifier strictly greater than the current one, or — when
/// there is no current identifier, or the current one is the largest — the
/// smallest registered identifier overall. `None` only when the registry is
/// empty.
pub open spec fn next_after(ids: Seq<u64>, cur: Option<u64>) -> Option<u64> {
    if ids.len() == 0 {
        None
    } else {
        match cur {
            None => Some(ids[0]),
            Some(c) => match first_greater(ids, c) {
                Some(x) => Some(x),
                None => Some(ids[0]),
            },
        }
    }
}

/// The current identifier after `n` consecutive scheduling steps, starting
/// from no current identifier.
pub open spec fn rr_iter(ids: Seq<u64>, n: nat) -> Option<u64>
    decreases n,
{
    if n == 0 {
        None
    } else {
        next_after(ids, rr_iter(ids, (n - 1) as nat))
    }
}

/// Scanning for the first identifier greater than `c` may skip any prefix
/// of identifiers that are at most `c`.
pub proof fn lemma_first_greater_skip(ids: Seq<u64>, c: u64, i: int)
    requires
        0 <= i <= ids.len(),
        forall|k: int| 0 <= k < i ==> ids[k] <= c,
    ensures
        first_greater(ids, c) == first_greater(ids.skip(i), c),
    decreases i,
{
    if i > 0 {
        assert(ids.drop_first() =~= ids.skip(1));
        lemma_first_greater_skip(ids.skip(1), c, i - 1);
        assert(ids.skip(1).skip(i - 1) =~= ids.skip(i));
    } else {
        assert(ids.skip(0) =~= ids);
    }
}

/// Whatever `first_greater` finds is a registered identifier, and it is
/// strictly greater than the bound it was asked for.
proof fn lemma_first_greater_found(ids: Seq<u64>, c: u64)
    ensures
        match first_greater(ids, c) {
            Some(x) => ids.contains(x) && x > c,
            None => forall|k: int| 0 <= k < ids.len() ==> ids[k] <= c,
        },
    decreases ids.len(),
{
    if ids.len() > 0 && !(ids[0] > c) {
        lemma_first_greater_found(ids.drop_first(), c);
        assert(forall|k: int|
            1 <= k < ids.len() ==> #[trigger] ids[k] == ids.drop_first()[k - 1]);
        match first_greater(ids.drop_first(), c) {
            Some(x) => {
                let k = choose|k: int|
                    0 <= k < ids.drop_first().len() && ids.drop_first()[k] == x;
                assert(ids[k + 1] == x);
                assert(ids.contains(x));
            },
            None => {},
        }
    }
}

/// The identifier chosen to run next is always a registered one.
pub proof fn lemma_next_after_registered(ids: Seq<u64>, cur: Option<u64>)
    requires
        ids.len() > 0,
    ensures
        match next_after(ids, cur) {
            Some(x) => ids.contains(x),
            None => false,
        },
{
    assert(ids.contains(ids[0]));
    match cur {
        None => {},
        Some(c) => {
            lemma_first_greater_found(ids, c);
        },
    }
}

/// Round-robin order is ascending identifier order: from any registered
/// identifier other than the largest, the next one to run is its immediate
/// successor in the sorted registry.
pub proof fn lemma_next_after_ascending(ids: Seq<u64>, k: int)
    requires
        sorted_strict(ids),
        0 <= k,
        k + 1 < ids.len(),
    ensures
        next_after(ids, Some(ids[k])) == Some(ids[k + 1]),
{
    lemma_first_greater_skip(ids, ids[k], k + 1);
    assert(ids.skip(k + 1)[0] == ids[k + 1]);
}

/// Round-robin order wraps around: from the largest registered identifier,
/// the next one to run is the smallest registered identifier.
pub proof fn lemma_next_after_wraparound(ids: Seq<u64>)
    requires
        sorted_strict(ids),
        ids.len() > 0,
    ensures
        next_after(ids, Some(ids[ids.len() - 1])) == Some(ids[0]),
{
    lemma_first_greater_skip(ids, ids[ids.len() - 1], ids.len() as int);
    assert(ids.skip(ids.len() as int) =~= Seq::<u64>::empty());
}

/// Starting from no current identifier, the `k + 1`-th scheduling step
/// makes the `k`-th registered identifier current: consecutive steps visit
/// every registered identifier in ascending order.
pub proof fn lemma_round_robin_visits_in_order(ids: Seq<u64>, k: int)
    requires
        sorted_strict(ids),
        0 <= k < ids.len(),
    ensures
        rr_iter(ids, (k + 1) as nat) == Some(ids[k]),
    decreases k,
{
    if k == 0 {
        assert(rr_iter(ids, 0) == None::<u64>);
    } else {
        lemma_round_robin_visits_in_order(ids, k - 1);
        lemma_next_after_ascending(ids, k - 1);
    }
}

/// Within the first full cycle no identifier repeats: two different steps
/// among the first `ids.len()` make two different identifiers current.
pub proof fn lemma_round_robin_no_repeat(ids: Seq<u64>, j: int, k: int)
    requires
        sorted_strict(ids),
        0 <= j < k < ids.len(),
    ensures
        rr_iter(ids, (j + 1) as nat) != rr_iter(ids, (k + 1) as nat),
{
    lemma_round_robin_visits_in_order(ids, j);
    lemma_round_robin_visits_in_order(ids, k);
}

} // verus!
