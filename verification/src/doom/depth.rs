//! The order in which sprites and fireballs are drawn: the far ones first, so that
//! the near ones cover them.

use vstd::prelude::*;

verus! {

/// Sprites and fireballs together.
pub const BILLBOARDS: usize = 13;

/// Of two things, `a` is drawn before `b`: it is farther away, or as far away and
/// comes first in the list.
pub open spec fn drawn_before(distances: Seq<u32>, a: int, b: int) -> bool {
    distances[a] > distances[b] || distances[a] == distances[b] && a < b
}

/// The order holds each of the first `n` things once, each after those that are
/// drawn before it.
pub open spec fn is_order(distances: Seq<u32>, order: Seq<usize>, n: int) -> bool {
    &&& order.len() == n
    &&& forall|i: int| 0 <= i < n ==> #[trigger] order[i] < n
    &&& forall|k: usize| k < n ==> #[trigger] order.contains(k)
    &&& forall|i: int, j: int|
        0 <= i < j < n ==> drawn_before(
            distances,
            #[trigger] order[i] as int,
            #[trigger] order[j] as int,
        )
}

/// An order with one more thing in it.
proof fn lemma_inserted(distances: Seq<u32>, order: Seq<usize>, n: int, at: int)
    requires
        0 <= n < distances.len(),
        n < usize::MAX,
        is_order(distances, order, n),
        0 <= at <= n,
        forall|i: int| 0 <= i < at ==> distances[#[trigger] order[i] as int] >= distances[n],
        forall|i: int| at <= i < n ==> distances[#[trigger] order[i] as int] < distances[n],
    ensures
        is_order(distances, order.insert(at, n as usize), n + 1),
{
    let longer = order.insert(at, n as usize);
    assert forall|k: usize| k < n + 1 implies #[trigger] longer.contains(k) by {
        if k == n {
            assert(longer[at] == k);
        } else {
            assert(order.contains(k));
            let i = choose|i: int| 0 <= i < order.len() && order[i] == k;
            if i < at {
                assert(longer[i] == k);
            } else {
                assert(longer[i + 1] == k);
            }
        }
    }
    assert forall|i: int, j: int| 0 <= i < j < n + 1 implies drawn_before(
        distances,
        #[trigger] longer[i] as int,
        #[trigger] longer[j] as int,
    ) by {
        let a = if i < at {
            i
        } else {
            i - 1
        };
        let b = if j < at {
            j
        } else {
            j - 1
        };
        if i != at {
            assert(longer[i] == order[a]);
            assert(order[a] < n);
        }
        if j != at {
            assert(longer[j] == order[b]);
            assert(order[b] < n);
        }
        if i != at && j != at {
            assert(drawn_before(distances, order[a] as int, order[b] as int));
        }
    }
}

/// The order in which things at these distances are drawn.
pub fn far_to_near(distances: &[u32; BILLBOARDS]) -> (order: [usize; BILLBOARDS])
    ensures
        is_order(distances@, order@, BILLBOARDS as int),
{
    let mut order: [usize; BILLBOARDS] = [0; BILLBOARDS];
    let mut n: usize = 0;
    assert(order@.take(0) =~= Seq::<usize>::empty());
    while n < BILLBOARDS
        invariant
            n <= BILLBOARDS,
            is_order(distances@, order@.take(n as int), n as int),
        decreases BILLBOARDS - n,
    {
        let ghost sorted = order@.take(n as int);
        let mut at: usize = n;
        assert(forall|i: int| 0 <= i < n ==> sorted[i] == order@[i]);
        while at > 0 && distances[order[at - 1]] < distances[n]
            invariant
                at <= n < BILLBOARDS,
                is_order(distances@, sorted, n as int),
                forall|i: int| 0 <= i < at ==> #[trigger] order@[i] == sorted[i],
                forall|i: int| at < i <= n ==> #[trigger] order@[i] == sorted[i - 1],
                forall|i: int|
                    at <= i < n ==> distances@[#[trigger] sorted[i] as int] < distances@[n as int],
                forall|i: int| 0 <= i < n ==> #[trigger] sorted[i] < n,
            decreases at,
        {
            order[at] = order[at - 1];
            at -= 1;
        }
        order[at] = n;
        proof {
            assert forall|i: int| 0 <= i < at implies distances@[#[trigger] sorted[i] as int]
                >= distances@[n as int] by {
                let last = at - 1;
                assert(order@[last] == sorted[last]);
                if i < last {
                    assert(drawn_before(distances@, sorted[i] as int, sorted[last] as int));
                }
            }
            lemma_inserted(distances@, sorted, n as int, at as int);
            assert(order@.take(n + 1) =~= sorted.insert(at as int, n));
        }
        n += 1;
    }
    assert(order@.take(BILLBOARDS as int) =~= order@);
    order
}

/// There is one such order and no other.
pub proof fn law_order_is_unique(
    distances: Seq<u32>,
    first: Seq<usize>,
    second: Seq<usize>,
    n: nat,
)
    requires
        is_order(distances, first, n as int),
        is_order(distances, second, n as int),
    ensures
        first == second,
{
    assert forall|i: int| 0 <= i < n implies first[i] == second[i] by {
        lemma_same_place(distances, first, second, n, i);
    }
    assert(first =~= second);
}

proof fn lemma_same_place(
    distances: Seq<u32>,
    first: Seq<usize>,
    second: Seq<usize>,
    n: nat,
    i: int,
)
    requires
        is_order(distances, first, n as int),
        is_order(distances, second, n as int),
        0 <= i < n,
    ensures
        first[i] == second[i],
    decreases i,
{
    assert forall|j: int| 0 <= j < i implies first[j] == second[j] by {
        lemma_same_place(distances, first, second, n, j);
    }
    assert(second.contains(first[i]));
    let k = choose|k: int| 0 <= k < n && second[k] == first[i];
    assert(first.contains(second[i]));
    let m = choose|m: int| 0 <= m < n && first[m] == second[i];
    if k < i {
        assert(first[k] == second[k]);
        assert(drawn_before(distances, first[k] as int, first[i] as int));
    } else if m < i {
        assert(second[m] == first[m]);
        assert(drawn_before(distances, second[m] as int, second[i] as int));
    } else if k > i && m > i {
        assert(drawn_before(distances, second[i] as int, second[k] as int));
        assert(drawn_before(distances, first[i] as int, first[m] as int));
    }
}

/// Things are drawn from the far to the near, each once, and things that are as far
/// away in their order.
pub proof fn law_near_covers_far(distances: Seq<u32>, order: Seq<usize>, n: int, i: int, j: int)
    requires
        is_order(distances, order, n),
        0 <= i < j < n,
    ensures
        order.no_duplicates(),
        distances[order[i] as int] >= distances[order[j] as int],
        distances[order[i] as int] == distances[order[j] as int] ==> order[i] < order[j],
{
    assert(drawn_before(distances, order[i] as int, order[j] as int));
    assert forall|a: int, b: int| 0 <= a < b < n implies order[a] != order[b] by {
        assert(drawn_before(distances, order[a] as int, order[b] as int));
    }
}

} // verus!
