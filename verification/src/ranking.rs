use vstd::prelude::*;

verus! {

/// How much a container consumes, as the four measures by which containers are
/// ranked. `cpu` and `memory` stand for the measured CPU and memory fractions
/// by keys with the same order (a larger key is a larger fraction, equal keys
/// are equal fractions).
#[derive(Debug, Clone, Copy, PartialEq, Eq)]
pub struct UsageKey {
    pub cpu: u64,
    pub memory: u64,
    pub vsz: u64,
    pub rss: u64,
}

/// Whether `a` consumes more than `b`: more CPU; or as much CPU and more
/// memory; or as much of both and a larger virtual size; or as much of those
/// three and a larger resident size.
pub open spec fn uses_more(a: UsageKey, b: UsageKey) -> bool {
    ||| a.cpu > b.cpu
    ||| a.cpu == b.cpu && a.memory > b.memory
    ||| a.cpu == b.cpu && a.memory == b.memory && a.vsz > b.vsz
    ||| a.cpu == b.cpu && a.memory == b.memory && a.vsz == b.vsz && a.rss > b.rss
}

/// Whether entry `i` comes before entry `j` when `keys` are listed from the
/// largest consumer down, entries that consume alike keeping their order.
pub open spec fn ranks_before(keys: Seq<UsageKey>, i: int, j: int) -> bool {
    uses_more(keys[i], keys[j]) || (keys[i] == keys[j] && i < j)
}

/// `order` lists every index of `keys` once, from the largest consumer down,
/// entries that consume alike in their original order.
pub open spec fn is_consumption_order(keys: Seq<UsageKey>, order: Seq<usize>) -> bool {
    &&& order.len() == keys.len()
    &&& forall|i: int| 0 <= i < order.len() ==> #[trigger] order[i] < keys.len()
    &&& forall|x: usize| x < keys.len() ==> #[trigger] order.contains(x)
    &&& forall|i: int, j: int|
        0 <= i < j < order.len() ==> ranks_before(keys, #[trigger] order[i] as int, #[trigger] order[j] as int)
}

/// `ranks_before` is a strict total order on the indices of `keys`.
pub proof fn lemma_ranks_before_strict_total(keys: Seq<UsageKey>, i: int, j: int, k: int)
    ensures
        !ranks_before(keys, i, i),
        ranks_before(keys, i, j) ==> !ranks_before(keys, j, i),
        i != j ==> ranks_before(keys, i, j) || ranks_before(keys, j, i),
        ranks_before(keys, i, j) && ranks_before(keys, j, k) ==> ranks_before(keys, i, k),
{
}

/// The first `k` entries of two consumption orders of the same keys agree.
proof fn lemma_consumption_order_prefix(keys: Seq<UsageKey>, a: Seq<usize>, b: Seq<usize>, k: int)
    requires
        is_consumption_order(keys, a),
        is_consumption_order(keys, b),
        0 <= k <= a.len(),
    ensures
        a.subrange(0, k) == b.subrange(0, k),
    decreases k,
{
    if k > 0 {
        lemma_consumption_order_prefix(keys, a, b, k - 1);
        let x: usize = a[k - 1];
        let y: usize = b[k - 1];
        if x != y {
            lemma_ranks_before_strict_total(keys, x as int, y as int, 0);
            if ranks_before(keys, x as int, y as int) {
                assert(b.contains(x));
                let m: int = choose|m: int| 0 <= m < b.len() && b[m] == x;
                if m < k - 1 {
                    assert(a.subrange(0, k - 1)[m] == b.subrange(0, k - 1)[m]);
                    assert(ranks_before(keys, a[m] as int, a[k - 1] as int));
                    lemma_ranks_before_strict_total(keys, x as int, x as int, 0);
                } else {
                    assert(ranks_before(keys, b[k - 1] as int, b[m] as int));
                }
            } else {
                assert(a.contains(y));
                let m: int = choose|m: int| 0 <= m < a.len() && a[m] == y;
                if m < k - 1 {
                    assert(a.subrange(0, k - 1)[m] == b.subrange(0, k - 1)[m]);
                    assert(ranks_before(keys, b[m] as int, b[k - 1] as int));
                    lemma_ranks_before_strict_total(keys, y as int, y as int, 0);
                } else {
                    assert(ranks_before(keys, a[k - 1] as int, a[m] as int));
                }
            }
        }
        assert(a.subrange(0, k) =~= b.subrange(0, k - 1).push(b[k - 1]));
        assert(b.subrange(0, k) =~= b.subrange(0, k - 1).push(b[k - 1]));
    }
}

/// Only one sequence is a consumption order of given keys: the ranking leaves
/// no choice, so it is exactly the stable sort by decreasing consumption.
pub proof fn lemma_consumption_order_unique(keys: Seq<UsageKey>, a: Seq<usize>, b: Seq<usize>)
    requires
        is_consumption_order(keys, a),
        is_consumption_order(keys, b),
    ensures
        a == b,
{
    lemma_consumption_order_prefix(keys, a, b, a.len() as int);
    assert(a =~= a.subrange(0, a.len() as int));
    assert(b =~= b.subrange(0, b.len() as int));
}

/// The consumption order goes down measure by measure, for any keys: of two
/// entries, the earlier has at least as much CPU; with as much CPU, at least as
/// much memory; with as much of both, at least as large a virtual size; with as
/// much of those three, at least as large a resident size; and entries with the
/// same four measures keep their order.
pub proof fn lemma_order_by_measures(keys: Seq<UsageKey>, order: Seq<usize>)
    requires
        is_consumption_order(keys, order),
    ensures
        forall|p: int, q: int|
            0 <= p < q < order.len() ==> {
                let a = keys[#[trigger] order[p] as int];
                let b = keys[#[trigger] order[q] as int];
                &&& a.cpu >= b.cpu
                &&& a.cpu == b.cpu ==> a.memory >= b.memory
                &&& a.cpu == b.cpu && a.memory == b.memory ==> a.vsz >= b.vsz
                &&& a.cpu == b.cpu && a.memory == b.memory && a.vsz == b.vsz ==> a.rss >= b.rss
                &&& a == b ==> order[p] < order[q]
            },
{
}

/// `uses_more(a, b)`, computed.
pub fn uses_more_exec(a: &UsageKey, b: &UsageKey) -> (r: bool)
    ensures
        r == uses_more(*a, *b),
{
    if a.cpu != b.cpu {
        a.cpu > b.cpu
    } else if a.memory != b.memory {
        a.memory > b.memory
    } else if a.vsz != b.vsz {
        a.vsz > b.vsz
    } else {
        a.rss > b.rss
    }
}

/// The indices of `keys` from the largest consumer down; entries that consume
/// alike keep their order (a stable sort by decreasing consumption).
pub fn consumption_order(keys: &Vec<UsageKey>) -> (order: Vec<usize>)
    ensures
        is_consumption_order(keys@, order@),
{
    let n: usize = keys.len();
    let mut order: Vec<usize> = Vec::new();
    for k in 0..n
        invariant
            n == keys.len(),
            order.len() == k,
            forall|i: int| 0 <= i < order.len() ==> #[trigger] order[i] < k,
            forall|x: usize| x < k ==> #[trigger] order@.contains(x),
            forall|i: int, j: int|
                0 <= i < j < order.len() ==> ranks_before(keys@, #[trigger] order[i] as int, #[trigger] order[j] as int),
    {
        let mut p: usize = 0;
        while p < order.len() && !uses_more_exec(&keys[k], &keys[order[p]])
            invariant
                n == keys.len(),
                k < n,
                p <= order.len(),
                forall|i: int| 0 <= i < order.len() ==> #[trigger] order[i] < k,
                forall|q: int| 0 <= q < p ==> ranks_before(keys@, #[trigger] order[q] as int, k as int),
            decreases order.len() - p,
        {
            proof {
                lemma_ranks_before_strict_total(keys@, order[p as int] as int, k as int, 0);
            }
            p = p + 1;
        }
        let ghost old_order = order@;
        order.insert(p, k);
        proof {
            assert(order@ == old_order.insert(p as int, k));
            assert forall|i: int, j: int| 0 <= i < j < order.len() implies ranks_before(
                keys@,
                #[trigger] order[i] as int,
                #[trigger] order[j] as int,
            ) by {
                if i < p && j == p {
                } else if i < p && j > p {
                    assert(order[i] == old_order[i]);
                    assert(order[j] == old_order[j - 1]);
                    assert(ranks_before(keys@, old_order[i] as int, old_order[j - 1] as int));
                } else if i == p {
                    assert(order[j] == old_order[j - 1]);
                    if j - 1 > p {
                        assert(ranks_before(keys@, old_order[p as int] as int, old_order[j - 1] as int));
                        lemma_ranks_before_strict_total(
                            keys@,
                            k as int,
                            old_order[p as int] as int,
                            old_order[j - 1] as int,
                        );
                    }
                } else if i > p {
                    assert(order[i] == old_order[i - 1]);
                    assert(order[j] == old_order[j - 1]);
                    assert(ranks_before(keys@, old_order[i - 1] as int, old_order[j - 1] as int));
                } else {
                    assert(order[i] == old_order[i]);
                    assert(order[j] == old_order[j]);
                    assert(ranks_before(keys@, old_order[i] as int, old_order[j] as int));
                }
            }
            assert forall|x: usize| x < k + 1 implies #[trigger] order@.contains(x) by {
                if x == k {
                    assert(order@[p as int] == k);
                } else {
                    assert(old_order.contains(x));
                    let q: int = choose|q: int| 0 <= q < old_order.len() && old_order[q] == x;
                    if q < p {
                        assert(order@[q] == x);
                    } else {
                        assert(order@[q + 1] == x);
                    }
                }
            }
        }
    }
    order
}

} // verus!
