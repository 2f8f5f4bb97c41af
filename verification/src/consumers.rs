use vstd::prelude::*;

use crate::ranking::{
    consumption_order, is_consumption_order, lemma_ranks_before_strict_total, ranks_before, uses_more,
    UsageKey,
};

verus! {

/// A running container as the selection sees it: the pid that identifies it
/// and how much it consumes.
pub struct ContainerUsage {
    pub pid: String,
    pub usage: UsageKey,
}

/// The consumption of each container, in order.
pub open spec fn usage_keys(containers: Seq<ContainerUsage>) -> Seq<UsageKey> {
    containers.map_values(|c: ContainerUsage| c.usage)
}

/// The containers listed in the order `order` gives.
pub open spec fn ranked(containers: Seq<ContainerUsage>, order: Seq<usize>) -> Seq<ContainerUsage> {
    order.map_values(|i: usize| containers[i as int])
}

/// The high consumers of a list ranked from the largest consumer down: its
/// first two entries, when it holds more than two.
pub open spec fn high_section<A>(ranked: Seq<A>) -> Seq<A> {
    if ranked.len() > 2 {
        ranked.subrange(0, 2)
    } else {
        Seq::empty()
    }
}

/// The low consumers of a ranked list: its last three entries, when at least
/// three are left once the high consumers are set apart.
pub open spec fn low_section<A>(ranked: Seq<A>) -> Seq<A> {
    if ranked.len() >= 5 {
        ranked.subrange(ranked.len() - 3, ranked.len() as int)
    } else {
        Seq::empty()
    }
}

/// The entries of a ranked list that are stopped: all but the two highest and
/// the three lowest consumers.
pub open spec fn stopped_section<A>(ranked: Seq<A>) -> Seq<A> {
    if ranked.len() > 5 {
        ranked.subrange(2, ranked.len() - 3)
    } else {
        Seq::empty()
    }
}

/// The pids of `items`, in order, leaving out `keep`.
pub open spec fn pids_except(items: Seq<ContainerUsage>, keep: Seq<char>) -> Seq<Seq<char>>
    decreases items.len(),
{
    if items.len() == 0 {
        Seq::empty()
    } else {
        let rest = pids_except(items.drop_last(), keep);
        let pid = items.last().pid@;
        if pid != keep {
            rest.push(pid)
        } else {
            rest
        }
    }
}

/// The pids that the selection stops: those of the stopped section of the
/// ranked containers, the log container's pid left out.
pub open spec fn removal_pids(ranked: Seq<ContainerUsage>, log_pid: Seq<char>) -> Seq<Seq<char>> {
    pids_except(stopped_section(ranked), log_pid)
}

/// The selection made over a set of containers. Indices refer to the list the
/// selection was made from.
pub struct ConsumerPlan {
    /// Every container, from the largest consumer down.
    pub order: Vec<usize>,
    /// The two highest consumers (see [`high_section`]).
    pub high: Vec<usize>,
    /// The three lowest consumers (see [`low_section`]).
    pub low: Vec<usize>,
    /// The pids of the containers to stop (see [`removal_pids`]).
    pub to_remove: Vec<String>,
}

/// The sections by position, for lists of every length: the high section is
/// the first two entries once there are more than two; the low section the last
/// three once there are five or more; the stopped section every entry from the
/// third to the fourth-last once there are more than five; otherwise each is
/// empty.
pub proof fn lemma_sections_by_position<A>(s: Seq<A>)
    ensures
        s.len() > 2 ==> high_section(s) == seq![s[0], s[1]],
        s.len() <= 2 ==> high_section(s).len() == 0,
        s.len() >= 5 ==> low_section(s) == seq![s[s.len() - 3], s[s.len() - 2], s[s.len() - 1]],
        s.len() < 5 ==> low_section(s).len() == 0,
        s.len() > 5 ==> stopped_section(s).len() == s.len() - 5 && forall|i: int|
            0 <= i < s.len() - 5 ==> #[trigger] stopped_section(s)[i] == s[i + 2],
        s.len() <= 5 ==> stopped_section(s).len() == 0,
{
    if s.len() > 2 {
        assert(high_section(s) =~= seq![s[0], s[1]]);
    }
    if s.len() >= 5 {
        assert(low_section(s) =~= seq![s[s.len() - 3], s[s.len() - 2], s[s.len() - 1]]);
    }
}

/// The pids stopped are exactly those of the stopped section, in ranking
/// order, with the log container's pid filtered out.
pub proof fn lemma_removal_is_filtered_stopped_pids(ranked: Seq<ContainerUsage>, log_pid: Seq<char>)
    ensures
        removal_pids(ranked, log_pid) == stopped_section(ranked).map_values(|c: ContainerUsage| c.pid@).filter(
            |p: Seq<char>| p != log_pid,
        ),
{
    lemma_pids_except_is_filter(stopped_section(ranked), log_pid);
}

/// `pids_except` is the pids of the items, filtered.
proof fn lemma_pids_except_is_filter(items: Seq<ContainerUsage>, keep: Seq<char>)
    ensures
        pids_except(items, keep) == items.map_values(|c: ContainerUsage| c.pid@).filter(|p: Seq<char>| p != keep),
    decreases items.len(),
{
    reveal_with_fuel(Seq::filter, 1);
    let pids = items.map_values(|c: ContainerUsage| c.pid@);
    if items.len() > 0 {
        lemma_pids_except_is_filter(items.drop_last(), keep);
        assert(pids.drop_last() =~= items.drop_last().map_values(|c: ContainerUsage| c.pid@));
        assert(pids.last() == items.last().pid@);
    } else {
        assert(pids =~= Seq::<Seq<char>>::empty());
    }
}

/// `keep` is never among the pids that `pids_except` lists.
proof fn lemma_pids_except_skips(items: Seq<ContainerUsage>, keep: Seq<char>)
    ensures
        !pids_except(items, keep).contains(keep),
    decreases items.len(),
{
    if items.len() > 0 {
        lemma_pids_except_skips(items.drop_last(), keep);
        let rest = pids_except(items.drop_last(), keep);
        let pid = items.last().pid@;
        if pid != keep {
            if rest.push(pid).contains(keep) {
                let i: int = choose|i: int| 0 <= i < rest.push(pid).len() && rest.push(pid)[i] == keep;
                assert(i < rest.len());
                assert(rest[i] == keep);
            }
        }
    }
}

/// `pids_except` lists the pid of every item but those equal to `keep`.
proof fn lemma_pids_except_lists(items: Seq<ContainerUsage>, keep: Seq<char>, k: int)
    requires
        0 <= k < items.len(),
        items[k].pid@ != keep,
    ensures
        pids_except(items, keep).contains(items[k].pid@),
    decreases items.len(),
{
    let rest = pids_except(items.drop_last(), keep);
    if k < items.len() - 1 {
        lemma_pids_except_lists(items.drop_last(), keep, k);
        let j: int = choose|j: int| 0 <= j < rest.len() && rest[j] == items[k].pid@;
        if items.last().pid@ != keep {
            assert(rest.push(items.last().pid@)[j] == items[k].pid@);
        }
    } else {
        assert(rest.push(items.last().pid@)[rest.len() as int] == items[k].pid@);
    }
}

/// The selection keeps the two highest and the three lowest consumers and stops
/// every other container but the log container: once there are five or more
/// containers, each position of the ranking lies in exactly one of the high,
/// low and stopped sections; the pid of each container of the stopped section
/// is stopped unless it is the log container's; and the log container is never
/// stopped. With fewer than six containers nothing is stopped.
pub proof fn lemma_selection_partition(ranked: Seq<ContainerUsage>, log_pid: Seq<char>)
    ensures
        ranked.len() >= 5 ==> high_section(ranked) == ranked.subrange(0, 2)
            && low_section(ranked) == ranked.subrange(ranked.len() - 3, ranked.len() as int)
            && stopped_section(ranked) == ranked.subrange(2, ranked.len() - 3)
            && high_section(ranked).len() + stopped_section(ranked).len() + low_section(ranked).len()
            == ranked.len(),
        ranked.len() <= 5 ==> removal_pids(ranked, log_pid).len() == 0,
        forall|k: int|
            2 <= k < ranked.len() - 3 && #[trigger] ranked[k].pid@ != log_pid ==> removal_pids(
                ranked,
                log_pid,
            ).contains(ranked[k].pid@),
        !removal_pids(ranked, log_pid).contains(log_pid),
{
    lemma_pids_except_skips(stopped_section(ranked), log_pid);
    assert forall|k: int|
        2 <= k < ranked.len() - 3 && #[trigger] ranked[k].pid@ != log_pid implies removal_pids(
        ranked,
        log_pid,
    ).contains(ranked[k].pid@) by {
        let s = stopped_section(ranked);
        assert(s[k - 2] == ranked[k]);
        lemma_pids_except_lists(s, log_pid, k - 2);
    }
    if ranked.len() <= 5 {
        assert(pids_except(Seq::<ContainerUsage>::empty(), log_pid).len() == 0);
    }
}

/// The high and low consumers are containers of the list, and no container is
/// both; nor is any of them in the stopped section.
pub proof fn lemma_sections_disjoint(keys: Seq<UsageKey>, order: Seq<usize>)
    requires
        is_consumption_order(keys, order),
    ensures
        forall|i: int| 0 <= i < high_section(order).len() ==> #[trigger] high_section(order)[i] < keys.len(),
        forall|j: int| 0 <= j < low_section(order).len() ==> #[trigger] low_section(order)[j] < keys.len(),
        forall|i: int, j: int|
            0 <= i < high_section(order).len() && 0 <= j < low_section(order).len() ==> #[trigger] high_section(
                order,
            )[i] != #[trigger] low_section(order)[j],
        forall|i: int, j: int|
            0 <= i < high_section(order).len() && 0 <= j < stopped_section(order).len() ==> #[trigger] high_section(
                order,
            )[i] != #[trigger] stopped_section(order)[j],
        forall|i: int, j: int|
            0 <= i < low_section(order).len() && 0 <= j < stopped_section(order).len() ==> #[trigger] low_section(
                order,
            )[i] != #[trigger] stopped_section(order)[j],
{
    let n: int = order.len() as int;
    assert forall|p: int, q: int| 0 <= p < q < n implies #[trigger] order[p] != #[trigger] order[q] by {
        assert(ranks_before(keys, order[p] as int, order[q] as int));
        lemma_ranks_before_strict_total(keys, order[p] as int, order[p] as int, 0);
    }
    assert forall|i: int| 0 <= i < high_section(order).len() implies #[trigger] high_section(order)[i] < keys.len() by {
        assert(high_section(order)[i] == order[i]);
    }
    assert forall|j: int| 0 <= j < low_section(order).len() implies #[trigger] low_section(order)[j] < keys.len() by {
        assert(low_section(order)[j] == order[n - 3 + j]);
    }
    assert forall|i: int, j: int|
        0 <= i < high_section(order).len() && 0 <= j < low_section(order).len() implies #[trigger] high_section(
        order,
    )[i] != #[trigger] low_section(order)[j] by {
        assert(high_section(order)[i] == order[i]);
        assert(low_section(order)[j] == order[n - 3 + j]);
    }
    assert forall|i: int, j: int|
        0 <= i < high_section(order).len() && 0 <= j < stopped_section(order).len() implies #[trigger] high_section(
        order,
    )[i] != #[trigger] stopped_section(order)[j] by {
        assert(high_section(order)[i] == order[i]);
        assert(stopped_section(order)[j] == order[2 + j]);
    }
    assert forall|i: int, j: int|
        0 <= i < low_section(order).len() && 0 <= j < stopped_section(order).len() implies #[trigger] low_section(
        order,
    )[i] != #[trigger] stopped_section(order)[j] by {
        assert(low_section(order)[i] == order[n - 3 + i]);
        assert(stopped_section(order)[j] == order[2 + j]);
    }
}

/// The consumption of the containers in a ranking.
proof fn lemma_ranked_is_sorted(containers: Seq<ContainerUsage>, order: Seq<usize>)
    requires
        containers.len() <= usize::MAX,
        is_consumption_order(usage_keys(containers), order),
        forall|a: int, b: int|
            0 <= a < b < containers.len() ==> #[trigger] containers[a].usage != #[trigger] containers[b].usage,
    ensures
        ranked(containers, order).len() == containers.len(),
        forall|p: int, q: int|
            0 <= p < q < containers.len() ==> uses_more(
                #[trigger] ranked(containers, order)[p].usage,
                #[trigger] ranked(containers, order)[q].usage,
            ),
        forall|c: ContainerUsage| containers.contains(c) ==> #[trigger] ranked(containers, order).contains(c),
{
    let keys = usage_keys(containers);
    let r = ranked(containers, order);
    assert forall|p: int, q: int| 0 <= p < q < containers.len() implies uses_more(
        #[trigger] r[p].usage,
        #[trigger] r[q].usage,
    ) by {
        assert(ranks_before(keys, order[p] as int, order[q] as int));
        assert(keys[order[p] as int] == containers[order[p] as int].usage);
        assert(keys[order[q] as int] == containers[order[q] as int].usage);
    }
    assert forall|c: ContainerUsage| containers.contains(c) implies #[trigger] r.contains(c) by {
        let j: int = choose|j: int| 0 <= j < containers.len() && containers[j] == c;
        assert(order.contains(j as usize));
        let m: int = choose|m: int| 0 <= m < order.len() && order[m] == j as usize;
        assert(r[m] == containers[order[m] as int]);
    }
}

/// The selection depends on the containers only, not on the order in which
/// they are listed: when no two containers consume alike, any two lists with
/// the same containers are ranked into the same sequence, so they give the
/// same high, low and stopped sections and the same pids to stop.
pub proof fn lemma_selection_ignores_listing_order(
    first: Seq<ContainerUsage>,
    first_order: Seq<usize>,
    second: Seq<ContainerUsage>,
    second_order: Seq<usize>,
    log_pid: Seq<char>,
)
    requires
        first.len() <= usize::MAX,
        second.len() <= usize::MAX,
        second.to_multiset() == first.to_multiset(),
        forall|a: int, b: int|
            0 <= a < b < first.len() ==> #[trigger] first[a].usage != #[trigger] first[b].usage,
        forall|a: int, b: int|
            0 <= a < b < second.len() ==> #[trigger] second[a].usage != #[trigger] second[b].usage,
        is_consumption_order(usage_keys(first), first_order),
        is_consumption_order(usage_keys(second), second_order),
    ensures
        ranked(first, first_order) == ranked(second, second_order),
        high_section(ranked(first, first_order)) == high_section(ranked(second, second_order)),
        low_section(ranked(first, first_order)) == low_section(ranked(second, second_order)),
        removal_pids(ranked(first, first_order), log_pid) == removal_pids(ranked(second, second_order), log_pid),
{
    first.to_multiset_ensures();
    second.to_multiset_ensures();
    lemma_ranked_is_sorted(first, first_order);
    lemma_ranked_is_sorted(second, second_order);
    let r1 = ranked(first, first_order);
    let r2 = ranked(second, second_order);
    assert forall|c: ContainerUsage| r1.contains(c) <==> r2.contains(c) by {
        if r1.contains(c) {
            let m: int = choose|m: int| 0 <= m < r1.len() && r1[m] == c;
            assert(first.contains(first[first_order[m] as int]));
            assert(first.to_multiset().count(c) > 0);
        }
        if r2.contains(c) {
            let m: int = choose|m: int| 0 <= m < r2.len() && r2[m] == c;
            assert(second.contains(second[second_order[m] as int]));
            assert(second.to_multiset().count(c) > 0);
        }
    }
    lemma_sorted_rankings_agree(r1, r2, r1.len() as int);
    assert(r1 =~= r1.subrange(0, r1.len() as int));
    assert(r2 =~= r2.subrange(0, r2.len() as int));
}

/// Two lists sorted strictly by decreasing consumption, with the same
/// containers, agree on their first `k` entries.
proof fn lemma_sorted_rankings_agree(r1: Seq<ContainerUsage>, r2: Seq<ContainerUsage>, k: int)
    requires
        r1.len() == r2.len(),
        0 <= k <= r1.len(),
        forall|p: int, q: int| 0 <= p < q < r1.len() ==> uses_more(#[trigger] r1[p].usage, #[trigger] r1[q].usage),
        forall|p: int, q: int| 0 <= p < q < r2.len() ==> uses_more(#[trigger] r2[p].usage, #[trigger] r2[q].usage),
        forall|c: ContainerUsage| r1.contains(c) <==> r2.contains(c),
    ensures
        r1.subrange(0, k) == r2.subrange(0, k),
    decreases k,
{
    if k > 0 {
        lemma_sorted_rankings_agree(r1, r2, k - 1);
        let x = r1[k - 1];
        let y = r2[k - 1];
        if x != y {
            assert(r1.contains(x));
            assert(r2.contains(y));
            let m: int = choose|m: int| 0 <= m < r2.len() && r2[m] == x;
            let l: int = choose|l: int| 0 <= l < r1.len() && r1[l] == y;
            if m < k - 1 {
                assert(r1.subrange(0, k - 1)[m] == r2.subrange(0, k - 1)[m]);
                assert(uses_more(r1[m].usage, r1[k - 1].usage));
            } else if l < k - 1 {
                assert(r1.subrange(0, k - 1)[l] == r2.subrange(0, k - 1)[l]);
                assert(uses_more(r2[l].usage, r2[k - 1].usage));
            } else {
                assert(m > k - 1 && l > k - 1);
                assert(uses_more(r2[k - 1].usage, r2[m].usage));
                assert(uses_more(r1[k - 1].usage, r1[l].usage));
            }
        }
        assert(r1.subrange(0, k) =~= r2.subrange(0, k - 1).push(r2[k - 1]));
        assert(r2.subrange(0, k) =~= r2.subrange(0, k - 1).push(r2[k - 1]));
    }
}

/// Appends to `out` the pids of the containers that `order[from..to]` names,
/// leaving out `log_pid`.
fn push_pids_except(
    out: &mut Vec<String>,
    containers: &Vec<ContainerUsage>,
    order: &Vec<usize>,
    from: usize,
    to: usize,
    log_pid: &String,
)
    requires
        from <= to <= order.len(),
        forall|i: int| 0 <= i < order.len() ==> #[trigger] order[i] < containers.len(),
    ensures
        final(out)@.map_values(|s: String| s@) == old(out)@.map_values(|s: String| s@) + pids_except(
            ranked(containers@, order@).subrange(from as int, to as int),
            log_pid@,
        ),
{
    let ghost start = old(out)@.map_values(|s: String| s@);
    let ghost r = ranked(containers@, order@);
    let mut k: usize = from;
    while k < to
        invariant
            from <= k <= to <= order.len(),
            r == ranked(containers@, order@),
            forall|i: int| 0 <= i < order.len() ==> #[trigger] order[i] < containers.len(),
            out@.map_values(|s: String| s@) == start + pids_except(r.subrange(from as int, k as int), log_pid@),
        decreases to - k,
    {
        let c = &containers[order[k]];
        assert(r[k as int] == *c);
        assert(r.subrange(from as int, k + 1).drop_last() == r.subrange(from as int, k as int));
        assert(r.subrange(from as int, k + 1).last() == *c);
        if c.pid != *log_pid {
            let ghost before = out@;
            out.push(c.pid.clone());
            assert(out@.map_values(|s: String| s@) == before.map_values(|s: String| s@).push(c.pid@));
        }
        k = k + 1;
    }
}

/// Ranks the containers from the largest consumer down, keeps the two highest
/// and the three lowest, and lists the pids of every other container to be
/// stopped, but the log container's (`log_pid`), which is never stopped.
pub fn identify_consumers(containers: &Vec<ContainerUsage>, log_pid: &String) -> (plan: ConsumerPlan)
    ensures
        is_consumption_order(usage_keys(containers@), plan.order@),
        plan.high@ == high_section(plan.order@),
        plan.low@ == low_section(plan.order@),
        plan.to_remove@.map_values(|s: String| s@) == removal_pids(ranked(containers@, plan.order@), log_pid@),
{
    let n: usize = containers.len();
    let mut keys: Vec<UsageKey> = Vec::new();
    for i in 0..n
        invariant
            n == containers.len(),
            keys.len() == i,
            forall|j: int| 0 <= j < i ==> #[trigger] keys[j] == containers[j].usage,
    {
        keys.push(containers[i].usage);
    }
    assert(keys@ == usage_keys(containers@));
    let order = consumption_order(&keys);
    let mut high: Vec<usize> = Vec::new();
    if n > 2 {
        high.push(order[0]);
        high.push(order[1]);
    }
    let mut low: Vec<usize> = Vec::new();
    if n >= 5 {
        low.push(order[n - 3]);
        low.push(order[n - 2]);
        low.push(order[n - 1]);
    }
    assert(high@ =~= high_section(order@));
    assert(low@ =~= low_section(order@));
    let mut to_remove: Vec<String> = Vec::new();
    assert(to_remove@.map_values(|s: String| s@) =~= Seq::<Seq<char>>::empty());
    if n > 5 {
        push_pids_except(&mut to_remove, containers, &order, 2, n - 3, log_pid);
    } else {
        assert(pids_except(Seq::<ContainerUsage>::empty(), log_pid@) =~= Seq::<Seq<char>>::empty());
    }
    assert(to_remove@.map_values(|s: String| s@) =~= removal_pids(ranked(containers@, order@), log_pid@));
    ConsumerPlan { order, high, low, to_remove }
}

} // verus!
