use vstd::prelude::*;

verus! {

/// The positions, in increasing order, of the entries of `cpu` above `limit`.
pub open spec fn indices_above(cpu: Seq<u64>, limit: u64) -> Seq<usize>
    decreases cpu.len(),
{
    if cpu.len() == 0 {
        Seq::empty()
    } else {
        let rest = indices_above(cpu.drop_last(), limit);
        if cpu.last() > limit {
            rest.push((cpu.len() - 1) as usize)
        } else {
            rest
        }
    }
}

/// The positions, in increasing order, of the entries of `cpu` below `limit`.
pub open spec fn indices_below(cpu: Seq<u64>, limit: u64) -> Seq<usize>
    decreases cpu.len(),
{
    if cpu.len() == 0 {
        Seq::empty()
    } else {
        let rest = indices_below(cpu.drop_last(), limit);
        if cpu.last() < limit {
            rest.push((cpu.len() - 1) as usize)
        } else {
            rest
        }
    }
}

/// A container is listed above `limit` exactly when its CPU use is above
/// `limit`, and the list keeps the containers' order.
pub proof fn lemma_indices_above(cpu: Seq<u64>, limit: u64)
    requires
        cpu.len() <= usize::MAX,
    ensures
        forall|x: usize| #[trigger] indices_above(cpu, limit).contains(x) <==> x < cpu.len() && cpu[x as int] > limit,
        forall|i: int, j: int|
            0 <= i < j < indices_above(cpu, limit).len() ==> #[trigger] indices_above(cpu, limit)[i]
                < #[trigger] indices_above(cpu, limit)[j],
    decreases cpu.len(),
{
    if cpu.len() > 0 {
        let prev = cpu.drop_last();
        lemma_indices_above(prev, limit);
        let rest = indices_above(prev, limit);
        let last: usize = (cpu.len() - 1) as usize;
        assert forall|x: usize| #[trigger] indices_above(cpu, limit).contains(x) <==> x < cpu.len() && cpu[x as int]
            > limit by {
            if x < last {
                assert(cpu[x as int] == prev[x as int]);
            }
            if cpu.last() > limit {
                if rest.push(last).contains(x) && x != last {
                    let k: int = choose|k: int| 0 <= k < rest.push(last).len() && rest.push(last)[k] == x;
                    assert(rest[k] == x);
                }
                if rest.contains(x) {
                    let k: int = choose|k: int| 0 <= k < rest.len() && rest[k] == x;
                    assert(rest.push(last)[k] == x);
                }
                assert(rest.push(last)[rest.len() as int] == last);
            }
        }
        if cpu.last() > limit {
            assert forall|i: int| 0 <= i < rest.len() implies #[trigger] rest[i] < last by {
                assert(rest.contains(rest[i]));
            }
        }
    }
}

/// A container is listed below `limit` exactly when its CPU use is below
/// `limit`, and the list keeps the containers' order.
pub proof fn lemma_indices_below(cpu: Seq<u64>, limit: u64)
    requires
        cpu.len() <= usize::MAX,
    ensures
        forall|x: usize| #[trigger] indices_below(cpu, limit).contains(x) <==> x < cpu.len() && cpu[x as int] < limit,
        forall|i: int, j: int|
            0 <= i < j < indices_below(cpu, limit).len() ==> #[trigger] indices_below(cpu, limit)[i]
                < #[trigger] indices_below(cpu, limit)[j],
    decreases cpu.len(),
{
    if cpu.len() > 0 {
        let prev = cpu.drop_last();
        lemma_indices_below(prev, limit);
        let rest = indices_below(prev, limit);
        let last: usize = (cpu.len() - 1) as usize;
        assert forall|x: usize| #[trigger] indices_below(cpu, limit).contains(x) <==> x < cpu.len() && cpu[x as int]
            < limit by {
            if x < last {
                assert(cpu[x as int] == prev[x as int]);
            }
            if cpu.last() < limit {
                if rest.push(last).contains(x) && x != last {
                    let k: int = choose|k: int| 0 <= k < rest.push(last).len() && rest.push(last)[k] == x;
                    assert(rest[k] == x);
                }
                if rest.contains(x) {
                    let k: int = choose|k: int| 0 <= k < rest.len() && rest[k] == x;
                    assert(rest.push(last)[k] == x);
                }
                assert(rest.push(last)[rest.len() as int] == last);
            }
        }
        if cpu.last() < limit {
            assert forall|i: int| 0 <= i < rest.len() implies #[trigger] rest[i] < last by {
                assert(rest.contains(rest[i]));
            }
        }
    }
}

/// With the low limit not above the high one, no container is both a high and
/// a low CPU consumer.
pub proof fn lemma_cpu_classes_disjoint(cpu: Seq<u64>, high_limit: u64, low_limit: u64, x: usize)
    requires
        cpu.len() <= usize::MAX,
        low_limit <= high_limit,
    ensures
        !(indices_above(cpu, high_limit).contains(x) && indices_below(cpu, low_limit).contains(x)),
{
    lemma_indices_above(cpu, high_limit);
    lemma_indices_below(cpu, low_limit);
}

/// The positions `indices`, shifted by `offset`.
pub open spec fn shifted(indices: Seq<usize>, offset: nat) -> Seq<usize> {
    indices.map_values(|i: usize| (i + offset) as usize)
}

/// Each container is classed by its own CPU use alone and listed in input
/// order: classing two lists put end to end gives the classes of the first
/// list followed by those of the second, whose positions move by the length of
/// the first.
pub proof fn lemma_cpu_split_concatenates(xs: Seq<u64>, ys: Seq<u64>, high_limit: u64, low_limit: u64)
    requires
        xs.len() + ys.len() <= usize::MAX,
    ensures
        indices_above(xs + ys, high_limit) == indices_above(xs, high_limit) + shifted(
            indices_above(ys, high_limit),
            xs.len(),
        ),
        indices_below(xs + ys, low_limit) == indices_below(xs, low_limit) + shifted(
            indices_below(ys, low_limit),
            xs.len(),
        ),
    decreases ys.len(),
{
    if ys.len() == 0 {
        assert(xs + ys =~= xs);
        assert(indices_above(xs, high_limit) + shifted(indices_above(ys, high_limit), xs.len()) =~= indices_above(
            xs,
            high_limit,
        ));
        assert(indices_below(xs, low_limit) + shifted(indices_below(ys, low_limit), xs.len()) =~= indices_below(
            xs,
            low_limit,
        ));
    } else {
        let front = ys.drop_last();
        lemma_cpu_split_concatenates(xs, front, high_limit, low_limit);
        assert((xs + ys).drop_last() =~= xs + front);
        assert((xs + ys).last() == ys.last());
        let last: usize = (ys.len() - 1) as usize;
        let above = indices_above(front, high_limit);
        let below = indices_below(front, low_limit);
        assert(shifted(above.push(last), xs.len()) =~= shifted(above, xs.len()).push(
            (last + xs.len()) as usize,
        ));
        assert(shifted(below.push(last), xs.len()) =~= shifted(below, xs.len()).push(
            (last + xs.len()) as usize,
        ));
        assert(indices_above(xs, high_limit) + shifted(above, xs.len()).push((last + xs.len()) as usize)
            =~= (indices_above(xs, high_limit) + shifted(above, xs.len())).push((last + xs.len()) as usize));
        assert(indices_below(xs, low_limit) + shifted(below, xs.len()).push((last + xs.len()) as usize)
            =~= (indices_below(xs, low_limit) + shifted(below, xs.len())).push((last + xs.len()) as usize));
    }
}

/// The containers that use much and little CPU, by their positions.
pub struct CpuClasses {
    pub high: Vec<usize>,
    pub low: Vec<usize>,
}

/// Splits containers by CPU use: those strictly above `high_limit` and those
/// strictly below `low_limit`, each in their original order. `cpu` holds each
/// container's CPU use, and the limits are given, as keys with the order of
/// the CPU percentages they stand for.
pub fn identify_consumers(cpu: &Vec<u64>, high_limit: u64, low_limit: u64) -> (classes: CpuClasses)
    ensures
        classes.high@ == indices_above(cpu@, high_limit),
        classes.low@ == indices_below(cpu@, low_limit),
{
    let mut high: Vec<usize> = Vec::new();
    let mut low: Vec<usize> = Vec::new();
    for i in 0..cpu.len()
        invariant
            high@ == indices_above(cpu@.subrange(0, i as int), high_limit),
            low@ == indices_below(cpu@.subrange(0, i as int), low_limit),
    {
        assert(cpu@.subrange(0, i + 1).drop_last() == cpu@.subrange(0, i as int));
        if cpu[i] > high_limit {
            high.push(i);
        }
        if cpu[i] < low_limit {
            low.push(i);
        }
    }
    assert(cpu@.subrange(0, cpu.len() as int) == cpu@);
    CpuClasses { high, low }
}

} // verus!
