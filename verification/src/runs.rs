//! Cutting a stretch of items into maximal runs of one kind.

use vstd::prelude::*;

verus! {

/// `runs` cut `from..to` into maximal runs of items of one kind, in order:
/// each run non-empty, each starting where the last ended, every item of a
/// run of the run's kind, and no two neighbouring runs of the same kind.
pub open spec fn cuts(kinds: Seq<bool>, from: int, to: int, runs: Seq<(usize, usize)>) -> bool {
    &&& (runs.len() == 0 <==> from >= to)
    &&& runs.len() > 0 ==> runs[0].0 == from && runs.last().1 == to
    &&& forall|k: int| 0 <= k < runs.len() ==> (#[trigger] runs[k]).0 < runs[k].1
    &&& forall|k: int| 0 <= k < runs.len() - 1 ==> (#[trigger] runs[k]).1 == runs[k + 1].0
    &&& forall|k: int, i: int|
        #![trigger runs[k], kinds[i]]
        0 <= k < runs.len() && runs[k].0 <= i < runs[k].1 ==> kinds[i] == kinds[runs[k].0 as int]
    &&& forall|k: int|
        0 <= k < runs.len() - 1 ==> kinds[(#[trigger] runs[k]).0 as int] != kinds[runs[k
            + 1].0 as int]
}

/// Cut `from..to` of `kinds` into maximal runs of one kind.
pub fn cut_runs(kinds: &Vec<bool>, from: usize, to: usize) -> (runs: Vec<(usize, usize)>)
    requires
        from <= to <= kinds.len(),
    ensures
        cuts(kinds@, from as int, to as int, runs@),
{
    let mut runs: Vec<(usize, usize)> = Vec::new();
    if from == to {
        return runs;
    }
    let mut start = from;
    let mut i = from + 1;
    while i < to
        invariant
            from <= start < i <= to <= kinds.len(),
            runs@.len() == 0 <==> start == from,
            runs@.len() > 0 ==> runs@[0].0 == from && runs@.last().1 == start,
            forall|k: int| 0 <= k < runs@.len() ==> (#[trigger] runs@[k]).0 < runs@[k].1,
            forall|k: int|
                0 <= k < runs@.len() - 1 ==> (#[trigger] runs@[k]).1 == runs@[k + 1].0,
            forall|k: int, j: int|
                #![trigger runs@[k], kinds@[j]]
                0 <= k < runs@.len() && runs@[k].0 <= j < runs@[k].1 ==> kinds@[j]
                    == kinds@[runs@[k].0 as int],
            forall|k: int|
                0 <= k < runs@.len() - 1 ==> kinds@[(#[trigger] runs@[k]).0 as int]
                    != kinds@[runs@[k + 1].0 as int],
            runs@.len() > 0 ==> kinds@[runs@.last().0 as int] != kinds@[start as int],
            forall|j: int| start <= j < i ==> kinds@[j] == kinds@[start as int],
        decreases to - i,
    {
        if kinds[i] != kinds[start] {
            let ghost before = runs@;
            runs.push((start, i));
            proof {
                assert forall|k: int, j: int|
                    #![trigger runs@[k], kinds@[j]]
                    0 <= k < runs@.len() && runs@[k].0 <= j < runs@[k].1 implies kinds@[j]
                    == kinds@[runs@[k].0 as int] by {
                    if k < before.len() {
                        assert(runs@[k] == before[k]);
                    }
                }
                assert forall|k: int| 0 <= k < runs@.len() - 1 implies kinds@[(
                #[trigger] runs@[k]).0 as int] != kinds@[runs@[k + 1].0 as int] by {
                    if k < before.len() - 1 {
                        assert(runs@[k] == before[k]);
                        assert(runs@[k + 1] == before[k + 1]);
                    } else {
                        assert(runs@[k] == before.last());
                    }
                }
                assert forall|k: int| 0 <= k < runs@.len() - 1 implies (
                #[trigger] runs@[k]).1 == runs@[k + 1].0 by {
                    if k < before.len() - 1 {
                        assert(runs@[k] == before[k]);
                        assert(runs@[k + 1] == before[k + 1]);
                    }
                }
            }
            start = i;
        }
        i += 1;
    }
    let ghost before = runs@;
    runs.push((start, to));
    proof {
        assert forall|k: int, j: int|
            #![trigger runs@[k], kinds@[j]]
            0 <= k < runs@.len() && runs@[k].0 <= j < runs@[k].1 implies kinds@[j]
            == kinds@[runs@[k].0 as int] by {
            if k < before.len() {
                assert(runs@[k] == before[k]);
            }
        }
        assert forall|k: int| 0 <= k < runs@.len() - 1 implies kinds@[(
        #[trigger] runs@[k]).0 as int] != kinds@[runs@[k + 1].0 as int] by {
            if k < before.len() - 1 {
                assert(runs@[k] == before[k]);
                assert(runs@[k + 1] == before[k + 1]);
            } else {
                assert(runs@[k] == before.last());
            }
        }
        assert forall|k: int| 0 <= k < runs@.len() - 1 implies (#[trigger] runs@[k]).1
            == runs@[k + 1].0 by {
            if k < before.len() - 1 {
                assert(runs@[k] == before[k]);
                assert(runs@[k + 1] == before[k + 1]);
            }
        }
    }
    runs
}

} // verus!
