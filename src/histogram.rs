//! Counting values into histogram bins. Each value comes with the slot that
//! its position in `[min, max]` gives it; bins are closed below and open
//! above, except the last, which also takes the slot past it (the maximum).

use vstd::prelude::*;

verus! {

/// The bin that a slot falls into: the slot itself, or the last bin for a
/// slot at or past the end.
pub open spec fn bin_of(slot: usize, nbins: usize) -> int {
    if slot < nbins { slot as int } else { nbins - 1 }
}

/// How many of `slots` fall into bin `b`.
pub open spec fn occupancy(slots: Seq<usize>, nbins: usize, b: int) -> nat
    decreases slots.len(),
{
    if slots.len() == 0 {
        0
    } else {
        occupancy(slots.drop_last(), nbins, b) + if bin_of(slots.last(), nbins) == b {
            1nat
        } else {
            0nat
        }
    }
}

/// The sum of a sequence of counts.
pub open spec fn total(s: Seq<usize>) -> int
    decreases s.len(),
{
    if s.len() == 0 {
        0
    } else {
        total(s.drop_last()) + s.last()
    }
}

proof fn lemma_total_bump(s: Seq<usize>, b: int)
    requires
        0 <= b < s.len(),
        s[b] < usize::MAX,
    ensures
        total(s.update(b, (s[b] + 1) as usize)) == total(s) + 1,
    decreases s.len(),
{
    let u = s.update(b, (s[b] + 1) as usize);
    if b == s.len() - 1 {
        assert(u.drop_last() =~= s.drop_last());
    } else {
        assert(u.drop_last() =~= s.drop_last().update(b, (s[b] + 1) as usize));
        lemma_total_bump(s.drop_last(), b);
    }
}

proof fn lemma_total_nonnegative(s: Seq<usize>)
    ensures
        total(s) >= 0,
    decreases s.len(),
{
    if s.len() > 0 {
        lemma_total_nonnegative(s.drop_last());
    }
}

/// The count of each of `nbins` bins; the counts add up to the number of
/// slots.
pub fn count_bins(slots: &Vec<usize>, nbins: usize) -> (r: Vec<usize>)
    requires
        nbins > 0,
    ensures
        r.len() == nbins,
        forall|b: int| 0 <= b < nbins ==> #[trigger] r[b] == occupancy(slots@, nbins, b),
        total(r@) == slots.len(),
{
    let mut counts: Vec<usize> = Vec::with_capacity(nbins);
    while counts.len() < nbins
        invariant
            counts.len() <= nbins,
            forall|b: int| 0 <= b < counts.len() ==> #[trigger] counts[b] == 0,
            total(counts@) == 0,
        decreases nbins - counts.len(),
    {
        let ghost prev = counts@;
        counts.push(0);
        proof {
            assert(counts@.drop_last() =~= prev);
        }
    }
    let mut i: usize = 0;
    while i < slots.len()
        invariant
            nbins > 0,
            i <= slots.len(),
            counts.len() == nbins,
            forall|b: int|
                0 <= b < nbins ==> #[trigger] counts[b] == occupancy(slots@.take(i as int), nbins, b),
            total(counts@) == i,
        decreases slots.len() - i,
    {
        let slot = slots[i];
        let b: usize = if slot < nbins { slot } else { nbins - 1 };
        proof {
            assert(slots@.take(i + 1).drop_last() =~= slots@.take(i as int));
            lemma_total_nonnegative(counts@);
            if counts[b as int] >= usize::MAX {
                assert forall|k: int| 0 <= k < counts.len() implies #[trigger] counts[k] <= total(counts@) by {
                    lemma_count_below_total(counts@, k);
                }
            }
            lemma_total_bump(counts@, b as int);
        }
        let c = counts[b];
        counts.set(b, c + 1);
        i = i + 1;
    }
    proof {
        assert(slots@.take(i as int) =~= slots@);
    }
    counts
}

proof fn lemma_count_below_total(s: Seq<usize>, k: int)
    requires
        0 <= k < s.len(),
    ensures
        s[k] <= total(s),
    decreases s.len(),
{
    if k < s.len() - 1 {
        lemma_count_below_total(s.drop_last(), k);
    } else {
        lemma_total_nonnegative(s.drop_last());
    }
}

} // verus!
