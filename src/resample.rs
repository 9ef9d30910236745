//! Block bootstrap draws: the configurations `0..nconfs` are cut into
//! contiguous blocks of a fixed width (the last one possibly shorter), and
//! whole blocks are picked at random, with replacement, until `nconfs`
//! indices have been gathered.

use vstd::prelude::*;
use crate::rng::SplitMix64;

verus! {

/// How many blocks of `width` cover `0..nconfs`.
pub open spec fn block_count(nconfs: int, width: int) -> int {
    nconfs / width + if nconfs % width == 0 { 0int } else { 1int }
}

/// The indices of block `b`, in order: from `b * width`, at most `width`
/// of them, none reaching `nconfs`.
pub open spec fn block(nconfs: int, width: int, b: int) -> Seq<int> {
    let start = b * width;
    let end = if start + width <= nconfs { start + width } else { nconfs };
    Seq::new((end - start) as nat, |k: int| start + k)
}

/// The blocks named by `picks`, one after another.
pub open spec fn joined_blocks(nconfs: int, width: int, picks: Seq<int>) -> Seq<int>
    decreases picks.len(),
{
    if picks.len() == 0 {
        Seq::empty()
    } else {
        joined_blocks(nconfs, width, picks.drop_last()) + block(nconfs, width, picks.last())
    }
}

/// The indices of a draw as integers.
pub open spec fn as_ints(d: Seq<usize>) -> Seq<int> {
    d.map_values(|x: usize| x as int)
}

/// Every pick names one of the blocks.
pub open spec fn valid_picks(nconfs: int, width: int, picks: Seq<int>) -> bool {
    forall|j: int| 0 <= j < picks.len() ==> 0 <= #[trigger] picks[j] < block_count(nconfs, width)
}

/// `d` holds `nconfs` indices: the first `nconfs` of some sequence of blocks.
pub open spec fn is_block_draw(d: Seq<usize>, nconfs: int, width: int) -> bool {
    d.len() == nconfs && exists|picks: Seq<int>|
        valid_picks(nconfs, width, picks) && joined_blocks(nconfs, width, picks).len() >= nconfs
            && #[trigger] joined_blocks(nconfs, width, picks).take(nconfs) == as_ints(d)
}

proof fn lemma_block_starts_inside(nconfs: int, width: int, b: int)
    requires
        width > 0,
        0 <= b < block_count(nconfs, width),
    ensures
        0 <= b * width < nconfs,
{
    let q = nconfs / width;
    let r = nconfs % width;
    assert(nconfs == q * width + r && 0 <= r < width) by (nonlinear_arith)
        requires width > 0, q == nconfs / width, r == nconfs % width;
    if b < q {
        assert(0 <= b * width && (b + 1) * width <= q * width) by (nonlinear_arith)
            requires 0 <= b, b + 1 <= q, width > 0;
        assert((b + 1) * width == b * width + width) by (nonlinear_arith);
    } else {
        assert(b == q && r != 0);
        assert(0 <= b * width) by (nonlinear_arith) requires 0 <= b, width > 0;
    }
}

proof fn lemma_block_count_positive(nconfs: int, width: int)
    requires
        width > 0,
        nconfs > 0,
    ensures
        block_count(nconfs, width) > 0,
{
    if nconfs / width == 0 {
        assert(nconfs % width == nconfs) by (nonlinear_arith)
            requires width > 0, nconfs > 0, nconfs / width == 0;
    } else {
        assert(nconfs / width >= 0) by (nonlinear_arith) requires width > 0, nconfs > 0;
    }
}

/// Number of blocks of `width` that cover `0..nconfs`.
pub fn num_blocks(nconfs: usize, width: usize) -> (r: usize)
    requires
        width > 0,
    ensures
        r == block_count(nconfs as int, width as int),
{
    let extra: usize = if nconfs % width == 0 { 0 } else { 1 };
    assert(nconfs / width <= nconfs) by (nonlinear_arith) requires width > 0;
    assert(nconfs / width + extra <= nconfs) by (nonlinear_arith)
        requires width > 0, extra == 0 || (extra == 1 && nconfs % width != 0);
    nconfs / width + extra
}

/// Appends block `b` to `out`, stopping when `out` holds `nconfs` indices.
fn push_block(out: &mut Vec<usize>, nconfs: usize, width: usize, b: usize)
    requires
        width > 0,
        b < block_count(nconfs as int, width as int),
        old(out).len() < nconfs,
    ensures
        as_ints(final(out)@) == (as_ints(old(out)@) + block(nconfs as int, width as int, b as int)).take(
            final(out).len() as int,
        ),
        final(out).len() == if old(out).len() + block(nconfs as int, width as int, b as int).len()
            <= nconfs { old(out).len() + block(nconfs as int, width as int, b as int).len() } else {
            nconfs as int
        },
        final(out).len() > old(out).len(),
{
    proof {
        lemma_block_starts_inside(nconfs as int, width as int, b as int);
    }
    let start = b * width;
    let end = if width <= nconfs - start { start + width } else { nconfs };
    let ghost blk = block(nconfs as int, width as int, b as int);
    let ghost before = as_ints(out@);
    let mut k = start;
    while k < end && out.len() < nconfs
        invariant
            start <= k <= end <= nconfs,
            start == b * width,
            blk == block(nconfs as int, width as int, b as int),
            blk.len() == end - start,
            out.len() <= nconfs,
            out.len() == before.len() + (k - start),
            as_ints(out@) == before + blk.take(k - start),
        decreases end - k,
    {
        let ghost prev = as_ints(out@);
        out.push(k);
        proof {
            assert(as_ints(out@) =~= prev.push(k as int));
            assert(blk[k - start] == k);
            assert(blk.take(k + 1 - start) =~= blk.take(k - start).push(k as int));
        }
        k = k + 1;
        proof {
            assert(as_ints(out@) =~= before + blk.take(k - start));
        }
    }
    proof {
        assert(as_ints(out@) =~= (before + blk).take(out.len() as int));
    }
}

proof fn lemma_joined_push(nconfs: int, width: int, picks: Seq<int>, b: int)
    ensures
        joined_blocks(nconfs, width, picks.push(b)) == joined_blocks(nconfs, width, picks) + block(
            nconfs,
            width,
            b,
        ),
{
    assert(picks.push(b).drop_last() =~= picks);
}

/// A block bootstrap draw of `nconfs` configuration indices, with blocks of
/// `width`, each block picked by `rng`.
pub fn draw(nconfs: usize, width: usize, rng: &mut SplitMix64) -> (d: Vec<usize>)
    requires
        width > 0,
    ensures
        d.len() == nconfs,
        forall|i: int| 0 <= i < d.len() ==> #[trigger] d[i] < nconfs,
        is_block_draw(d@, nconfs as int, width as int),
{
    let nblocks = num_blocks(nconfs, width);
    let mut out: Vec<usize> = Vec::new();
    let ghost mut picks: Seq<int> = Seq::empty();
    while out.len() < nconfs
        invariant
            width > 0,
            nblocks == block_count(nconfs as int, width as int),
            out.len() <= nconfs,
            valid_picks(nconfs as int, width as int, picks),
            joined_blocks(nconfs as int, width as int, picks).len() >= out.len(),
            out.len() < nconfs ==> joined_blocks(nconfs as int, width as int, picks).len()
                == out.len(),
            as_ints(out@) == joined_blocks(nconfs as int, width as int, picks).take(
                out.len() as int,
            ),
            forall|j: int|
                0 <= j < joined_blocks(nconfs as int, width as int, picks).len() ==> 0
                    <= #[trigger] joined_blocks(nconfs as int, width as int, picks)[j] < nconfs,
        decreases nconfs - out.len(),
    {
        proof {
            lemma_block_count_positive(nconfs as int, width as int);
        }
        let b = rng.below(nblocks as u64) as usize;
        let ghost prev = out@;
        let ghost old_joined = joined_blocks(nconfs as int, width as int, picks);
        push_block(&mut out, nconfs, width, b);
        proof {
            lemma_block_starts_inside(nconfs as int, width as int, b as int);
            lemma_joined_push(nconfs as int, width as int, picks, b as int);
            assert(old_joined =~= as_ints(prev));
            picks = picks.push(b as int);
            let nj = joined_blocks(nconfs as int, width as int, picks);
            assert(nj == old_joined + block(nconfs as int, width as int, b as int));
            assert(as_ints(out@) =~= nj.take(out.len() as int));
            assert forall|j: int| 0 <= j < nj.len() implies 0 <= #[trigger] nj[j] < nconfs by {
                if j >= old_joined.len() {
                    let blk = block(nconfs as int, width as int, b as int);
                    assert(nj[j] == blk[j - old_joined.len()]);
                }
            }
        }
    }
    proof {
        let j = joined_blocks(nconfs as int, width as int, picks);
        assert forall|i: int| 0 <= i < out.len() implies #[trigger] out[i] < nconfs by {
            assert(as_ints(out@)[i] == j.take(out.len() as int)[i]);
        }
        assert(joined_blocks(nconfs as int, width as int, picks).take(nconfs as int) == as_ints(
            out@,
        ));
    }
    out
}

/// One draw per trial for `n_boot` trials, each from its own generator
/// split off `rng`, so that the trials can run in any order or in parallel.
pub fn draws(nconfs: usize, width: usize, n_boot: usize, rng: &mut SplitMix64) -> (r: Vec<
    Vec<usize>,
>)
    requires
        width > 0,
    ensures
        r.len() == n_boot,
        forall|t: int|
            0 <= t < n_boot ==> is_block_draw((#[trigger] r[t])@, nconfs as int, width as int),
        forall|t: int, i: int|
            0 <= t < n_boot && 0 <= i < nconfs ==> #[trigger] r[t][i] < nconfs,
{
    let mut r: Vec<Vec<usize>> = Vec::with_capacity(n_boot);
    while r.len() < n_boot
        invariant
            width > 0,
            r.len() <= n_boot,
            forall|t: int|
                0 <= t < r.len() ==> is_block_draw((#[trigger] r[t])@, nconfs as int, width as int),
            forall|t: int, i: int|
                0 <= t < r.len() && 0 <= i < nconfs ==> #[trigger] r[t][i] < nconfs,
        decreases n_boot - r.len(),
    {
        let mut trial_rng = rng.split();
        let d = draw(nconfs, width, &mut trial_rng);
        r.push(d);
    }
    r
}

proof fn lemma_unit_blocks_join(nconfs: int, picks: Seq<int>)
    requires
        valid_picks(nconfs, 1, picks),
    ensures
        joined_blocks(nconfs, 1, picks) == picks,
    decreases picks.len(),
{
    if picks.len() > 0 {
        let rest = picks.drop_last();
        assert(valid_picks(nconfs, 1, rest)) by {
            assert forall|j: int| 0 <= j < rest.len() implies 0 <= #[trigger] rest[j]
                < block_count(nconfs, 1) by {
                assert(rest[j] == picks[j]);
            }
        }
        lemma_unit_blocks_join(nconfs, rest);
        let b = picks.last();
        assert(0 <= b < block_count(nconfs, 1));
        assert(block(nconfs, 1, b) =~= seq![b]);
        assert(picks =~= rest.push(b));
    }
}

/// With blocks of width one every block is a single configuration, so the
/// draws of `nconfs` indices are exactly the sequences of `nconfs` indices
/// below `nconfs`, each index a pick of its own.
pub proof fn lemma_unit_width_draws(d: Seq<usize>, nconfs: int)
    requires
        nconfs >= 0,
    ensures
        is_block_draw(d, nconfs, 1) <==> (d.len() == nconfs && forall|i: int|
            0 <= i < d.len() ==> #[trigger] d[i] < nconfs),
{
    if is_block_draw(d, nconfs, 1) {
        let picks = choose|picks: Seq<int>|
            valid_picks(nconfs, 1, picks) && joined_blocks(nconfs, 1, picks).len() >= nconfs
                && #[trigger] joined_blocks(nconfs, 1, picks).take(nconfs) == as_ints(d);
        lemma_unit_blocks_join(nconfs, picks);
        assert forall|i: int| 0 <= i < d.len() implies #[trigger] d[i] < nconfs by {
            assert(as_ints(d)[i] == picks.take(nconfs)[i]);
            assert(0 <= picks[i] < block_count(nconfs, 1));
        }
    }
    if d.len() == nconfs && forall|i: int| 0 <= i < d.len() ==> #[trigger] d[i] < nconfs {
        let picks = as_ints(d);
        assert(valid_picks(nconfs, 1, picks)) by {
            assert forall|j: int| 0 <= j < picks.len() implies 0 <= #[trigger] picks[j]
                < block_count(nconfs, 1) by {
                assert(picks[j] == d[j] as int);
            }
        }
        lemma_unit_blocks_join(nconfs, picks);
        assert(joined_blocks(nconfs, 1, picks).take(nconfs) =~= as_ints(d));
    }
}

/// The values at the indices of `d`, in the order of `d`: a draw applied to
/// one column of configurations.
pub fn gather<T: Copy>(values: &Vec<T>, d: &Vec<usize>) -> (r: Vec<T>)
    requires
        forall|i: int| 0 <= i < d.len() ==> #[trigger] d[i] < values.len(),
    ensures
        r.len() == d.len(),
        forall|i: int| 0 <= i < d.len() ==> #[trigger] r[i] == values[d[i] as int],
{
    let mut r: Vec<T> = Vec::with_capacity(d.len());
    let mut i: usize = 0;
    while i < d.len()
        invariant
            i <= d.len(),
            r.len() == i,
            forall|j: int| 0 <= j < d.len() ==> #[trigger] d[j] < values.len(),
            forall|j: int| 0 <= j < i ==> #[trigger] r[j] == values[d[j] as int],
        decreases d.len() - i,
    {
        r.push(values[d[i]]);
        i = i + 1;
    }
    r
}

} // verus!
