//! Placing a trial's flips among the outcomes, and counting trials per outcome.

use vstd::prelude::*;

use crate::coin::{flips_text, Coin};
use crate::outcomes::{lemma_two_pow_monotone, outcome_of, two_pow};

verus! {

/// The sum of a sequence of counts.
pub open spec fn seq_sum(s: Seq<usize>) -> int
    decreases s.len(),
{
    if s.len() == 0 {
        0
    } else {
        seq_sum(s.drop_last()) + s.last()
    }
}

/// The position of a trial's flips in the ascending list of outcomes: the
/// flips read as binary digits, heads 0 and tails 1, first flip most
/// significant.
pub open spec fn flips_index(flips: Seq<Coin>) -> nat
    decreases flips.len(),
{
    if flips.len() == 0 {
        0
    } else {
        2 * flips_index(flips.drop_last()) + (if flips.last() == Coin::Tails {
            1nat
        } else {
            0nat
        })
    }
}

/// The outcome at a trial's position is the text of its flips.
pub proof fn lemma_flips_index(flips: Seq<Coin>)
    ensures
        flips_index(flips) < two_pow(flips.len()),
        outcome_of(flips.len(), flips_index(flips)) == flips_text(flips),
    decreases flips.len(),
{
    if flips.len() > 0 {
        let rest = flips.drop_last();
        lemma_flips_index(rest);
        let i = flips_index(flips);
        assert(i / 2 == flips_index(rest));
        assert(flips_text(flips) =~= flips_text(rest).push(flips.last().symbol()));
    } else {
        assert(flips_text(flips) =~= Seq::<char>::empty());
    }
}

pub proof fn lemma_sum_push(s: Seq<usize>, x: usize)
    ensures
        seq_sum(s.push(x)) == seq_sum(s) + x,
{
    assert(s.push(x).drop_last() =~= s);
}

pub proof fn lemma_sum_update(s: Seq<usize>, i: int, v: usize)
    requires
        0 <= i < s.len(),
    ensures
        seq_sum(s.update(i, v)) == seq_sum(s) - s[i] + v,
        s[i] <= seq_sum(s),
    decreases s.len(),
{
    let t = s.update(i, v);
    if i < s.len() - 1 {
        lemma_sum_update(s.drop_last(), i, v);
        assert(t.drop_last() =~= s.drop_last().update(i, v));
    } else {
        assert(t.drop_last() =~= s.drop_last());
        lemma_sum_nonneg(s.drop_last());
    }
}

pub proof fn lemma_sum_nonneg(s: Seq<usize>)
    ensures
        seq_sum(s) >= 0,
    decreases s.len(),
{
    if s.len() > 0 {
        lemma_sum_nonneg(s.drop_last());
    }
}

/// The position of a trial's flips in the ascending list of outcomes.
pub fn outcome_index(flips: &Vec<Coin>) -> (r: usize)
    requires
        two_pow(flips@.len()) <= usize::MAX,
    ensures
        r == flips_index(flips@),
        r < two_pow(flips@.len()),
        outcome_of(flips@.len(), r as nat) == flips_text(flips@),
{
    let mut idx: usize = 0;
    let mut j: usize = 0;
    while j < flips.len()
        invariant
            j <= flips@.len(),
            two_pow(flips@.len()) <= usize::MAX,
            idx == flips_index(flips@.subrange(0, j as int)),
        decreases flips@.len() - j,
    {
        proof {
            lemma_flips_index(flips@.subrange(0, j as int));
            lemma_two_pow_monotone((j + 1) as nat, flips@.len());
            assert(flips@.subrange(0, j + 1).drop_last() =~= flips@.subrange(0, j as int));
        }
        let bit: usize = match flips[j] {
            Coin::Heads => 0,
            Coin::Tails => 1,
        };
        idx = 2 * idx + bit;
        j = j + 1;
    }
    proof {
        assert(flips@.subrange(0, flips@.len() as int) =~= flips@);
        lemma_flips_index(flips@);
    }
    idx
}

/// Adds one trial to the tally: the count of the outcome that its flips
/// spell grows by one, and every other count stays.
pub fn record_trial(counts: &mut Vec<usize>, flips: &Vec<Coin>)
    requires
        two_pow(flips@.len()) <= usize::MAX,
        old(counts)@.len() == two_pow(flips@.len()),
        old(counts)@[flips_index(flips@) as int] < usize::MAX,
    ensures
        final(counts)@ == old(counts)@.update(
            flips_index(flips@) as int,
            (old(counts)@[flips_index(flips@) as int] + 1) as usize,
        ),
        seq_sum(final(counts)@) == seq_sum(old(counts)@) + 1,
{
    let idx = outcome_index(flips);
    let c = counts[idx];
    proof {
        lemma_sum_update(counts@, idx as int, (c + 1) as usize);
    }
    counts.set(idx, c + 1);
}

} // verus!
