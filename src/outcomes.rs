//! The outcomes of `k` flips, in ascending order.

use vstd::prelude::*;

use crate::error::SimulationError;

verus! {

/// Two to the power `k`: how many distinct outcomes `k` flips have.
pub open spec fn two_pow(k: nat) -> nat
    decreases k,
{
    if k == 0 {
        1
    } else {
        2 * two_pow((k - 1) as nat)
    }
}

/// The symbol that stands for a binary digit: `H` for 0, `T` for 1.
pub open spec fn digit_symbol(i: nat) -> char {
    if i % 2 == 0 {
        'H'
    } else {
        'T'
    }
}

/// The outcome at position `i` of the ascending list of outcomes of `k` flips:
/// the `k` low binary digits of `i`, most significant first, with `H` for 0
/// and `T` for 1.
pub open spec fn outcome_of(k: nat, i: nat) -> Seq<char>
    decreases k,
{
    if k == 0 {
        Seq::empty()
    } else {
        outcome_of((k - 1) as nat, i / 2).push(digit_symbol(i))
    }
}

/// `outs` is the list of all outcomes of `k` flips, in ascending order.
pub open spec fn lists_outcomes(k: nat, outs: Seq<String>) -> bool {
    &&& outs.len() == two_pow(k)
    &&& forall|i: int| 0 <= i < outs.len() ==> (#[trigger] outs[i])@ == outcome_of(k, i as nat)
}

/// `a` comes strictly before `b` in lexicographic order: at the first position
/// where they differ, `a` holds the smaller character.
pub open spec fn lex_less(a: Seq<char>, b: Seq<char>) -> bool {
    exists|p: int|
        0 <= p < a.len() && p < b.len() && #[trigger] a.subrange(0, p) == b.subrange(0, p)
            && (a[p] as u32) < (b[p] as u32)
}

pub proof fn lemma_two_pow_monotone(a: nat, b: nat)
    requires
        a <= b,
    ensures
        1 <= two_pow(a) <= two_pow(b),
    decreases b,
{
    if b > a {
        lemma_two_pow_monotone(a, (b - 1) as nat);
    } else if a > 0 {
        lemma_two_pow_monotone((a - 1) as nat, (a - 1) as nat);
    }
}

pub proof fn lemma_outcome_len(k: nat, i: nat)
    ensures
        outcome_of(k, i).len() == k,
    decreases k,
{
    if k > 0 {
        lemma_outcome_len((k - 1) as nat, i / 2);
    }
}

pub proof fn lemma_lex_less_differ(a: Seq<char>, b: Seq<char>)
    requires
        lex_less(a, b),
    ensures
        a != b,
{
    let p = choose|p: int|
        0 <= p < a.len() && p < b.len() && #[trigger] a.subrange(0, p) == b.subrange(0, p)
            && (a[p] as u32) < (b[p] as u32);
    assert(a[p] != b[p]);
}

/// Outcomes at smaller positions come first in lexicographic order.
pub proof fn lemma_outcome_order(k: nat, i: nat, j: nat)
    requires
        i < j < two_pow(k),
    ensures
        lex_less(outcome_of(k, i), outcome_of(k, j)),
    decreases k,
{
    let k1 = (k - 1) as nat;
    let a = outcome_of(k1, i / 2);
    let b = outcome_of(k1, j / 2);
    lemma_outcome_len(k1, i / 2);
    lemma_outcome_len(k1, j / 2);
    let x = outcome_of(k, i);
    let y = outcome_of(k, j);
    assert(x == a.push(digit_symbol(i)));
    assert(y == b.push(digit_symbol(j)));
    if i / 2 < j / 2 {
        lemma_outcome_order(k1, i / 2, j / 2);
        let p = choose|p: int|
            0 <= p < a.len() && p < b.len() && #[trigger] a.subrange(0, p) == b.subrange(0, p)
                && (a[p] as u32) < (b[p] as u32);
        assert(x.subrange(0, p) =~= a.subrange(0, p));
        assert(y.subrange(0, p) =~= b.subrange(0, p));
        assert(x[p] == a[p] && y[p] == b[p]);
        assert(x.subrange(0, p) == y.subrange(0, p));
    } else {
        assert(a == b);
        let p = k1 as int;
        assert(x.subrange(0, p) =~= a);
        assert(y.subrange(0, p) =~= b);
        assert(x[p] == 'H' && y[p] == 'T');
        assert(x.subrange(0, p) == y.subrange(0, p));
    }
}

/// In the outcome at position `i` of `k` flips, the symbol at position `j`
/// is `H` where `i / 2^(k - 1 - j)` is even and `T` where it is odd.
pub proof fn lemma_outcome_symbol(k: nat, i: nat, j: nat)
    requires
        j < k,
    ensures
        outcome_of(k, i).len() == k,
        outcome_of(k, i)[j as int] == digit_symbol(i / two_pow((k - 1 - j) as nat)),
    decreases k,
{
    let k1 = (k - 1) as nat;
    lemma_outcome_len(k, i);
    lemma_outcome_len(k1, i / 2);
    if j < k1 {
        lemma_outcome_symbol(k1, i / 2, j);
        let d = two_pow((k1 - 1 - j) as nat);
        lemma_two_pow_monotone(0, (k1 - 1 - j) as nat);
        assert(two_pow((k - 1 - j) as nat) == 2 * d);
        vstd::arithmetic::div_mod::lemma_div_denominator(i as int, 2, d as int);
        assert(outcome_of(k, i)[j as int] == outcome_of(k1, i / 2)[j as int]);
    } else {
        assert(two_pow(0) == 1);
        assert(i / 1 == i);
    }
}

/// The outcomes of `k` flips in ascending order are `2^k` strings of `k`
/// symbols each, every one strictly before the next in lexicographic order,
/// and hence no two alike.
pub proof fn lemma_outcomes_sorted_distinct(k: nat, outs: Seq<String>)
    requires
        lists_outcomes(k, outs),
    ensures
        outs.len() == two_pow(k),
        forall|i: int| 0 <= i < outs.len() ==> (#[trigger] outs[i])@.len() == k,
        forall|i: int, j: int|
            0 <= i < j < outs.len() ==> lex_less((#[trigger] outs[i])@, (#[trigger] outs[j])@),
        forall|i: int, j: int|
            0 <= i < outs.len() && 0 <= j < outs.len() && i != j ==> (#[trigger] outs[i])@
                != (#[trigger] outs[j])@,
{
    assert forall|i: int| 0 <= i < outs.len() implies (#[trigger] outs[i])@.len() == k by {
        lemma_outcome_len(k, i as nat);
    }
    assert forall|i: int, j: int| 0 <= i < j < outs.len() implies lex_less(
        (#[trigger] outs[i])@,
        (#[trigger] outs[j])@,
    ) by {
        lemma_outcome_order(k, i as nat, j as nat);
    }
    assert forall|i: int, j: int|
        0 <= i < outs.len() && 0 <= j < outs.len() && i != j implies (#[trigger] outs[i])@
        != (#[trigger] outs[j])@ by {
        if i < j {
            lemma_outcome_order(k, i as nat, j as nat);
            lemma_lex_less_differ(outs[i]@, outs[j]@);
        } else {
            lemma_outcome_order(k, j as nat, i as nat);
            lemma_lex_less_differ(outs[j]@, outs[i]@);
        }
    }
}

/// The number of outcomes of `flips_per_iteration` flips: 2 to that power.
/// Fails with `Overflow` where that number does not fit in a `usize`.
pub fn get_num_outcomes(flips_per_iteration: usize) -> (r: Result<usize, SimulationError>)
    ensures
        two_pow(flips_per_iteration as nat) <= usize::MAX ==> r == Ok::<usize, SimulationError>(
            two_pow(flips_per_iteration as nat) as usize,
        ),
        two_pow(flips_per_iteration as nat) > usize::MAX ==> r == Err::<usize, SimulationError>(
            SimulationError::Overflow,
        ),
{
    let mut r: usize = 1;
    let mut i: usize = 0;
    while i < flips_per_iteration
        invariant
            i <= flips_per_iteration,
            r == two_pow(i as nat),
        decreases flips_per_iteration - i,
    {
        match r.checked_mul(2) {
            Some(d) => {
                r = d;
            },
            None => {
                proof {
                    lemma_two_pow_monotone((i + 1) as nat, flips_per_iteration as nat);
                }
                return Err(SimulationError::Overflow);
            },
        }
        i = i + 1;
    }
    Ok(r)
}

/// All outcomes of `flips_per_iteration` flips, in ascending order (`H`
/// before `T`, first flip most significant): `2^flips_per_iteration` strings
/// of `flips_per_iteration` symbols each. Fails with `Overflow` where
/// `2^flips_per_iteration` does not fit in a `usize`.
pub fn get_all_outcomes(flips_per_iteration: usize) -> (r: Result<Vec<String>, SimulationError>)
    ensures
        two_pow(flips_per_iteration as nat) <= usize::MAX ==> match r {
            Ok(outs) => lists_outcomes(flips_per_iteration as nat, outs@),
            Err(_) => false,
        },
        two_pow(flips_per_iteration as nat) > usize::MAX ==> r == Err::<Vec<String>, SimulationError>(
            SimulationError::Overflow,
        ),
{
    match get_num_outcomes(flips_per_iteration) {
        Ok(_) => Ok(list_outcomes(flips_per_iteration)),
        Err(e) => Err(e),
    }
}

/// All outcomes of `flips_per_iteration` flips, in ascending order, where
/// their number is known to fit in a `usize`.
pub(crate) fn list_outcomes(flips_per_iteration: usize) -> (r: Vec<String>)
    requires
        two_pow(flips_per_iteration as nat) <= usize::MAX,
    ensures
        lists_outcomes(flips_per_iteration as nat, r@),
{
    let mut results: Vec<String> = Vec::new();
    results.push(String::new());
    let mut m: usize = 0;
    while m < flips_per_iteration
        invariant
            m <= flips_per_iteration,
            two_pow(flips_per_iteration as nat) <= usize::MAX,
            lists_outcomes(m as nat, results@),
        decreases flips_per_iteration - m,
    {
        proof {
            lemma_two_pow_monotone((m + 1) as nat, flips_per_iteration as nat);
        }
        let ghost m1 = (m + 1) as nat;
        let mut next: Vec<String> = Vec::new();
        let mut i: usize = 0;
        while i < results.len()
            invariant
                i <= results@.len(),
                results@.len() == two_pow(m as nat),
                two_pow(m1) == 2 * two_pow(m as nat),
                two_pow(m1) <= usize::MAX,
                m1 == m + 1,
                lists_outcomes(m as nat, results@),
                next@.len() == 2 * i,
                forall|j: int| 0 <= j < next@.len() ==> (#[trigger] next@[j])@ == outcome_of(m1, j as nat),
            decreases results@.len() - i,
        {
            let mut heads = results[i].clone();
            heads.append("H");
            let mut tails = results[i].clone();
            tails.append("T");
            proof {
                reveal_strlit("H");
                reveal_strlit("T");
                assert("H"@ =~= seq!['H']);
                assert("T"@ =~= seq!['T']);
                let prev = outcome_of(m as nat, i as nat);
                assert(results@[i as int]@ == prev);
                assert((2 * i) as nat / 2 == i && (2 * i + 1) as nat / 2 == i);
                assert(outcome_of(m1, (2 * i) as nat) == prev.push('H'));
                assert(outcome_of(m1, (2 * i + 1) as nat) == prev.push('T'));
                assert(heads@ =~= prev.push('H'));
                assert(tails@ =~= prev.push('T'));
            }
            next.push(heads);
            next.push(tails);
            i = i + 1;
        }
        results = next;
        m = m + 1;
    }
    results
}

} // verus!
