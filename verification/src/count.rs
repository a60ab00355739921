//! Counting the true positions of a boolean sequence. The dispatcher's
//! accounting invariant ties its active counter to the number of busy
//! workers and of tracked workers, and these are the lemmas it runs on.

use vstd::prelude::*;

verus! {

/// How many positions of `s` hold `true`.
pub open spec fn count_true(s: Seq<bool>) -> int
    decreases s.len(),
{
    if s.len() == 0 {
        0
    } else {
        count_true(s.drop_last()) + if s.last() {
            1int
        } else {
            0int
        }
    }
}

pub proof fn lemma_count_true_bounds(s: Seq<bool>)
    ensures
        0 <= count_true(s) <= s.len(),
    decreases s.len(),
{
    if s.len() > 0 {
        lemma_count_true_bounds(s.drop_last());
    }
}

/// Counting a prefix one longer adds the newly covered position.
pub proof fn lemma_count_true_take_step(s: Seq<bool>, i: int)
    requires
        0 <= i < s.len(),
    ensures
        count_true(s.take(i + 1)) == count_true(s.take(i)) + if s[i] {
            1int
        } else {
            0int
        },
{
    assert(s.take(i + 1).drop_last() =~= s.take(i));
    assert(s.take(i + 1).last() == s[i]);
}

pub proof fn lemma_count_true_take_all(s: Seq<bool>)
    ensures
        count_true(s.take(s.len() as int)) == count_true(s),
{
    assert(s.take(s.len() as int) =~= s);
}

/// Replacing one position adjusts the count by what left and what came.
pub proof fn lemma_count_true_update(s: Seq<bool>, i: int, b: bool)
    requires
        0 <= i < s.len(),
    ensures
        count_true(s.update(i, b)) == count_true(s) - (if s[i] {
            1int
        } else {
            0int
        }) + (if b {
            1int
        } else {
            0int
        }),
    decreases s.len(),
{
    let t = s.update(i, b);
    if i == s.len() - 1 {
        assert(t.drop_last() =~= s.drop_last());
        assert(t.last() == b);
    } else {
        assert(t.drop_last() =~= s.drop_last().update(i, b));
        assert(t.last() == s.last());
        lemma_count_true_update(s.drop_last(), i, b);
    }
}

/// A sequence with a true position has a positive count.
pub proof fn lemma_count_true_at(s: Seq<bool>, i: int)
    requires
        0 <= i < s.len(),
        s[i],
    ensures
        count_true(s) >= 1,
    decreases s.len(),
{
    if i == s.len() - 1 {
        lemma_count_true_bounds(s.drop_last());
    } else {
        lemma_count_true_at(s.drop_last(), i);
    }
}

/// Every sequence is a prefix of itself.
pub broadcast proof fn lemma_prefix_refl<T>(s: Seq<T>)
    ensures
        #[trigger] s.is_prefix_of(s),
{
    assert(s =~= s.subrange(0, s.len() as int));
}

/// A sequence is a prefix of itself with one element appended.
pub broadcast proof fn lemma_prefix_push<T>(s: Seq<T>, e: T)
    ensures
        #[trigger] s.is_prefix_of(s.push(e)),
{
    assert(s =~= s.push(e).subrange(0, s.len() as int));
}

/// An all-true sequence counts its length; an all-false one counts zero.
pub proof fn lemma_count_true_uniform(s: Seq<bool>)
    ensures
        (forall|i: int| 0 <= i < s.len() ==> s[i]) ==> count_true(s) == s.len(),
        (forall|i: int| 0 <= i < s.len() ==> !s[i]) ==> count_true(s) == 0,
    decreases s.len(),
{
    if s.len() > 0 {
        lemma_count_true_uniform(s.drop_last());
    }
}

} // verus!
