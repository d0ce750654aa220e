//! The output text format: each topic on its own line, followed by its
//! summary and a blank line when the topic is active, or by a blank line
//! alone when it is not. Active topics consume the summary list in order,
//! so the format is well defined only when the number of active topics
//! equals the number of summaries.

use vstd::prelude::*;

verus! {

/// How many flags in `s` are set.
pub open spec fn count_true(s: Seq<bool>) -> nat
    decreases s.len(),
{
    if s.len() == 0 {
        0
    } else {
        (if s[0] {
            1nat
        } else {
            0nat
        }) + count_true(s.skip(1))
    }
}

/// The serialized text for aligned topic, flag and summary lists.
pub open spec fn render_spec(topics: Seq<Seq<char>>, active: Seq<bool>, summaries: Seq<Seq<char>>) -> Seq<char>
    decreases topics.len(),
{
    if topics.len() == 0 {
        seq![]
    } else if active[0] {
        topics[0] + seq!['\n'] + summaries[0] + seq!['\n', '\n'] + render_spec(
            topics.skip(1),
            active.skip(1),
            summaries.skip(1),
        )
    } else {
        topics[0] + seq!['\n'] + seq!['\n', '\n'] + render_spec(
            topics.skip(1),
            active.skip(1),
            summaries,
        )
    }
}

/// Appending one flag adds one to the count exactly when it is set.
pub proof fn lemma_count_true_push(s: Seq<bool>, x: bool)
    ensures
        count_true(s.push(x)) == count_true(s) + (if x {
            1nat
        } else {
            0nat
        }),
    decreases s.len(),
{
    assert(count_true(s.push(x)) == (if s.push(x)[0] {
        1nat
    } else {
        0nat
    }) + count_true(s.push(x).skip(1)));
    if s.len() == 0 {
        assert(s.push(x)[0] == x);
        assert(s.push(x).skip(1) =~= Seq::<bool>::empty());
        assert(count_true(Seq::<bool>::empty()) == 0);
    } else {
        assert(s.push(x)[0] == s[0]);
        assert(s.push(x).skip(1) =~= s.skip(1).push(x));
        lemma_count_true_push(s.skip(1), x);
    }
}

/// The count over `s` splits at any position `i`.
pub proof fn lemma_count_true_split(s: Seq<bool>, i: int)
    requires
        0 <= i <= s.len(),
    ensures
        count_true(s) == count_true(s.take(i)) + count_true(s.skip(i)),
    decreases i,
{
    if i == 0 {
        assert(s.take(0) =~= Seq::<bool>::empty());
        assert(s.skip(0) =~= s);
    } else {
        lemma_count_true_split(s, i - 1);
        assert(s.take(i) =~= s.take(i - 1).push(s[i - 1]));
        lemma_count_true_push(s.take(i - 1), s[i - 1]);
        assert(s.skip(i - 1).len() > 0);
        assert(s.skip(i - 1)[0] == s[i - 1]);
        assert(s.skip(i - 1).skip(1) =~= s.skip(i));
    }
}

/// A sequence of set flags counts to its own length.
pub proof fn lemma_count_true_all_true(s: Seq<bool>)
    requires
        forall|j: int| 0 <= j < s.len() ==> s[j],
    ensures
        count_true(s) == s.len(),
    decreases s.len(),
{
    if s.len() > 0 {
        lemma_count_true_all_true(s.skip(1));
    }
}

} // verus!
