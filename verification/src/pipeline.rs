//! The summary pipeline, seen from the store's side. A pass walks the
//! topics in order; for each active topic the external collaborator first
//! resolves the topic to an ordered list of candidate titles and then
//! fetches a summary for the best match. What the store learns about one
//! topic is a [`TopicOutcome`]; this module defines how a single outcome,
//! and a whole pass of them, transform the store's lists.

use vstd::prelude::*;
use crate::serialize::count_true;

verus! {

/// What one pipeline pass learned about one topic.
pub enum TopicOutcome {
    /// The topic was inactive, so no query was made for it.
    NotQueried,
    /// The search request failed; the topic is skipped for this pass.
    ResolveFailed,
    /// The search returned no candidate titles; the topic is deactivated.
    NoCandidates,
    /// Candidate titles were found but fetching the summary failed; nothing
    /// is committed, so summaries and candidate sets stay aligned.
    FetchFailed { candidates: Vec<String> },
    /// Candidate titles were found, best match first, and a summary was
    /// fetched for the best one.
    Fetched { candidates: Vec<String>, summary: String },
}

/// A well-formed outcome: search never hands back an empty candidate list
/// except as the `NoCandidates` outcome itself.
pub open spec fn outcome_wf(o: TopicOutcome) -> bool {
    match o {
        TopicOutcome::FetchFailed { candidates } => candidates@.len() > 0,
        TopicOutcome::Fetched { candidates, summary: _ } => candidates@.len() > 0,
        _ => true,
    }
}

/// A topic's active flag after its outcome: cleared by a zero-candidate
/// resolution, otherwise unchanged.
pub open spec fn step_flag(was_active: bool, o: TopicOutcome) -> bool {
    was_active && !(o is NoCandidates)
}

/// The summary list after one topic's outcome: a summary fetched for an
/// active topic is appended, anything else leaves the list as it was.
pub open spec fn step_summaries(ss: Seq<Seq<char>>, was_active: bool, o: TopicOutcome) -> Seq<Seq<char>> {
    match o {
        TopicOutcome::Fetched { candidates: _, summary } => if was_active {
            ss.push(summary@)
        } else {
            ss
        },
        _ => ss,
    }
}

/// The candidate-set list after one topic's outcome: committed exactly when
/// the paired summary is, keeping the two lists aligned.
pub open spec fn step_choices(cs: Seq<Seq<Seq<char>>>, was_active: bool, o: TopicOutcome) -> Seq<Seq<Seq<char>>> {
    match o {
        TopicOutcome::Fetched { candidates, summary: _ } => if was_active {
            cs.push(candidates.deep_view())
        } else {
            cs
        },
        _ => cs,
    }
}

/// The active flags after a whole pass: each topic's flag after its own
/// outcome; outcomes of different topics do not interfere.
pub open spec fn pass_active(active: Seq<bool>, outs: Seq<TopicOutcome>) -> Seq<bool> {
    Seq::new(active.len(), |i: int| step_flag(active[i], outs[i]))
}

/// The summaries a whole pass collects, in topic order.
pub open spec fn pass_summaries(active: Seq<bool>, outs: Seq<TopicOutcome>) -> Seq<Seq<char>>
    decreases outs.len(),
{
    if outs.len() == 0 || active.len() == 0 {
        seq![]
    } else {
        step_summaries(seq![], active[0], outs[0]) + pass_summaries(active.skip(1), outs.skip(1))
    }
}

/// The candidate sets a whole pass collects, in topic order.
pub open spec fn pass_choices(active: Seq<bool>, outs: Seq<TopicOutcome>) -> Seq<Seq<Seq<char>>>
    decreases outs.len(),
{
    if outs.len() == 0 || active.len() == 0 {
        seq![]
    } else {
        step_choices(seq![], active[0], outs[0]) + pass_choices(active.skip(1), outs.skip(1))
    }
}

/// An outcome that settles its topic for this pass: either a summary was
/// committed or the topic was deactivated. Failed resolves and fetches are
/// not decisive — they skip the topic while leaving it active.
pub open spec fn decisive(o: TopicOutcome) -> bool {
    o is Fetched || o is NoCandidates
}

/// A decisive pass leaves the store renderable: when every active topic's
/// outcome either committed a summary or deactivated the topic, the number
/// of topics still active afterwards equals the number of summaries
/// collected, so the serializer's alignment precondition holds.
pub proof fn lemma_decisive_pass_aligned(active: Seq<bool>, outs: Seq<TopicOutcome>)
    requires
        outs.len() == active.len(),
        forall|i: int| 0 <= i < outs.len() && active[i] ==> decisive(#[trigger] outs[i]),
    ensures
        count_true(pass_active(active, outs)) == pass_summaries(active, outs).len(),
    decreases outs.len(),
{
    if outs.len() == 0 {
        assert(pass_active(active, outs) =~= Seq::<bool>::empty());
    } else {
        assert forall|i: int| 0 <= i < outs.skip(1).len() && active.skip(1)[i] implies decisive(
            #[trigger] outs.skip(1)[i],
        ) by {
            assert(outs.skip(1)[i] == outs[i + 1]);
            assert(active.skip(1)[i] == active[i + 1]);
        }
        lemma_decisive_pass_aligned(active.skip(1), outs.skip(1));
        let pa = pass_active(active, outs);
        assert(pa.skip(1) =~= pass_active(active.skip(1), outs.skip(1)));
        assert(pa.len() > 0);
        assert(pa[0] == step_flag(active[0], outs[0]));
        assert(count_true(pa) == (if pa[0] {
            1nat
        } else {
            0nat
        }) + count_true(pa.skip(1)));
        assert(active[0] ==> decisive(outs[0]));
    }
}

/// A fully successful pass — every topic active, every outcome a fetched
/// summary — collects exactly one summary per topic and keeps every topic
/// active, so the store stays renderable.
pub proof fn lemma_full_pass_one_summary_each(active: Seq<bool>, outs: Seq<TopicOutcome>)
    requires
        outs.len() == active.len(),
        forall|i: int| 0 <= i < active.len() ==> active[i],
        forall|i: int| 0 <= i < outs.len() ==> #[trigger] outs[i] is Fetched,
    ensures
        pass_summaries(active, outs).len() == outs.len(),
        pass_active(active, outs) == active,
        count_true(pass_active(active, outs)) == outs.len(),
    decreases outs.len(),
{
    assert(pass_active(active, outs) =~= active);
    crate::serialize::lemma_count_true_all_true(active);
    if outs.len() > 0 {
        assert forall|i: int| 0 <= i < outs.skip(1).len() implies #[trigger] outs.skip(1)[i] is Fetched by {
            assert(outs.skip(1)[i] == outs[i + 1]);
        }
        assert forall|i: int| 0 <= i < active.skip(1).len() implies active.skip(1)[i] by {
            assert(active.skip(1)[i] == active[i + 1]);
        }
        lemma_full_pass_one_summary_each(active.skip(1), outs.skip(1));
        assert(active[0] && outs[0] is Fetched);
    }
}

} // verus!
