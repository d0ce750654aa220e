//! The shared application model: the ordered topic list loaded from a text
//! file, per-topic active flags, the summaries and candidate sets a
//! pipeline pass collects, the selection cursor, and the serializer that
//! writes topics and summaries back out. The desktop shell drives it
//! synchronously; the browser shell drives the same model through deferred
//! events.

use vstd::prelude::*;
use crate::pipeline::TopicOutcome;
use crate::pipeline::outcome_wf;
use crate::pipeline::step_flag;
use crate::pipeline::step_summaries;
use crate::pipeline::step_choices;
use crate::pipeline::pass_active;
use crate::pipeline::pass_summaries;
use crate::pipeline::pass_choices;
use crate::serialize::count_true;
use crate::serialize::render_spec;
use crate::serialize::lemma_count_true_push;
use crate::serialize::lemma_count_true_split;
use crate::serialize::lemma_count_true_all_true;
use crate::text::parse_topics;
use crate::text::parse_rec;
use crate::text::emit_line;
use crate::text::trim;
use crate::text::spec_is_space;
use crate::text::is_space;
use crate::text::lemma_trim_subrange;

verus! {

/// The application model the desktop shell owns.
pub struct Window {
    /// The ordered topic list, one entry per non-blank line of the loaded file.
    pub topics: Vec<String>,
    /// One flag per topic: whether it takes part in fetching and output pairing.
    pub active_topics: Vec<bool>,
    /// The fetched summaries, in topic order, one per active topic whose
    /// resolve and fetch both succeeded.
    pub summaries: Vec<String>,
    /// The candidate titles behind each summary, best match first; entry `i`
    /// pairs with summary `i`.
    pub topic_choices: Vec<Vec<String>>,
    /// Which summary the shell currently shows in detail, if any.
    pub active_summary: Option<usize>,
    /// The candidate title currently chosen for the selected summary.
    pub chosen_topic: String,
    /// Whether a pipeline pass is in progress; guards against re-entry.
    pub running: bool,
}

impl Window {
    /// The model's internal invariant: flags parallel the topics, candidate
    /// sets parallel the summaries and are never empty, and the selection,
    /// when present, points at an existing summary.
    pub open spec fn wf(self) -> bool {
        &&& self.active_topics@.len() == self.topics@.len()
        &&& self.topic_choices@.len() == self.summaries@.len()
        &&& forall|j: int|
            0 <= j < self.topic_choices@.len() ==> #[trigger] self.topic_choices@[j]@.len() > 0
        &&& (self.active_summary matches Some(i) ==> i < self.summaries@.len())
    }

    /// Whether the serializer may run: each active topic must have exactly
    /// one summary to pair with, in order.
    pub open spec fn render_allowed(self) -> bool {
        count_true(self.active_topics@) == self.summaries@.len()
    }

    /// The state `load` leaves for file text `content`: the parsed topic
    /// list, every topic active, and no derived state.
    pub open spec fn loaded_from(self, content: Seq<char>) -> bool {
        &&& self.topics.deep_view() == parse_topics(content)
        &&& self.active_topics@.len() == self.topics@.len()
        &&& forall|j: int| 0 <= j < self.active_topics@.len() ==> self.active_topics@[j]
        &&& self.summaries@.len() == 0
        &&& self.topic_choices@.len() == 0
        &&& self.active_summary is None
        &&& self.chosen_topic@.len() == 0
    }

    /// An empty model: no topics, no summaries, nothing selected, no pass
    /// running.
    pub fn new() -> (w: Window)
        ensures
            w.wf(),
            w.topics@.len() == 0,
            w.active_topics@.len() == 0,
            w.summaries@.len() == 0,
            w.topic_choices@.len() == 0,
            w.active_summary is None,
            w.chosen_topic@.len() == 0,
            !w.running,
    {
        Window {
            topics: Vec::new(),
            active_topics: Vec::new(),
            summaries: Vec::new(),
            topic_choices: Vec::new(),
            active_summary: None,
            chosen_topic: String::new(),
            running: false,
        }
    }

    /// Replaces the topic list with the trimmed non-blank lines of
    /// `content`, marks every topic active, and clears all derived state:
    /// summaries, candidate sets, selection and chosen candidate. Decoding
    /// is the caller's concern: a source that cannot be decoded to text is
    /// never handed here, which leaves the prior state untouched.
    pub fn load(&mut self, content: &str)
        requires
            old(self).wf(),
            content@.len() < usize::MAX,
        ensures
            final(self).wf(),
            final(self).loaded_from(content@),
            final(self).running == old(self).running,
    {
        let ghost s = content@;
        let n = content.unicode_len();
        let mut topics: Vec<String> = Vec::new();
        let mut flags: Vec<bool> = Vec::new();
        let mut ls: usize = 0;
        let mut i: usize = 0;
        proof {
            assert(s.skip(0) =~= s);
            assert(s.subrange(0, 0) =~= Seq::<char>::empty());
            assert(topics.deep_view() =~= Seq::<Seq<char>>::empty());
            assert(Seq::<Seq<char>>::empty() + parse_rec(s, Seq::<char>::empty()) =~= parse_rec(
                s,
                Seq::<char>::empty(),
            ));
        }
        while i <= n
            invariant
                s == content@,
                n == s.len(),
                n < usize::MAX,
                i <= n + 1,
                ls <= i,
                flags@.len() == topics@.len(),
                forall|j: int| 0 <= j < flags@.len() ==> flags@[j],
                i <= n ==> parse_topics(s) == topics.deep_view() + parse_rec(
                    s.skip(i as int),
                    s.subrange(ls as int, i as int),
                ),
                i > n ==> parse_topics(s) == topics.deep_view(),
            decreases n + 1 - i,
        {
            let at_line_end = if i == n {
                true
            } else {
                content.get_char(i) == '\n'
            };
            let ghost cur = s.subrange(ls as int, i as int);
            if at_line_end {
                let mut a = ls;
                while a < i && is_space(content.get_char(a))
                    invariant
                        s == content@,
                        n == s.len(),
                        ls <= a <= i <= n,
                        forall|k: int| ls <= k < a ==> spec_is_space(s[k]),
                    decreases i - a,
                {
                    a = a + 1;
                }
                let mut b = i;
                while b > a && is_space(content.get_char(b - 1))
                    invariant
                        s == content@,
                        n == s.len(),
                        a <= b <= i <= n,
                        forall|k: int| b <= k < i ==> spec_is_space(s[k]),
                    decreases b,
                {
                    b = b - 1;
                }
                proof {
                    lemma_trim_subrange(s, ls as int, i as int, a as int, b as int);
                }
                let ghost old_deep = topics.deep_view();
                if a < b {
                    let piece = content.substring_char(a, b).to_owned();
                    topics.push(piece);
                    flags.push(true);
                    proof {
                        assert(topics.deep_view() =~= old_deep.push(
                            s.subrange(a as int, b as int),
                        ));
                        assert(emit_line(cur) =~= seq![s.subrange(a as int, b as int)]);
                        assert(topics.deep_view() =~= old_deep + emit_line(cur));
                    }
                } else {
                    proof {
                        assert(trim(cur).len() == 0);
                        assert(topics.deep_view() =~= old_deep + emit_line(cur));
                    }
                }
                proof {
                    if i < n {
                        assert(s.skip(i as int).len() > 0);
                        assert(s.skip(i as int)[0] == s[i as int]);
                        assert(s.skip(i as int).skip(1) =~= s.skip(i as int + 1));
                        assert(parse_rec(s.skip(i as int), cur) == emit_line(cur) + parse_rec(
                            s.skip(i as int + 1),
                            Seq::<char>::empty(),
                        ));
                        assert(old_deep + (emit_line(cur) + parse_rec(
                            s.skip(i as int + 1),
                            Seq::<char>::empty(),
                        )) =~= (old_deep + emit_line(cur)) + parse_rec(
                            s.skip(i as int + 1),
                            Seq::<char>::empty(),
                        ));
                        assert(s.subrange(i as int + 1, i as int + 1) =~= Seq::<char>::empty());
                    } else {
                        assert(s.skip(i as int) =~= Seq::<char>::empty());
                        assert(parse_rec(s.skip(i as int), cur) == emit_line(cur));
                    }
                }
                ls = i + 1;
            } else {
                proof {
                    assert(s.skip(i as int).len() > 0);
                    assert(s.skip(i as int)[0] == s[i as int]);
                    assert(s.skip(i as int).skip(1) =~= s.skip(i as int + 1));
                    assert(cur.push(s[i as int]) =~= s.subrange(ls as int, i as int + 1));
                    assert(parse_rec(s.skip(i as int), cur) == parse_rec(
                        s.skip(i as int + 1),
                        s.subrange(ls as int, i as int + 1),
                    ));
                }
            }
            i = i + 1;
        }
        self.topics = topics;
        self.active_topics = flags;
        self.summaries = Vec::new();
        self.topic_choices = Vec::new();
        self.active_summary = None;
        self.chosen_topic = String::new();
    }

    /// Flips whether topic `i` takes part in fetching and output pairing.
    /// Summaries and candidate sets are untouched: only a new pipeline pass
    /// rebuilds them.
    pub fn toggle_active(&mut self, i: usize)
        requires
            old(self).wf(),
            i < old(self).active_topics@.len(),
        ensures
            final(self).wf(),
            final(self).active_topics@ == old(self).active_topics@.update(
                i as int,
                !old(self).active_topics@[i as int],
            ),
            final(self).topics == old(self).topics,
            final(self).summaries == old(self).summaries,
            final(self).topic_choices == old(self).topic_choices,
            final(self).active_summary == old(self).active_summary,
            final(self).chosen_topic == old(self).chosen_topic,
            final(self).running == old(self).running,
    {
        let cur = self.active_topics[i];
        self.active_topics.set(i, !cur);
    }

    /// Begins a pipeline pass: clears the previous pass's summaries and
    /// candidate sets along with the selection, and marks the pass as
    /// running. Refused — `false`, nothing changed — while a pass is
    /// already running or when no topics are loaded.
    pub fn start_pass(&mut self) -> (r: bool)
        requires
            old(self).wf(),
        ensures
            final(self).wf(),
            r == (!old(self).running && old(self).topics@.len() > 0),
            !r ==> *final(self) == *old(self),
            r ==> final(self).topics == old(self).topics,
            r ==> final(self).active_topics == old(self).active_topics,
            r ==> final(self).summaries@.len() == 0,
            r ==> final(self).topic_choices@.len() == 0,
            r ==> final(self).active_summary is None,
            r ==> final(self).chosen_topic@.len() == 0,
            r ==> final(self).running,
    {
        if self.running || self.topics.len() == 0 {
            return false;
        }
        self.summaries = Vec::new();
        self.topic_choices = Vec::new();
        self.active_summary = None;
        self.chosen_topic = String::new();
        self.running = true;
        true
    }

    /// Ends the current pipeline pass, allowing a new one to start.
    pub fn finish_pass(&mut self)
        requires
            old(self).wf(),
        ensures
            final(self).wf(),
            !final(self).running,
            final(self).topics == old(self).topics,
            final(self).active_topics == old(self).active_topics,
            final(self).summaries == old(self).summaries,
            final(self).topic_choices == old(self).topic_choices,
            final(self).active_summary == old(self).active_summary,
            final(self).chosen_topic == old(self).chosen_topic,
    {
        self.running = false;
    }

    /// Applies what one pass learned about topic `i`. A zero-candidate
    /// resolution deactivates the topic. A fetched summary is appended
    /// together with its candidate set, which keeps the two lists aligned.
    /// A failed resolve or fetch changes nothing: that topic is skipped for
    /// this pass. An inactive topic is never changed.
    pub fn apply_outcome(&mut self, i: usize, outcome: TopicOutcome)
        requires
            old(self).wf(),
            old(self).running,
            i < old(self).topics@.len(),
            outcome_wf(outcome),
        ensures
            final(self).wf(),
            final(self).active_topics@ == old(self).active_topics@.update(
                i as int,
                step_flag(old(self).active_topics@[i as int], outcome),
            ),
            final(self).summaries.deep_view() == step_summaries(
                old(self).summaries.deep_view(),
                old(self).active_topics@[i as int],
                outcome,
            ),
            final(self).topic_choices.deep_view() == step_choices(
                old(self).topic_choices.deep_view(),
                old(self).active_topics@[i as int],
                outcome,
            ),
            final(self).topics == old(self).topics,
            final(self).active_summary == old(self).active_summary,
            final(self).chosen_topic == old(self).chosen_topic,
            final(self).running,
    {
        let ghost o = outcome;
        let ghost old_summaries = self.summaries.deep_view();
        let ghost old_choices = self.topic_choices.deep_view();
        let was_active = self.active_topics[i];
        if was_active {
            match outcome {
                TopicOutcome::NoCandidates => {
                    self.active_topics.set(i, false);
                },
                TopicOutcome::Fetched { candidates, summary } => {
                    let ghost sv = summary@;
                    let ghost cv = candidates.deep_view();
                    self.summaries.push(summary);
                    self.topic_choices.push(candidates);
                    proof {
                        assert(self.summaries.deep_view() =~= old_summaries.push(sv));
                        assert(self.topic_choices.deep_view() =~= old_choices.push(cv));
                    }
                },
                _ => {},
            }
        }
        proof {
            assert(self.active_topics@ =~= old(self).active_topics@.update(
                i as int,
                step_flag(old(self).active_topics@[i as int], o),
            ));
        }
    }

    /// Runs one whole pipeline pass from the outcomes the collaborator
    /// produced, one per topic in topic order: clears the previous pass's
    /// summaries, candidate sets and selection, applies each outcome, and
    /// ends the pass. Refused — `false`, nothing changed — while a pass is
    /// already running or when no topics are loaded. The synchronous shell
    /// applies a whole pass here; the deferred shell feeds the same
    /// outcomes to `apply_outcome` one event at a time.
    pub fn run_pass(&mut self, outcomes: Vec<TopicOutcome>) -> (r: bool)
        requires
            old(self).wf(),
            outcomes@.len() == old(self).topics@.len(),
            forall|j: int| 0 <= j < outcomes@.len() ==> outcome_wf(#[trigger] outcomes@[j]),
        ensures
            final(self).wf(),
            r == (!old(self).running && old(self).topics@.len() > 0),
            !r ==> *final(self) == *old(self),
            r ==> final(self).topics == old(self).topics,
            r ==> final(self).active_topics@ == pass_active(old(self).active_topics@, outcomes@),
            r ==> final(self).summaries.deep_view() == pass_summaries(
                old(self).active_topics@,
                outcomes@,
            ),
            r ==> final(self).topic_choices.deep_view() == pass_choices(
                old(self).active_topics@,
                outcomes@,
            ),
            r ==> final(self).active_summary is None,
            r ==> final(self).chosen_topic@.len() == 0,
            r ==> !final(self).running,
    {
        if !self.start_pass() {
            return false;
        }
        let ghost active0 = old(self).active_topics@;
        let ghost outs = outcomes@;
        let n = self.topics.len();
        let mut rest = outcomes;
        let mut i: usize = 0;
        proof {
            assert(rest@ =~= outs.skip(0));
            assert(active0.skip(0) =~= active0);
            assert(outs.skip(0) =~= outs);
            assert(self.summaries.deep_view() =~= Seq::<Seq<char>>::empty());
            assert(self.topic_choices.deep_view() =~= Seq::<Seq<Seq<char>>>::empty());
            assert(Seq::<Seq<char>>::empty() + pass_summaries(active0, outs) =~= pass_summaries(
                active0,
                outs,
            ));
            assert(Seq::<Seq<Seq<char>>>::empty() + pass_choices(active0, outs) =~= pass_choices(
                active0,
                outs,
            ));
        }
        while i < n
            invariant
                self.wf(),
                self.running,
                n == self.topics@.len(),
                self.topics == old(self).topics,
                self.active_topics@.len() == n,
                i <= n,
                outs.len() == n,
                active0.len() == n,
                active0 == old(self).active_topics@,
                rest@ == outs.skip(i as int),
                forall|j: int| 0 <= j < outs.len() ==> outcome_wf(#[trigger] outs[j]),
                forall|j: int| i <= j < n ==> self.active_topics@[j] == active0[j],
                forall|j: int|
                    0 <= j < i ==> self.active_topics@[j] == step_flag(active0[j], outs[j]),
                pass_summaries(active0, outs) == self.summaries.deep_view() + pass_summaries(
                    active0.skip(i as int),
                    outs.skip(i as int),
                ),
                pass_choices(active0, outs) == self.topic_choices.deep_view() + pass_choices(
                    active0.skip(i as int),
                    outs.skip(i as int),
                ),
                self.active_summary is None,
                self.chosen_topic@.len() == 0,
            decreases n - i,
        {
            proof {
                assert(outs.skip(i as int).len() > 0);
                assert(outs.skip(i as int)[0] == outs[i as int]);
                assert(outs.skip(i as int).remove(0) =~= outs.skip(i as int + 1));
            }
            let o = rest.remove(0);
            let ghost go = o;
            let ghost pre_sum = self.summaries.deep_view();
            let ghost pre_cho = self.topic_choices.deep_view();
            let ghost act = self.active_topics@[i as int];
            self.apply_outcome(i, o);
            proof {
                assert(act == active0[i as int]);
                assert(active0.skip(i as int)[0] == active0[i as int]);
                assert(outs.skip(i as int).skip(1) =~= outs.skip(i as int + 1));
                assert(active0.skip(i as int).skip(1) =~= active0.skip(i as int + 1));
                assert(pass_summaries(active0.skip(i as int), outs.skip(i as int))
                    == step_summaries(Seq::<Seq<char>>::empty(), act, go) + pass_summaries(
                    active0.skip(i as int + 1),
                    outs.skip(i as int + 1),
                ));
                assert(pass_choices(active0.skip(i as int), outs.skip(i as int)) == step_choices(
                    Seq::<Seq<Seq<char>>>::empty(),
                    act,
                    go,
                ) + pass_choices(active0.skip(i as int + 1), outs.skip(i as int + 1)));
                assert(step_summaries(pre_sum, act, go) =~= pre_sum + step_summaries(
                    Seq::<Seq<char>>::empty(),
                    act,
                    go,
                ));
                assert(step_choices(pre_cho, act, go) =~= pre_cho + step_choices(
                    Seq::<Seq<Seq<char>>>::empty(),
                    act,
                    go,
                ));
                assert((pre_sum + step_summaries(Seq::<Seq<char>>::empty(), act, go))
                    + pass_summaries(active0.skip(i as int + 1), outs.skip(i as int + 1)) =~= pre_sum
                    + (step_summaries(Seq::<Seq<char>>::empty(), act, go) + pass_summaries(
                    active0.skip(i as int + 1),
                    outs.skip(i as int + 1),
                )));
                assert((pre_cho + step_choices(Seq::<Seq<Seq<char>>>::empty(), act, go))
                    + pass_choices(active0.skip(i as int + 1), outs.skip(i as int + 1)) =~= pre_cho
                    + (step_choices(Seq::<Seq<Seq<char>>>::empty(), act, go) + pass_choices(
                    active0.skip(i as int + 1),
                    outs.skip(i as int + 1),
                )));
            }
            i = i + 1;
        }
        proof {
            assert(outs.skip(n as int) =~= Seq::<TopicOutcome>::empty());
            assert(active0.skip(n as int) =~= Seq::<bool>::empty());
            assert(pass_summaries(active0.skip(n as int), outs.skip(n as int)) =~= Seq::<
                Seq<char>,
            >::empty());
            assert(pass_choices(active0.skip(n as int), outs.skip(n as int)) =~= Seq::<
                Seq<Seq<char>>,
            >::empty());
            assert(self.summaries.deep_view() + Seq::<Seq<char>>::empty()
                =~= self.summaries.deep_view());
            assert(self.topic_choices.deep_view() + Seq::<Seq<Seq<char>>>::empty()
                =~= self.topic_choices.deep_view());
            assert(self.active_topics@ =~= pass_active(active0, outs));
        }
        self.finish_pass();
        true
    }

    /// Selects summary `i` for display and initializes the chosen candidate
    /// to the best match, the first entry of that summary's candidate set.
    pub fn select(&mut self, i: usize)
        requires
            old(self).wf(),
            i < old(self).summaries@.len(),
        ensures
            final(self).wf(),
            final(self).active_summary == Some(i),
            final(self).chosen_topic@ == old(self).topic_choices@[i as int]@[0]@,
            final(self).topics == old(self).topics,
            final(self).active_topics == old(self).active_topics,
            final(self).summaries == old(self).summaries,
            final(self).topic_choices == old(self).topic_choices,
            final(self).running == old(self).running,
    {
        self.active_summary = Some(i);
        self.chosen_topic = self.topic_choices[i][0].clone();
    }

    /// Records the user's choice of candidate title for the selected
    /// summary. The choice takes effect at once, independent of the fetch
    /// the shell then starts for it.
    pub fn choose_candidate(&mut self, title: &str)
        requires
            old(self).wf(),
            old(self).active_summary is Some,
            exists|j: int|
                0 <= j < old(self).topic_choices@[old(self).active_summary.unwrap() as int]@.len()
                    && old(self).topic_choices@[old(self).active_summary.unwrap() as int]@[j]@
                    == title@,
        ensures
            final(self).wf(),
            final(self).chosen_topic@ == title@,
            final(self).topics == old(self).topics,
            final(self).active_topics == old(self).active_topics,
            final(self).summaries == old(self).summaries,
            final(self).topic_choices == old(self).topic_choices,
            final(self).active_summary == old(self).active_summary,
            final(self).running == old(self).running,
    {
        self.chosen_topic = title.to_owned();
    }

    /// Installs the summary that re-resolving the selected entry to the
    /// chosen candidate fetched, overwriting that entry in place. The
    /// candidate set is untouched. When the fetch fails the shells call
    /// nothing, so the previous summary is kept — the one policy applied
    /// uniformly here.
    pub fn set_selected_summary(&mut self, summary: String)
        requires
            old(self).wf(),
            old(self).active_summary is Some,
        ensures
            final(self).wf(),
            final(self).summaries.deep_view() == old(self).summaries.deep_view().update(
                old(self).active_summary.unwrap() as int,
                summary@,
            ),
            final(self).topics == old(self).topics,
            final(self).active_topics == old(self).active_topics,
            final(self).topic_choices == old(self).topic_choices,
            final(self).active_summary == old(self).active_summary,
            final(self).chosen_topic == old(self).chosen_topic,
            final(self).running == old(self).running,
    {
        let ghost sv = summary@;
        let ghost old_deep = self.summaries.deep_view();
        let i = self.active_summary.unwrap();
        self.summaries.set(i, summary);
        proof {
            assert(self.summaries.deep_view() =~= old_deep.update(i as int, sv));
        }
    }

    /// Serializes the store back to text: each topic on its own line,
    /// followed by its summary and a blank line when the topic is active,
    /// or by a blank line alone when it is not. Refused — `None` — unless
    /// the number of active topics equals the number of summaries, the
    /// alignment the positional output format depends on.
    pub fn render(&self) -> (r: Option<String>)
        requires
            self.wf(),
        ensures
            r is Some <==> self.render_allowed(),
            r matches Some(out) ==> out@ == render_spec(
                self.topics.deep_view(),
                self.active_topics@,
                self.summaries.deep_view(),
            ),
    {
        let ghost tv = self.topics.deep_view();
        let ghost av = self.active_topics@;
        let ghost sv = self.summaries.deep_view();
        let n = self.topics.len();
        let mut cnt: usize = 0;
        let mut i: usize = 0;
        proof {
            assert(av.take(0) =~= Seq::<bool>::empty());
        }
        while i < n
            invariant
                self.wf(),
                n == self.topics@.len(),
                av == self.active_topics@,
                i <= n,
                cnt <= i,
                cnt == count_true(av.take(i as int)),
            decreases n - i,
        {
            proof {
                assert(av.take(i as int + 1) =~= av.take(i as int).push(av[i as int]));
                lemma_count_true_push(av.take(i as int), av[i as int]);
            }
            if self.active_topics[i] {
                cnt = cnt + 1;
            }
            i = i + 1;
        }
        proof {
            assert(av.take(n as int) =~= av);
            assert(sv.len() == self.summaries@.len());
        }
        if cnt != self.summaries.len() {
            return None;
        }
        let mut out = String::new();
        let mut si: usize = 0;
        let mut i: usize = 0;
        proof {
            assert(tv.skip(0) =~= tv);
            assert(av.skip(0) =~= av);
            assert(sv.skip(0) =~= sv);
            assert(av.take(0) =~= Seq::<bool>::empty());
            assert(out@ + render_spec(tv, av, sv) =~= render_spec(tv, av, sv));
        }
        while i < n
            invariant
                self.wf(),
                n == self.topics@.len(),
                tv == self.topics.deep_view(),
                av == self.active_topics@,
                sv == self.summaries.deep_view(),
                i <= n,
                si <= sv.len(),
                sv.len() <= usize::MAX,
                count_true(av) == sv.len(),
                si == count_true(av.take(i as int)),
                render_spec(tv, av, sv) == out@ + render_spec(
                    tv.skip(i as int),
                    av.skip(i as int),
                    sv.skip(si as int),
                ),
            decreases n - i,
        {
            let ghost out0 = out@;
            out.append(self.topics[i].as_str());
            out.append("\n");
            proof {
                reveal_strlit("\n");
                assert("\n"@ =~= seq!['\n']);
                assert(tv[i as int] == self.topics@[i as int]@);
                lemma_count_true_split(av, i as int);
                assert(av.skip(i as int).len() > 0);
                assert(av.skip(i as int)[0] == av[i as int]);
                assert(av.skip(i as int).skip(1) =~= av.skip(i as int + 1));
                assert(av.take(i as int + 1) =~= av.take(i as int).push(av[i as int]));
                lemma_count_true_push(av.take(i as int), av[i as int]);
                assert(tv.skip(i as int).len() > 0);
                assert(tv.skip(i as int)[0] == tv[i as int]);
                assert(tv.skip(i as int).skip(1) =~= tv.skip(i as int + 1));
            }
            if self.active_topics[i] {
                proof {
                    assert(count_true(av.skip(i as int)) >= 1);
                    assert(si < sv.len());
                    assert(sv[si as int] == self.summaries@[si as int]@);
                }
                out.append(self.summaries[si].as_str());
                out.append("\n\n");
                proof {
                    reveal_strlit("\n\n");
                    assert("\n\n"@ =~= seq!['\n', '\n']);
                    assert(sv.skip(si as int).len() > 0);
                    assert(sv.skip(si as int)[0] == sv[si as int]);
                    assert(sv.skip(si as int).skip(1) =~= sv.skip(si as int + 1));
                    assert(render_spec(tv.skip(i as int), av.skip(i as int), sv.skip(si as int))
                        == tv[i as int] + seq!['\n'] + sv[si as int] + seq!['\n', '\n']
                        + render_spec(
                        tv.skip(i as int + 1),
                        av.skip(i as int + 1),
                        sv.skip(si as int + 1),
                    ));
                    assert(out@ =~= out0 + (tv[i as int] + seq!['\n'] + sv[si as int]
                        + seq!['\n', '\n']));
                    assert(out0 + (tv[i as int] + seq!['\n'] + sv[si as int] + seq!['\n', '\n']
                        + render_spec(
                        tv.skip(i as int + 1),
                        av.skip(i as int + 1),
                        sv.skip(si as int + 1),
                    )) =~= (out0 + (tv[i as int] + seq!['\n'] + sv[si as int] + seq!['\n', '\n']))
                        + render_spec(
                        tv.skip(i as int + 1),
                        av.skip(i as int + 1),
                        sv.skip(si as int + 1),
                    ));
                }
                si = si + 1;
            } else {
                out.append("\n\n");
                proof {
                    reveal_strlit("\n\n");
                    assert("\n\n"@ =~= seq!['\n', '\n']);
                    assert(render_spec(tv.skip(i as int), av.skip(i as int), sv.skip(si as int))
                        == tv[i as int] + seq!['\n'] + seq!['\n', '\n'] + render_spec(
                        tv.skip(i as int + 1),
                        av.skip(i as int + 1),
                        sv.skip(si as int),
                    ));
                    assert(out@ =~= out0 + (tv[i as int] + seq!['\n'] + seq!['\n', '\n']));
                    assert(out0 + (tv[i as int] + seq!['\n'] + seq!['\n', '\n'] + render_spec(
                        tv.skip(i as int + 1),
                        av.skip(i as int + 1),
                        sv.skip(si as int),
                    )) =~= (out0 + (tv[i as int] + seq!['\n'] + seq!['\n', '\n'])) + render_spec(
                        tv.skip(i as int + 1),
                        av.skip(i as int + 1),
                        sv.skip(si as int),
                    ));
                }
            }
            i = i + 1;
        }
        proof {
            assert(tv.skip(n as int) =~= Seq::<Seq<char>>::empty());
            assert(render_spec(tv.skip(n as int), av.skip(n as int), sv.skip(si as int)) =~= Seq::<
                char,
            >::empty());
            assert(out@ + Seq::<char>::empty() =~= out@);
        }
        Some(out)
    }
}

/// A freshly loaded, non-empty topic list cannot be rendered before any
/// pipeline pass has run: every topic is active and no summary exists yet,
/// so the serializer's alignment precondition fails and `render` refuses.
pub proof fn lemma_load_then_render_refused(w: Window, content: Seq<char>)
    requires
        w.loaded_from(content),
        parse_topics(content).len() > 0,
    ensures
        !w.render_allowed(),
{
    lemma_count_true_all_true(w.active_topics@);
    assert(w.topics.deep_view().len() == w.topics@.len());
}

/// After a decisive pipeline pass — each active topic's outcome either
/// committed a summary or deactivated its topic, none failed — the store is
/// renderable again: the topics still active align one-to-one with the
/// summaries, so `render` accepts the state the pass leaves behind.
pub proof fn lemma_decisive_pass_renderable(w0: Window, w1: Window, outs: Seq<TopicOutcome>)
    requires
        outs.len() == w0.active_topics@.len(),
        w1.active_topics@ == pass_active(w0.active_topics@, outs),
        w1.summaries.deep_view() == pass_summaries(w0.active_topics@, outs),
        forall|i: int|
            0 <= i < outs.len() && w0.active_topics@[i] ==> crate::pipeline::decisive(
                #[trigger] outs[i],
            ),
    ensures
        w1.render_allowed(),
{
    crate::pipeline::lemma_decisive_pass_aligned(w0.active_topics@, outs);
    assert(w1.summaries.deep_view().len() == w1.summaries@.len());
}

/// A fully successful pass over an all-active topic list — every resolve
/// found candidates, every fetch succeeded — collects exactly one summary
/// per topic, keeps every topic active, and leaves the store renderable.
pub proof fn lemma_full_pass_summary_per_topic(w0: Window, w1: Window, outs: Seq<TopicOutcome>)
    requires
        outs.len() == w0.active_topics@.len(),
        w0.active_topics@.len() == w0.topics@.len(),
        w1.topics == w0.topics,
        w1.active_topics@ == pass_active(w0.active_topics@, outs),
        w1.summaries.deep_view() == pass_summaries(w0.active_topics@, outs),
        forall|i: int| 0 <= i < w0.active_topics@.len() ==> w0.active_topics@[i],
        forall|i: int| 0 <= i < outs.len() ==> #[trigger] outs[i] is Fetched,
    ensures
        w1.summaries@.len() == w1.topics@.len(),
        w1.active_topics@ == w0.active_topics@,
        w1.render_allowed(),
{
    crate::pipeline::lemma_full_pass_one_summary_each(w0.active_topics@, outs);
    assert(w1.summaries.deep_view().len() == w1.summaries@.len());
}

} // verus!
