//! The browser shell's model. That shell cannot block its rendering
//! thread, so file contents and pipeline results are produced by
//! background tasks and delivered as messages; the rendering loop polls
//! for them and applies at most one pending message per frame, in
//! completion order. This module holds the shared model together with the
//! message vocabulary and the one place where messages are applied; the
//! queues themselves belong to the shell.

use vstd::prelude::*;
use crate::pipeline::TopicOutcome;
use crate::pipeline::outcome_wf;
use crate::pipeline::step_flag;
use crate::pipeline::step_summaries;
use crate::pipeline::step_choices;
use crate::window::Window;

verus! {

/// One deferred result, produced off the rendering thread and applied to
/// the model on a later frame.
pub enum ShellEvent {
    /// A picked file was read and decoded; its text replaces the topics.
    TopicsLoaded { content: String },
    /// The pipeline pass settled topic `index` with `outcome`.
    TopicSettled { index: usize, outcome: TopicOutcome },
    /// The pipeline pass walked every topic and is over.
    PassFinished,
    /// Re-resolving the selected summary to the chosen candidate fetched a
    /// replacement summary.
    SummaryReplaced { summary: String },
}

/// The application model the browser shell owns.
pub struct WasmWindow {
    /// The shared model; the shell mutates it only by applying events, and
    /// only from the rendering thread.
    pub window: Window,
}

impl WasmWindow {
    /// An empty model: no topics, no summaries, nothing selected, no pass
    /// running.
    pub fn new() -> (w: WasmWindow)
        ensures
            w.window.wf(),
            w.window.topics@.len() == 0,
            w.window.active_topics@.len() == 0,
            w.window.summaries@.len() == 0,
            w.window.topic_choices@.len() == 0,
            w.window.active_summary is None,
            w.window.chosen_topic@.len() == 0,
            !w.window.running,
    {
        WasmWindow { window: Window::new() }
    }

    /// Whether the model's current state accepts `e`: the conditions the
    /// event producers maintain by construction.
    pub open spec fn accepts(self, e: ShellEvent) -> bool {
        match e {
            ShellEvent::TopicsLoaded { content } => content@.len() < usize::MAX,
            ShellEvent::TopicSettled { index, outcome } => self.window.running && index
                < self.window.topics@.len() && outcome_wf(outcome),
            ShellEvent::PassFinished => self.window.running,
            ShellEvent::SummaryReplaced { summary: _ } => self.window.active_summary is Some,
        }
    }

    /// Applies one deferred result to the model: loaded file text replaces
    /// the topics and clears all derived state; a settled topic is
    /// deactivated, committed or skipped exactly as in a synchronous pass;
    /// the end of a pass clears the re-entry guard; a replacement summary
    /// overwrites the selected entry in place.
    pub fn apply_event(&mut self, e: ShellEvent)
        requires
            old(self).window.wf(),
            old(self).accepts(e),
        ensures
            final(self).window.wf(),
            (match e {
                ShellEvent::TopicsLoaded { content } => final(self).window.loaded_from(content@)
                    && final(self).window.running == old(self).window.running,
                ShellEvent::TopicSettled { index, outcome } => {
                    &&& final(self).window.active_topics@ == old(
                        self,
                    ).window.active_topics@.update(
                        index as int,
                        step_flag(old(self).window.active_topics@[index as int], outcome),
                    )
                    &&& final(self).window.summaries.deep_view() == step_summaries(
                        old(self).window.summaries.deep_view(),
                        old(self).window.active_topics@[index as int],
                        outcome,
                    )
                    &&& final(self).window.topic_choices.deep_view() == step_choices(
                        old(self).window.topic_choices.deep_view(),
                        old(self).window.active_topics@[index as int],
                        outcome,
                    )
                    &&& final(self).window.topics == old(self).window.topics
                    &&& final(self).window.active_summary == old(self).window.active_summary
                    &&& final(self).window.chosen_topic == old(self).window.chosen_topic
                    &&& final(self).window.running
                },
                ShellEvent::PassFinished => {
                    &&& !final(self).window.running
                    &&& final(self).window.topics == old(self).window.topics
                    &&& final(self).window.active_topics == old(self).window.active_topics
                    &&& final(self).window.summaries == old(self).window.summaries
                    &&& final(self).window.topic_choices == old(self).window.topic_choices
                    &&& final(self).window.active_summary == old(self).window.active_summary
                    &&& final(self).window.chosen_topic == old(self).window.chosen_topic
                },
                ShellEvent::SummaryReplaced { summary } => {
                    &&& final(self).window.summaries.deep_view() == old(
                        self,
                    ).window.summaries.deep_view().update(
                        old(self).window.active_summary.unwrap() as int,
                        summary@,
                    )
                    &&& final(self).window.topics == old(self).window.topics
                    &&& final(self).window.active_topics == old(self).window.active_topics
                    &&& final(self).window.topic_choices == old(self).window.topic_choices
                    &&& final(self).window.active_summary == old(self).window.active_summary
                    &&& final(self).window.chosen_topic == old(self).window.chosen_topic
                    &&& final(self).window.running == old(self).window.running
                },
            }),
    {
        match e {
            ShellEvent::TopicsLoaded { content } => {
                self.window.load(content.as_str());
            },
            ShellEvent::TopicSettled { index, outcome } => {
                self.window.apply_outcome(index, outcome);
            },
            ShellEvent::PassFinished => {
                self.window.finish_pass();
            },
            ShellEvent::SummaryReplaced { summary } => {
                self.window.set_selected_summary(summary);
            },
        }
    }
}

} // verus!
