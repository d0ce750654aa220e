use filler::ShellEvent;
use filler::TopicOutcome;
use filler::WasmWindow;
use filler::Window;

fn fetched(candidates: &[&str], summary: &str) -> TopicOutcome {
    TopicOutcome::Fetched {
        candidates: candidates.iter().map(|c| c.to_string()).collect(),
        summary: summary.to_string(),
    }
}

#[test]
fn full_pass_collects_one_summary_per_topic() {
    let mut w = Window::new();
    w.load("Cat\nDog\nFish");
    assert!(w.run_pass(vec![
        fetched(&["Cat"], "Cats are felines."),
        fetched(&["Dog"], "Dogs are canines."),
        fetched(&["Fish"], "Fish swim."),
    ]));
    assert_eq!(w.summaries.len(), w.topics.len());
    assert_eq!(w.active_topics, vec![true, true, true]);
    let out = w.render().unwrap();
    assert_eq!(out.lines().filter(|l| !l.is_empty()).count(), 6);
    assert_eq!(
        out,
        "Cat\nCats are felines.\n\nDog\nDogs are canines.\n\nFish\nFish swim.\n\n"
    );
}

#[test]
fn zero_candidates_deactivates_topic_and_keeps_alignment() {
    let mut w = Window::new();
    w.load("Cat\nXyzzyunknown");
    assert!(w.run_pass(vec![
        fetched(&["Cat"], "Cats are felines."),
        TopicOutcome::NoCandidates,
    ]));
    assert_eq!(w.active_topics, vec![true, false]);
    assert_eq!(w.summaries.len(), 1);
    assert_eq!(w.topic_choices.len(), 1);
    assert_eq!(
        w.render().unwrap(),
        "Cat\nCats are felines.\n\nXyzzyunknown\n\n\n"
    );
}

#[test]
fn resolve_failure_skips_topic_and_leaves_it_active() {
    let mut w = Window::new();
    w.load("Cat");
    assert!(w.run_pass(vec![TopicOutcome::ResolveFailed]));
    assert_eq!(w.active_topics, vec![true]);
    assert!(w.summaries.is_empty());
    assert!(w.topic_choices.is_empty());
    assert!(w.render().is_none());
}

#[test]
fn fetch_failure_commits_no_candidate_set() {
    let mut w = Window::new();
    w.load("Cat");
    assert!(w.run_pass(vec![TopicOutcome::FetchFailed {
        candidates: vec!["Cat".to_string()],
    }]));
    assert_eq!(w.active_topics, vec![true]);
    assert!(w.summaries.is_empty());
    assert!(w.topic_choices.is_empty());
    assert!(w.render().is_none());
}

#[test]
fn pass_replaces_previous_results_wholesale() {
    let mut w = Window::new();
    w.load("Cat");
    assert!(w.run_pass(vec![fetched(&["Cat"], "Old summary.")]));
    assert!(w.run_pass(vec![fetched(&["Cat", "Felis"], "New summary.")]));
    assert_eq!(w.summaries, vec!["New summary.".to_string()]);
    assert_eq!(w.topic_choices.len(), 1);
    assert_eq!(w.topic_choices[0], vec!["Cat".to_string(), "Felis".to_string()]);
}

#[test]
fn pass_refused_without_topics() {
    let mut w = Window::new();
    assert!(!w.run_pass(vec![]));
}

#[test]
fn pass_refused_while_another_runs() {
    let mut w = Window::new();
    w.load("Cat");
    assert!(w.start_pass());
    assert!(w.running);
    assert!(!w.start_pass());
    assert!(!w.run_pass(vec![TopicOutcome::ResolveFailed]));
    w.finish_pass();
    assert!(!w.running);
    assert!(w.start_pass());
}

#[test]
fn inactive_topic_is_never_queried_or_changed() {
    let mut w = Window::new();
    w.load("Cat\nDog");
    w.toggle_active(0);
    assert!(w.run_pass(vec![TopicOutcome::NotQueried, fetched(&["Dog"], "Dogs are canines.")]));
    assert_eq!(w.active_topics, vec![false, true]);
    assert_eq!(w.summaries, vec!["Dogs are canines.".to_string()]);
    assert_eq!(w.render().unwrap(), "Cat\n\n\nDog\nDogs are canines.\n\n");
}

#[test]
fn deferred_events_match_a_synchronous_pass() {
    let mut ww = WasmWindow::new();
    ww.apply_event(ShellEvent::TopicsLoaded {
        content: "Cat\nXyzzyunknown".to_string(),
    });
    assert_eq!(ww.window.topics, vec!["Cat".to_string(), "Xyzzyunknown".to_string()]);
    assert!(ww.window.start_pass());
    ww.apply_event(ShellEvent::TopicSettled {
        index: 0,
        outcome: fetched(&["Cat"], "Cats are felines."),
    });
    assert_eq!(ww.window.summaries.len(), 1);
    ww.apply_event(ShellEvent::TopicSettled {
        index: 1,
        outcome: TopicOutcome::NoCandidates,
    });
    ww.apply_event(ShellEvent::PassFinished);
    assert!(!ww.window.running);
    assert_eq!(ww.window.active_topics, vec![true, false]);
    assert_eq!(
        ww.window.render().unwrap(),
        "Cat\nCats are felines.\n\nXyzzyunknown\n\n\n"
    );
}

#[test]
fn deferred_summary_replacement_overwrites_selection() {
    let mut ww = WasmWindow::new();
    ww.apply_event(ShellEvent::TopicsLoaded {
        content: "Cat".to_string(),
    });
    assert!(ww.window.start_pass());
    ww.apply_event(ShellEvent::TopicSettled {
        index: 0,
        outcome: fetched(&["Felis", "Cat"], "Cats are felines."),
    });
    ww.apply_event(ShellEvent::PassFinished);
    ww.window.select(0);
    ww.window.choose_candidate("Cat");
    ww.apply_event(ShellEvent::SummaryReplaced {
        summary: "A cat is a small cat.".to_string(),
    });
    assert_eq!(ww.window.summaries, vec!["A cat is a small cat.".to_string()]);
    assert_eq!(ww.window.chosen_topic, "Cat");
    assert_eq!(
        ww.window.topic_choices[0],
        vec!["Felis".to_string(), "Cat".to_string()]
    );
}

#[test]
fn deferred_load_clears_prior_results() {
    let mut ww = WasmWindow::new();
    ww.apply_event(ShellEvent::TopicsLoaded {
        content: "Cat".to_string(),
    });
    assert!(ww.window.start_pass());
    ww.apply_event(ShellEvent::TopicSettled {
        index: 0,
        outcome: fetched(&["Cat"], "Cats are felines."),
    });
    ww.apply_event(ShellEvent::PassFinished);
    ww.window.select(0);
    ww.apply_event(ShellEvent::TopicsLoaded {
        content: "Dog".to_string(),
    });
    assert_eq!(ww.window.topics, vec!["Dog".to_string()]);
    assert!(ww.window.summaries.is_empty());
    assert!(ww.window.topic_choices.is_empty());
    assert_eq!(ww.window.active_summary, None);
}
