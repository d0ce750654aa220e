use filler::Window;
use filler::TopicOutcome;

fn fetched(candidates: &[&str], summary: &str) -> TopicOutcome {
    TopicOutcome::Fetched {
        candidates: candidates.iter().map(|c| c.to_string()).collect(),
        summary: summary.to_string(),
    }
}

#[test]
fn new_window_is_empty() {
    let w = Window::new();
    assert!(w.topics.is_empty());
    assert!(w.active_topics.is_empty());
    assert!(w.summaries.is_empty());
    assert!(w.topic_choices.is_empty());
    assert_eq!(w.active_summary, None);
    assert_eq!(w.chosen_topic, "");
    assert!(!w.running);
}

#[test]
fn load_splits_trims_and_skips_blank_lines() {
    let mut w = Window::new();
    w.load("  \n\n  Cat  \n\tDog\r\nFish\n");
    assert_eq!(w.topics, vec!["Cat".to_string(), "Dog".to_string(), "Fish".to_string()]);
    assert_eq!(w.active_topics, vec![true, true, true]);
}

#[test]
fn load_without_trailing_newline_keeps_last_topic() {
    let mut w = Window::new();
    w.load("Cat\nDog");
    assert_eq!(w.topics, vec!["Cat".to_string(), "Dog".to_string()]);
}

#[test]
fn load_trims_unicode_whitespace() {
    let mut w = Window::new();
    w.load("\u{a0}Cat\u{a0}\n\u{2003}Dog\u{3000}\n");
    assert_eq!(w.topics, vec!["Cat".to_string(), "Dog".to_string()]);
}

#[test]
fn load_skips_unicode_whitespace_only_lines() {
    let mut w = Window::new();
    w.load("\u{a0}\n\u{2028}\u{205f}\nCat\n\u{1680}\n");
    assert_eq!(w.topics, vec!["Cat".to_string()]);
    assert_eq!(w.active_topics, vec![true]);
}

#[test]
fn load_of_blank_text_yields_no_topics() {
    let mut w = Window::new();
    w.load("   \n\t\n\n");
    assert!(w.topics.is_empty());
    assert!(w.active_topics.is_empty());
}

#[test]
fn load_of_empty_text_yields_no_topics() {
    let mut w = Window::new();
    w.load("");
    assert!(w.topics.is_empty());
}

#[test]
fn load_clears_all_derived_state() {
    let mut w = Window::new();
    w.load("Cat");
    assert!(w.run_pass(vec![fetched(&["Cat", "Felis"], "Cats are felines.")]));
    w.select(0);
    assert_eq!(w.summaries.len(), 1);
    w.load("Dog\nFish");
    assert_eq!(w.topics, vec!["Dog".to_string(), "Fish".to_string()]);
    assert!(w.summaries.is_empty());
    assert!(w.topic_choices.is_empty());
    assert_eq!(w.active_summary, None);
    assert_eq!(w.chosen_topic, "");
}

#[test]
fn toggle_active_flips_one_flag_only() {
    let mut w = Window::new();
    w.load("Cat\nDog");
    w.toggle_active(1);
    assert_eq!(w.active_topics, vec![true, false]);
    w.toggle_active(1);
    assert_eq!(w.active_topics, vec![true, true]);
    assert!(w.summaries.is_empty());
}

#[test]
fn render_refused_after_fresh_load() {
    let mut w = Window::new();
    w.load("Alpha\nBeta\n");
    assert!(w.render().is_none());
}

#[test]
fn render_of_empty_store_is_empty_text() {
    let w = Window::new();
    assert_eq!(w.render().unwrap(), "");
}

#[test]
fn render_pairs_topics_and_summaries_exactly() {
    let mut w = Window::new();
    w.load("Cat\nDog");
    assert!(w.run_pass(vec![
        fetched(&["Cat"], "Cats are felines."),
        fetched(&["Dog"], "Dogs are canines."),
    ]));
    assert_eq!(
        w.render().unwrap(),
        "Cat\nCats are felines.\n\nDog\nDogs are canines.\n\n"
    );
}

#[test]
fn render_leaves_blank_block_for_inactive_topic() {
    let mut w = Window::new();
    w.load("Cat\nDog");
    w.toggle_active(1);
    assert!(w.run_pass(vec![fetched(&["Cat"], "Cats are felines."), TopicOutcome::NotQueried]));
    assert_eq!(w.summaries.len(), 1);
    assert_eq!(w.active_topics, vec![true, false]);
    assert_eq!(w.render().unwrap(), "Cat\nCats are felines.\n\nDog\n\n\n");
}

#[test]
fn select_initializes_chosen_candidate_to_best_match() {
    let mut w = Window::new();
    w.load("Cat\nDog");
    assert!(w.run_pass(vec![
        fetched(&["Felis", "Cat"], "Cats are felines."),
        fetched(&["Canis", "Dog"], "Dogs are canines."),
    ]));
    w.select(0);
    assert_eq!(w.active_summary, Some(0));
    assert_eq!(w.chosen_topic, "Felis");
    w.select(1);
    assert_eq!(w.active_summary, Some(1));
    assert_eq!(w.chosen_topic, "Canis");
}

#[test]
fn choose_candidate_updates_immediately() {
    let mut w = Window::new();
    w.load("Cat");
    assert!(w.run_pass(vec![fetched(&["Felis", "Cat"], "Cats are felines.")]));
    w.select(0);
    w.choose_candidate("Cat");
    assert_eq!(w.chosen_topic, "Cat");
    assert_eq!(w.summaries, vec!["Cats are felines.".to_string()]);
}

#[test]
fn set_selected_summary_overwrites_in_place() {
    let mut w = Window::new();
    w.load("Cat\nDog");
    assert!(w.run_pass(vec![
        fetched(&["Felis", "Cat"], "Cats are felines."),
        fetched(&["Canis"], "Dogs are canines."),
    ]));
    w.select(0);
    w.set_selected_summary("Felis is a genus.".to_string());
    assert_eq!(
        w.summaries,
        vec!["Felis is a genus.".to_string(), "Dogs are canines.".to_string()]
    );
    assert_eq!(w.topic_choices[0], vec!["Felis".to_string(), "Cat".to_string()]);
}
