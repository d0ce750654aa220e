//! A small topic/summary workbook: an ordered list of topics loaded from
//! line-oriented text, per-topic active flags, fetched summaries with their
//! disambiguation candidates, a selection cursor, and a serializer that
//! writes the topics and summaries back out as text.
//!
//! The encyclopedia client and the user interface are external collaborators:
//! this crate holds and verifies the state machine that sits between them.

mod pipeline;
mod serialize;
mod text;
mod wasm_window;
mod window;

pub use pipeline::TopicOutcome;
pub use pipeline::decisive;
pub use pipeline::lemma_decisive_pass_aligned;
pub use pipeline::lemma_full_pass_one_summary_each;
pub use pipeline::outcome_wf;
pub use pipeline::pass_active;
pub use pipeline::pass_choices;
pub use pipeline::pass_summaries;
pub use pipeline::step_choices;
pub use pipeline::step_flag;
pub use pipeline::step_summaries;
pub use serialize::count_true;
pub use serialize::render_spec;
pub use text::is_space;
pub use text::parse_topics;
pub use text::trim;
pub use wasm_window::ShellEvent;
pub use wasm_window::WasmWindow;
pub use window::Window;
pub use window::lemma_decisive_pass_renderable;
pub use window::lemma_full_pass_summary_per_topic;
pub use window::lemma_load_then_render_refused;

use vstd::prelude::*;

verus! {

} // verus!
