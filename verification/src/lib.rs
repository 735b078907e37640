use vstd::prelude::*;
pub mod text;
pub mod seqs;
pub mod normalize;
pub mod allergens;
pub mod price;
pub mod model;
pub mod restaurant;
pub mod format;
pub mod favorites;
pub mod cache;
pub mod fetch;
pub mod table;
pub mod settings;
pub mod app_state;
pub mod refresh;
pub mod api;
pub mod menu_payload;
pub mod perf;
pub mod popup_logic;
pub mod popup_lines;
pub mod highlights;
pub mod selection;
pub mod popup_size;
pub mod cached_budget;
pub mod animation;
pub mod helsinki;
pub mod text_layout;
pub mod content_plan;
pub mod bench;
pub mod themes;
pub mod laws;
verus! {
}
