//! Decision logic for chaining agent threads.

pub mod text;
pub mod segments;
pub mod numbers;
pub mod json;
pub mod score;
pub mod tasks;
pub mod context;
pub mod plans;
pub mod prompts;
pub mod selection;
pub mod first_prompt;
pub mod remaining;
pub mod config;
pub mod compaction;
pub mod handover;
pub mod evaluation;
pub mod chain;
pub mod decision;
pub mod orchestration;
pub mod stream;
pub mod local_mlx;
pub mod routing;
pub mod dispatch;
pub mod remaining_work;
