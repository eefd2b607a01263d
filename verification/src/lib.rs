//! Bounded-context summarization pipeline for weekly GitHub activity reports.
//!
//! The crate fits oversized developer-activity text into a fixed word budget,
//! drives the decision logic of a two-step chained model conversation, and
//! correlates independent per-source summaries into one report while
//! tolerating partial data.

pub mod allocator;
pub mod messages;
pub mod pipeline;
pub mod squeeze;
pub mod summarizer;
pub mod text;

use vstd::prelude::*;

verus! {

} // verus!
