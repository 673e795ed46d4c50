//! Single-pass log scraping: classify each line against event patterns,
//! extract typed fields and fold them into running statistics.

pub mod fields;
pub mod pattern;
pub mod classify;
pub mod histogram;
pub mod stats;
pub mod driver;
pub mod topk;
