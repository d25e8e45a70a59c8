//! Render-task graph: per-frame task arena, pass assignment, blur chains,
//! mask composition, GPU record packing and a cross-frame task cache.

pub mod units;
pub mod scalar;
pub mod types;
pub mod keys;
pub mod task;
pub mod packing;
pub mod builders;
pub mod passes;
pub mod tree;
pub mod assign;
pub mod blur;
pub mod freelist;
pub mod cache;
pub mod mask;
pub mod print;
pub mod dag;
