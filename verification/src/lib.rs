//! Kernel patch formatting, checking and statistics.

pub mod text;
pub mod commit;
pub mod diff;
pub mod patch_stats;
pub mod stats_laws;
pub mod patch;
pub mod config;
pub mod asm_utils;
pub mod validation;
pub mod validation_laws;

