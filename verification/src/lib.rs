//! Batch filename formatting: naming-convention transliteration, exclusion
//! filtering, conflict resolution with sticky choices, an append-only
//! transaction log, and a revert engine that replays such a log backwards.

pub mod cfg;
pub mod chars;
pub mod cli;
pub mod default;
pub mod engine;
pub mod exclude;
pub mod history;
pub mod laws;
pub mod naming_conventions;
pub mod params;
pub mod prompt;
pub mod revert;
pub mod utils;
