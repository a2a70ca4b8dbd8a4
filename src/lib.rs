//! Process-monitoring core: process records, query filters and sorting,
//! snapshot diffing, and the shared state that the refresh loop and the
//! request handlers operate on.

pub mod text;
pub mod error;
pub mod process;
pub mod query;
pub mod diff;
pub mod state;
pub mod commands;
pub mod collector;
