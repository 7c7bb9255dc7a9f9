//! GitHub: the API and what it speaks of.

pub mod api;
pub mod types;
