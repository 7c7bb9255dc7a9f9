//! What the operations promise, stated over their inputs and their results.

pub mod archives;
pub mod checksums;
pub mod installing;
pub mod keeping;
pub mod manifests;
pub mod matching;
pub mod naming;
pub mod numbers;
pub mod paths;
pub mod picking;
pub mod places;
pub mod requests;
pub mod syncing;
pub mod telling;
pub mod text;
pub mod tools;
pub mod updating;
