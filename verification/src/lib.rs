//! ghr: a user-land package manager for the binaries of GitHub releases.

pub mod adopt;
pub mod calendar;
pub mod clean;
pub mod cli;
pub mod config;
pub mod decimal;
pub mod document;
pub mod error;
pub mod github;
pub mod install;
pub mod installer;
pub mod laws;
pub mod listing;
pub mod manifest;
pub mod matcher;
pub mod output;
pub mod paths;
pub mod pending;
pub mod picker;
pub mod repo;
pub mod sorting;
pub mod state;
pub mod sync;
pub mod text;
pub mod timer;
pub mod unicode;
pub mod uninstall;
pub mod update;
