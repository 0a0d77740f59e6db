//! Planning and reconciliation of system actions for declaratively described packages.
//!
//! A host is described by what it depends on, the scripts it runs and the files
//! it links. From that description the library resolves the packages involved,
//! plans an ordered list of actions, reduces it to what changes against the
//! actions of the last run, and batches adjacent package actions.

pub mod action;
pub mod commands;
pub mod compaction;
pub mod error;
pub mod execution;
pub mod generation;
pub mod host;
pub mod lockfile;
pub mod package;
pub mod planner;
pub mod record;
pub mod resolver;
pub mod text;
