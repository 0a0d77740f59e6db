//! What each command computes, between what it reads and what it writes.

pub mod add;
pub mod generate;
pub mod init;
pub mod install;
pub mod list;
pub mod remove;
