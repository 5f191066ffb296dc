//! Walks a contiguous range of commits in a git repository: each commit in the
//! range is checked out into the single working tree, handed to a visitor
//! (typically one that runs a validation command), and the branch that was
//! checked out before the walk is restored afterwards, whatever the outcome.
//! A separate engine collapses the per-commit pass/fail stream into candidate
//! regression windows.

pub mod atomize;
pub mod cli;
pub mod command;
pub mod commit;
pub mod message;
mod strings;
pub mod walker;
