//! Finds `TODO(<ticket>)` markers in source text and checks them against the
//! tickets that a branch's commit messages claim to resolve.
//!
//! - `todos`: the comment grammar and the scan of files, line by line.
//! - `git`: the grammar of `Issue:` lines in commit messages.
//! - `reconcile`: filtering markers by one ticket, and the branch check.
//! - `text`: the character-level helpers that both grammars share.

pub mod git;
pub mod reconcile;
pub mod text;
pub mod todos;

pub use todos::{todos, Todo, TodoInCode};
