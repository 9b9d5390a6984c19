//! The core of a tool that keeps git worktrees in one place: under a
//! storage root, one directory for each repository, and in it one directory
//! for each branch that has a worktree.
//!
//! The core is the registry that remembers which directory belongs to
//! which branch, and the decisions taken on it.  It touches neither the
//! file system nor git nor the terminal: the store is a value that holds
//! what was found on disk, git is reached through [`traits::GitOperations`],
//! and the user through [`selection::SelectionProvider`].
//!
//! - [`sanitize`]: branch names as directory names.
//! - [`registry`]: the `key -> value` lines of the registry files.
//! - [`storage`]: the store, with its branch mapping, origins and managed
//!   flags.
//! - [`resolve`]: from what the user typed to one worktree and one branch.
//! - [`catalog`]: the worktrees as they are shown, and finding one by name.
//! - [`commands`]: what creating, removing, cleaning up and the other
//!   commands decide.
//! - [`config`]: the copy patterns and how the user's are merged with the
//!   defaults.
//! - [`git`]: which configuration a worktree inherits.
//! - [`selection`]: options offered to the user and choices read back.
//! - [`paths`], [`text`], [`lists`]: paths as text, text as characters, and
//!   selections from lists, on which the rest is built.

pub mod catalog;
pub mod commands;
pub mod config;
pub mod git;
pub mod lists;
pub mod paths;
pub mod registry;
pub mod resolve;
pub mod sanitize;
pub mod selection;
pub mod storage;
pub mod text;
pub mod traits;
