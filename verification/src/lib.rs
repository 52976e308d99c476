//! Mining of declaration lines from the commit history of source
//! repositories.
//!
//! A repository is walked from its head, newest commit first. Each commit
//! after a cutoff is diffed against its first parent, and each line of the
//! patch that belongs to a Java file and looks like a declaration becomes
//! one row of output. This library holds the decisions of that pipeline, on
//! plain values: which commits are diffed and against what ([`history`]),
//! which lines give a row and what the row holds ([`patch`], [`record`]),
//! in what order the rows of a repository come ([`pipeline`]), and how a
//! repository is named ([`source`], [`text`]). Reading repositories and
//! writing files is left to the caller.

pub mod history;
pub mod patch;
pub mod pipeline;
pub mod record;
pub mod source;
pub mod text;
