//! Jump to a directory by a short, possibly fuzzy query.
//!
//! The crate keeps a weighted history of directories and resolves a query
//! against it: it ranks the directories of the history against the needles
//! of the query, in three tiers, and picks the answer from the ranking.
//!
//! Everything here works on plain values: strings, integers, vectors. Reading
//! and writing the history file, the clock and the environment are left to
//! the caller, who tells what it found and is told what to do. Weights are
//! doubles; they pass through as bit patterns, by which they are ordered, and
//! the arithmetic on them is the caller's.
//!
//! - `tabentry`: the tokens of a completion menu, written and read back.
//! - `input`, `re_based`, `fuzzy`, `matcher`: from needles to ranked paths.
//! - `query`: from the tokens of a query to its answer.
//! - `entry`, `manip`, `purge`, `stat`: the entries of the history.
//! - `datafile`, `config`: the history file and where it is kept.
//! - `text`, `path`, `select`: strings, paths and lists as the others use them.
pub mod text;
pub mod path;
pub mod select;
pub mod tabentry;
pub mod input;
pub mod re_based;
pub mod fuzzy;
pub mod matcher;
pub mod entry;
pub mod manip;
pub mod purge;
pub mod stat;
pub mod query;
pub mod datafile;
pub mod config;
pub mod shells;
pub mod version;
