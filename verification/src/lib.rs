//! Incremental renderer for static git-repository sites.
//!
//! The crate turns plain descriptions of repositories (commits, trees,
//! diffs, blobs) into complete HTML pages: a cross-repository catalog, a
//! per-repository summary, a commit log with per-commit diff pages, and a
//! file tree with per-file views.  Every piece of text that reaches a page
//! goes through the HTML escaper, and a freshness cache decides which
//! pages an incremental run may skip.

pub mod command;
pub mod diff;
pub mod escape;
pub mod freshness;
pub mod markdown;
pub mod oid;
pub mod pages;
pub mod repo;
pub mod textfmt;
pub mod tree;
pub mod time;

use vstd::prelude::*;

verus! {

} // verus!
