//! A personal feed client core: thread reconstruction from relational tags,
//! per-contact feed aggregation with isolated failures, a deduplicating post
//! cache and a bounds-safe selectable list.
use vstd::prelude::*;

pub mod cache;
pub mod cli;
pub mod config;
pub mod contacts;
pub mod error;
pub mod feed;
pub mod list;
pub mod post;
pub mod session;
pub mod text;
pub mod thread;
pub mod wrap;

verus! {

} // verus!
