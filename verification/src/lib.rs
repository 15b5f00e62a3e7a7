//! A small blog store.
//!
//! A blog has a name, an optional description and posts; a post has a title
//! and a body. Both are kept below a storage root as directories and files,
//! under path segments that their names and titles are encoded to.
//!
//! - [`encoder`] turns names into segments and back.
//! - [`path`] and [`layout`] say where a blog and a post lie.
//! - [`storage`] holds what a store asks of a storage and what it is
//!   answered, [`tree`] what a storage with given entries answers, and
//!   [`memory`] a storage that lives in memory.
//! - [`task`], [`blog_tasks`] and [`post_tasks`] run each operation of the
//!   stores one request at a time, so that whoever owns the storage can do
//!   the asking.
//! - [`blogs`] and [`posts`] run the operations on a storage in memory.
//! - [`laws`] proves what holds from one call to the next.

pub mod error;
pub mod text;
pub mod order;
pub mod encoder;
pub mod path;
pub mod layout;
pub mod storage;
pub mod tree;
pub mod memory;
pub mod model;
pub mod task;
pub mod listing;
pub mod blog_tasks;
pub mod blogs;
pub mod post_tasks;
pub mod posts;
pub mod laws;
