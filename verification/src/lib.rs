//! Report the files changed in a working copy of a version-controlled
//! repository.
//!
//! The library plans the queries to put to the external version-control
//! tool, filters and resolves the paths each query's output yields, merges
//! the per-query results into a duplicate-free list, and formats the final
//! output line. Running the external tool, the thread fan-out and all
//! printing live outside the library.

pub mod lines;
pub mod merge;
pub mod pattern;
pub mod plan;
pub mod present;
pub mod query;
