//! Annotates local branch names with the summary of the tracker issue whose
//! key each name holds (`PROJ-123-fix-bug` → `PROJ-123` → its summary).
//!
//! The library decides and computes; the caller runs `git`, prompts the user
//! and makes the HTTP request, handing back plain values.

pub mod key;
pub mod query;
pub mod response;
pub mod report;
pub mod credential;
pub mod config;
