//! Upstream sources: the decisions and parsing that the shipped readers and
//! writers rely on.

pub mod file;
pub mod http;
pub mod object_store;
