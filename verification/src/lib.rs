//! A query-session façade: binds a compiled semantic model to an execution
//! session, keeps a catalog of remotely resolved functions, and rewrites SQL
//! to enforce a maximum row-count policy.

pub mod catalog;
pub mod context;
pub mod digits;
pub mod engine;
pub mod errors;
pub mod limit;
pub mod remote_functions;
