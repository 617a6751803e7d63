//! Job scheduling: a small grammar for schedule expressions, the arithmetic of
//! next-run instants, the transactional workflow that stores a job together with
//! its payload, and the selection of the jobs that have become due.

pub mod db;
pub mod encoding;
pub mod error;
pub mod iam;
pub mod ident;
pub mod job;
pub mod row;
pub mod schedule;
pub mod store;
pub mod text;
pub mod tx;
pub mod validation;
