//! Layered configuration resolution for command-line programs: file, environment
//! and command-line layers merged per named unit, and the decision to detach.
pub mod text;
pub mod store;
pub mod path;
pub mod merge;
pub mod version;
pub mod arg;
pub mod desc;
pub mod error;
pub mod cli;
