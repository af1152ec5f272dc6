//! Decision logic of a package review tool: reading the command line,
//! naming the branch of a pull request, filtering the files of a package
//! and sequencing the steps of synchronising, installing and testing.

pub mod exclude;
pub mod harness;
pub mod install;
pub mod manifest;
pub mod session;
pub mod sync;
pub mod text;
