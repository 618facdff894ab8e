//! Verified core of an interactive client for a register-based industrial
//! control protocol: per-space cell stores with cursor/paging arithmetic, the
//! command-queue worker protocol, and the binary macro file codec.

pub mod app_table;
pub mod enums;
pub mod geometry;
pub mod input;
pub mod macro_parser;
pub mod queue;
pub mod session;
pub mod utils;
pub mod worker;
