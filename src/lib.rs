//! Concurrent brute-force search for a key whose encoded public identifier
//! starts with a chosen prefix.

pub mod pattern;
pub mod keys;
pub mod state;
pub mod search;
pub mod cpu;
pub mod progress;
