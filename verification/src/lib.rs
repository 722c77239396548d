//! moji owns keyboard layout switching on this Mac.
//!
//! Everything moji decides is decided here, over plain values: the program around it reads the
//! machine, hands over what it read, and carries out what comes back.

pub mod barrier;
pub mod cli;
pub mod clock;
pub mod config;
pub mod cycle;
pub mod daemon;
pub mod executable;
pub mod history;
pub mod macos;
pub mod memory;
pub mod ordered;
pub mod paths;
pub mod service;
pub mod text;
