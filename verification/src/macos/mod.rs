//! The plain-data side of the macOS layer: everything that is decided about what the frameworks
//! report, and nothing that talks to them.

pub mod focus;
pub mod tap;
pub mod timer;
pub mod tis;
pub mod workspace;
