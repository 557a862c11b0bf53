//! The selection engine of an incremental-filter program launcher: candidate
//! ordering, fuzzy filtering, the selection viewport, the keyboard-driven
//! session state machine, frame layout and window placement.

pub mod candidates;
pub mod color;
pub mod config;
pub mod filter;
pub mod layout;
pub mod placement;
pub mod session;
pub mod viewport;
