//! Core logic of a terminal dashboard that watches active Nix builds.
//!
//! The crate holds the verified heart of the application: the process-tree
//! renderer, the duration formatter, the derivation-name splitter, the
//! snapshot ordering, and the event-dispatch state machine with its
//! selection tracking. Terminal, timer and subprocess plumbing live outside,
//! in an unverified shell that feeds this library plain values.

pub mod app;
pub mod derivation;
pub mod duration;
pub mod laws;
pub mod ps;
pub mod text;
pub mod tree;

pub use duration::show_duration;
pub use text::u64_to_string;
