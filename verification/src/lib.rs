//! Core engine of a keyboard-driven terminal file browser: grid layout,
//! selection and scrolling, incremental fuzzy find with auto-navigation,
//! a preview cache with background loading states, and an undo/redo log
//! of reversible file mutations. All filesystem and terminal I/O lives
//! outside this crate; the engine works on plain values.

pub mod browser;
pub mod bytes;
pub mod color;
pub mod config;
pub mod display;
pub mod entry;
pub mod fileops;
pub mod fuzzy;
pub mod layout;
pub mod path;
pub mod preview;
pub mod selection;
pub mod undo;
