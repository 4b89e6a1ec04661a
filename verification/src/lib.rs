//! The core of the Micron viewer: which bytes of a file are held in memory.
//!
//! A small file is held whole. A large one is seen through a window of fixed
//! size that starts at a cursor and is fetched again whenever the cursor
//! moves. This crate decides and keeps the books; it never touches a file.
//! Whoever drives it performs the reads it asks for and hands back what came.

pub mod error;
pub mod event;
pub mod file;
pub mod laws;
pub mod registry;
pub mod window;
