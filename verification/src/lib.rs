//! Core of a desktop media viewer: classify files by extension, extract
//! pixel dimensions from image and GIF data, turn paths into display URLs,
//! filter folder listings, and pick collision-free names for copies.
//!
//! Everything here works on plain values (path strings, byte buffers);
//! the filesystem itself is the caller's business.

pub mod classify;
pub mod media;
pub mod naming;
pub mod paths;
pub mod resolution;
pub mod scan;
pub mod text;
pub mod url;
