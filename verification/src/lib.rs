//! A virtual file system that presents the frames of a video as a tree of image files.
//!
//! The crate holds the node store, the file entries, the view factory and the request handler.
//! Decoding, encoding and the kernel transport are supplied by the program that uses it.

pub mod attributes;
pub mod config;
pub mod file;
pub mod fs;
pub mod image_type;
pub mod manifest;
pub mod names;
pub mod nodes;
pub mod views;
