//! Storage layer of a vector-database segment.
//!
//! The crate holds the in-memory side of the segment's vector storages and of
//! its full-text index, together with the byte images that make them durable.
//! Every function is stated over a mathematical model and proved against it;
//! moving the byte images to and from disk is left to the caller.

pub mod common;
pub mod bytes;
pub mod paths;
pub mod text;
pub mod sorted;
pub mod ragged;
pub mod bitmap;
pub mod vector_storage;
pub mod full_text_index;
pub mod laws;
