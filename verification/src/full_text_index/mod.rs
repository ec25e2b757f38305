//! The full-text index: texts cut into tokens, the inverted index while it
//! is built, its compact form, and the form in which it lies in its files.

pub mod tokenizer;
pub mod payload;
pub mod mutable_inverted_index;
pub mod immutable_inverted_index;
pub mod index_files;
pub mod mmap_inverted_index;
pub mod mmap_text_index;
