//! Vector storages: dense, sparse and multi-vectors, addressed by point
//! offset, with soft deletion, on any of the media.

pub mod element;
pub mod vectors;
pub mod model;
pub mod chunked;
pub mod run_store;
pub mod files;
pub mod traits;
pub mod dense;
pub mod multi_dense;
pub mod sparse;
pub mod storage_enum;
