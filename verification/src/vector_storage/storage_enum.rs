//! The vector storage of a segment: one of the storages of dense, sparse or
//! multi-vectors, on one of the media, behind one set of operations.

use std::ops::Range;
use std::sync::atomic::AtomicBool;
use vstd::prelude::*;
use crate::bitmap::DeletionBitmap;
use crate::common::{
    Distance, HardwareCounterCell, MultiVectorConfig, OperationError, OperationResult,
    PointOffsetType, StorageMedium, VectorStorageDatatype,
};
use crate::paths::{CacheAdvice, CacheRequest, Flusher};
use crate::text::strings_view;
use crate::vector_storage::dense::DenseBacking;
use crate::vector_storage::files::{StorageFiles, StorageFilesView, StorageKind};
use crate::vector_storage::model::StorageModel;
use crate::vector_storage::multi_dense::MultiDenseBacking;
use crate::vector_storage::sparse::SparseBacking;
use crate::vector_storage::traits::{
    advised_files, DenseVectorStorage, MultiVectorStorage, SeqNumberType, SparseVectorStorage,
    VectorStorage,
};
use crate::vector_storage::vectors::{VectorInternal, VectorView};

verus! {

/// A vector storage of any shape, precision and medium.
pub enum VectorStorageEnum {
    DenseVolatile(DenseBacking<u32>),
    DenseVolatileByte(DenseBacking<u8>),
    DenseVolatileHalf(DenseBacking<u16>),
    DenseMemmap(DenseBacking<u32>),
    DenseMemmapByte(DenseBacking<u8>),
    DenseMemmapHalf(DenseBacking<u16>),
    DenseAppendableMemmap(DenseBacking<u32>),
    DenseAppendableMemmapByte(DenseBacking<u8>),
    DenseAppendableMemmapHalf(DenseBacking<u16>),
    DenseAppendableInRam(DenseBacking<u32>),
    DenseAppendableInRamByte(DenseBacking<u8>),
    DenseAppendableInRamHalf(DenseBacking<u16>),
    SparseVolatile(SparseBacking),
    SparseMmap(SparseBacking),
    MultiDenseVolatile(MultiDenseBacking<u32>),
    MultiDenseVolatileByte(MultiDenseBacking<u8>),
    MultiDenseVolatileHalf(MultiDenseBacking<u16>),
    MultiDenseAppendableMemmap(MultiDenseBacking<u32>),
    MultiDenseAppendableMemmapByte(MultiDenseBacking<u8>),
    MultiDenseAppendableMemmapHalf(MultiDenseBacking<u16>),
    MultiDenseAppendableInRam(MultiDenseBacking<u32>),
    MultiDenseAppendableInRamByte(MultiDenseBacking<u8>),
    MultiDenseAppendableInRamHalf(MultiDenseBacking<u16>),
}

impl VectorStorageEnum {
    /// Number of inner vectors or pairs a storage of runs keeps, those out of
    /// reach included; zero for a dense storage.
    pub open spec fn spec_stored(&self) -> nat {
        match *self {
            VectorStorageEnum::DenseVolatile(_) => 0,
            VectorStorageEnum::DenseVolatileByte(_) => 0,
            VectorStorageEnum::DenseVolatileHalf(_) => 0,
            VectorStorageEnum::DenseMemmap(_) => 0,
            VectorStorageEnum::DenseMemmapByte(_) => 0,
            VectorStorageEnum::DenseMemmapHalf(_) => 0,
            VectorStorageEnum::DenseAppendableMemmap(_) => 0,
            VectorStorageEnum::DenseAppendableMemmapByte(_) => 0,
            VectorStorageEnum::DenseAppendableMemmapHalf(_) => 0,
            VectorStorageEnum::DenseAppendableInRam(_) => 0,
            VectorStorageEnum::DenseAppendableInRamByte(_) => 0,
            VectorStorageEnum::DenseAppendableInRamHalf(_) => 0,
            VectorStorageEnum::SparseVolatile(v) => v.spec_stored(),
            VectorStorageEnum::SparseMmap(v) => v.spec_stored(),
            VectorStorageEnum::MultiDenseVolatile(v) => v.spec_stored(),
            VectorStorageEnum::MultiDenseVolatileByte(v) => v.spec_stored(),
            VectorStorageEnum::MultiDenseVolatileHalf(v) => v.spec_stored(),
            VectorStorageEnum::MultiDenseAppendableMemmap(v) => v.spec_stored(),
            VectorStorageEnum::MultiDenseAppendableMemmapByte(v) => v.spec_stored(),
            VectorStorageEnum::MultiDenseAppendableMemmapHalf(v) => v.spec_stored(),
            VectorStorageEnum::MultiDenseAppendableInRam(v) => v.spec_stored(),
            VectorStorageEnum::MultiDenseAppendableInRamByte(v) => v.spec_stored(),
            VectorStorageEnum::MultiDenseAppendableInRamHalf(v) => v.spec_stored(),
        }
    }

    /// Bytes taken by the vectors that are not flagged as deleted: exact for
    /// dense vectors, an estimate for sparse and multi-vectors.
    pub open spec fn spec_available_bytes(&self) -> nat {
        match *self {
            VectorStorageEnum::DenseVolatile(v) => v.spec_available_bytes(),
            VectorStorageEnum::DenseVolatileByte(v) => v.spec_available_bytes(),
            VectorStorageEnum::DenseVolatileHalf(v) => v.spec_available_bytes(),
            VectorStorageEnum::DenseMemmap(v) => v.spec_available_bytes(),
            VectorStorageEnum::DenseMemmapByte(v) => v.spec_available_bytes(),
            VectorStorageEnum::DenseMemmapHalf(v) => v.spec_available_bytes(),
            VectorStorageEnum::DenseAppendableMemmap(v) => v.spec_available_bytes(),
            VectorStorageEnum::DenseAppendableMemmapByte(v) => v.spec_available_bytes(),
            VectorStorageEnum::DenseAppendableMemmapHalf(v) => v.spec_available_bytes(),
            VectorStorageEnum::DenseAppendableInRam(v) => v.spec_available_bytes(),
            VectorStorageEnum::DenseAppendableInRamByte(v) => v.spec_available_bytes(),
            VectorStorageEnum::DenseAppendableInRamHalf(v) => v.spec_available_bytes(),
            VectorStorageEnum::SparseVolatile(v) => v.spec_available_bytes(),
            VectorStorageEnum::SparseMmap(v) => v.spec_available_bytes(),
            VectorStorageEnum::MultiDenseVolatile(v) => v.spec_available_bytes(),
            VectorStorageEnum::MultiDenseVolatileByte(v) => v.spec_available_bytes(),
            VectorStorageEnum::MultiDenseVolatileHalf(v) => v.spec_available_bytes(),
            VectorStorageEnum::MultiDenseAppendableMemmap(v) => v.spec_available_bytes(),
            VectorStorageEnum::MultiDenseAppendableMemmapByte(v) => v.spec_available_bytes(),
            VectorStorageEnum::MultiDenseAppendableMemmapHalf(v) => v.spec_available_bytes(),
            VectorStorageEnum::MultiDenseAppendableInRam(v) => v.spec_available_bytes(),
            VectorStorageEnum::MultiDenseAppendableInRamByte(v) => v.spec_available_bytes(),
            VectorStorageEnum::MultiDenseAppendableInRamHalf(v) => v.spec_available_bytes(),
        }
    }

    /// Number of inner vectors or pairs kept once `vector` was written.
    pub open spec fn spec_stored_after(&self, vector: VectorView) -> nat {
        match *self {
            VectorStorageEnum::DenseVolatile(_) => 0,
            VectorStorageEnum::DenseVolatileByte(_) => 0,
            VectorStorageEnum::DenseVolatileHalf(_) => 0,
            VectorStorageEnum::DenseMemmap(_) => 0,
            VectorStorageEnum::DenseMemmapByte(_) => 0,
            VectorStorageEnum::DenseMemmapHalf(_) => 0,
            VectorStorageEnum::DenseAppendableMemmap(_) => 0,
            VectorStorageEnum::DenseAppendableMemmapByte(_) => 0,
            VectorStorageEnum::DenseAppendableMemmapHalf(_) => 0,
            VectorStorageEnum::DenseAppendableInRam(_) => 0,
            VectorStorageEnum::DenseAppendableInRamByte(_) => 0,
            VectorStorageEnum::DenseAppendableInRamHalf(_) => 0,
            VectorStorageEnum::SparseVolatile(v) => v.spec_stored_after(vector),
            VectorStorageEnum::SparseMmap(v) => v.spec_stored_after(vector),
            VectorStorageEnum::MultiDenseVolatile(v) => v.spec_kept_after(vector),
            VectorStorageEnum::MultiDenseVolatileByte(v) => v.spec_kept_after(vector),
            VectorStorageEnum::MultiDenseVolatileHalf(v) => v.spec_kept_after(vector),
            VectorStorageEnum::MultiDenseAppendableMemmap(v) => v.spec_kept_after(vector),
            VectorStorageEnum::MultiDenseAppendableMemmapByte(v) => v.spec_kept_after(vector),
            VectorStorageEnum::MultiDenseAppendableMemmapHalf(v) => v.spec_kept_after(vector),
            VectorStorageEnum::MultiDenseAppendableInRam(v) => v.spec_kept_after(vector),
            VectorStorageEnum::MultiDenseAppendableInRamByte(v) => v.spec_kept_after(vector),
            VectorStorageEnum::MultiDenseAppendableInRamHalf(v) => v.spec_kept_after(vector),
        }
    }

    /// The width of a vector or an inner vector, two for the pairs of a
    /// sparse storage, and the largest number of inner vectors or pairs in
    /// one vector, zero for a dense storage.
    pub open spec fn spec_layout(&self) -> (nat, nat) {
        match *self {
            VectorStorageEnum::DenseVolatile(v) => (v.spec_dim(), 0),
            VectorStorageEnum::DenseVolatileByte(v) => (v.spec_dim(), 0),
            VectorStorageEnum::DenseVolatileHalf(v) => (v.spec_dim(), 0),
            VectorStorageEnum::DenseMemmap(v) => (v.spec_dim(), 0),
            VectorStorageEnum::DenseMemmapByte(v) => (v.spec_dim(), 0),
            VectorStorageEnum::DenseMemmapHalf(v) => (v.spec_dim(), 0),
            VectorStorageEnum::DenseAppendableMemmap(v) => (v.spec_dim(), 0),
            VectorStorageEnum::DenseAppendableMemmapByte(v) => (v.spec_dim(), 0),
            VectorStorageEnum::DenseAppendableMemmapHalf(v) => (v.spec_dim(), 0),
            VectorStorageEnum::DenseAppendableInRam(v) => (v.spec_dim(), 0),
            VectorStorageEnum::DenseAppendableInRamByte(v) => (v.spec_dim(), 0),
            VectorStorageEnum::DenseAppendableInRamHalf(v) => (v.spec_dim(), 0),
            VectorStorageEnum::SparseVolatile(v) => (2, v.spec_max_count()),
            VectorStorageEnum::SparseMmap(v) => (2, v.spec_max_count()),
            VectorStorageEnum::MultiDenseVolatile(v) => (v.spec_dim(), v.spec_max_count()),
            VectorStorageEnum::MultiDenseVolatileByte(v) => (v.spec_dim(), v.spec_max_count()),
            VectorStorageEnum::MultiDenseVolatileHalf(v) => (v.spec_dim(), v.spec_max_count()),
            VectorStorageEnum::MultiDenseAppendableMemmap(v) => (v.spec_dim(), v.spec_max_count()),
            VectorStorageEnum::MultiDenseAppendableMemmapByte(v) =>
                (v.spec_dim(), v.spec_max_count()),
            VectorStorageEnum::MultiDenseAppendableMemmapHalf(v) =>
                (v.spec_dim(), v.spec_max_count()),
            VectorStorageEnum::MultiDenseAppendableInRam(v) => (v.spec_dim(), v.spec_max_count()),
            VectorStorageEnum::MultiDenseAppendableInRamByte(v) =>
                (v.spec_dim(), v.spec_max_count()),
            VectorStorageEnum::MultiDenseAppendableInRamHalf(v) =>
                (v.spec_dim(), v.spec_max_count()),
        }
    }

    /// The configuration of a multi-vector storage.
    pub open spec fn spec_multi_vector_config(&self) -> Option<MultiVectorConfig> {
        match *self {
            VectorStorageEnum::DenseVolatile(_) => None,
            VectorStorageEnum::DenseVolatileByte(_) => None,
            VectorStorageEnum::DenseVolatileHalf(_) => None,
            VectorStorageEnum::DenseMemmap(_) => None,
            VectorStorageEnum::DenseMemmapByte(_) => None,
            VectorStorageEnum::DenseMemmapHalf(_) => None,
            VectorStorageEnum::DenseAppendableMemmap(_) => None,
            VectorStorageEnum::DenseAppendableMemmapByte(_) => None,
            VectorStorageEnum::DenseAppendableMemmapHalf(_) => None,
            VectorStorageEnum::DenseAppendableInRam(_) => None,
            VectorStorageEnum::DenseAppendableInRamByte(_) => None,
            VectorStorageEnum::DenseAppendableInRamHalf(_) => None,
            VectorStorageEnum::SparseVolatile(_) => None,
            VectorStorageEnum::SparseMmap(_) => None,
            VectorStorageEnum::MultiDenseVolatile(v) => Some(v.spec_multi_vector_config()),
            VectorStorageEnum::MultiDenseVolatileByte(v) => Some(v.spec_multi_vector_config()),
            VectorStorageEnum::MultiDenseVolatileHalf(v) => Some(v.spec_multi_vector_config()),
            VectorStorageEnum::MultiDenseAppendableMemmap(v) => Some(v.spec_multi_vector_config()),
            VectorStorageEnum::MultiDenseAppendableMemmapByte(v) =>
                Some(v.spec_multi_vector_config()),
            VectorStorageEnum::MultiDenseAppendableMemmapHalf(v) =>
                Some(v.spec_multi_vector_config()),
            VectorStorageEnum::MultiDenseAppendableInRam(v) => Some(v.spec_multi_vector_config()),
            VectorStorageEnum::MultiDenseAppendableInRamByte(v) =>
                Some(v.spec_multi_vector_config()),
            VectorStorageEnum::MultiDenseAppendableInRamHalf(v) =>
                Some(v.spec_multi_vector_config()),
        }
    }

    /// The configuration of a multi-vector storage; nothing for a storage of
    /// another shape.
    pub fn try_multi_vector_config(&self) -> (r: Option<&MultiVectorConfig>)
        requires
            self.wf(),
        ensures
            r is Some <==> self.model().shape is MultiDense,
            match r {
                Some(config) => self.spec_multi_vector_config() == Some(*config),
                None => self.spec_multi_vector_config() is None,
            },
    {
        proof {
            self.lemma_shape();
        }
        match self {
            VectorStorageEnum::DenseVolatile(_) => None,
            VectorStorageEnum::DenseVolatileByte(_) => None,
            VectorStorageEnum::DenseVolatileHalf(_) => None,
            VectorStorageEnum::DenseMemmap(_) => None,
            VectorStorageEnum::DenseMemmapByte(_) => None,
            VectorStorageEnum::DenseMemmapHalf(_) => None,
            VectorStorageEnum::DenseAppendableMemmap(_) => None,
            VectorStorageEnum::DenseAppendableMemmapByte(_) => None,
            VectorStorageEnum::DenseAppendableMemmapHalf(_) => None,
            VectorStorageEnum::DenseAppendableInRam(_) => None,
            VectorStorageEnum::DenseAppendableInRamByte(_) => None,
            VectorStorageEnum::DenseAppendableInRamHalf(_) => None,
            VectorStorageEnum::SparseVolatile(_) => None,
            VectorStorageEnum::SparseMmap(_) => None,
            VectorStorageEnum::MultiDenseVolatile(v) => Some(v.multi_vector_config()),
            VectorStorageEnum::MultiDenseVolatileByte(v) => Some(v.multi_vector_config()),
            VectorStorageEnum::MultiDenseVolatileHalf(v) => Some(v.multi_vector_config()),
            VectorStorageEnum::MultiDenseAppendableMemmap(v) => Some(v.multi_vector_config()),
            VectorStorageEnum::MultiDenseAppendableMemmapByte(v) => Some(v.multi_vector_config()),
            VectorStorageEnum::MultiDenseAppendableMemmapHalf(v) => Some(v.multi_vector_config()),
            VectorStorageEnum::MultiDenseAppendableInRam(v) => Some(v.multi_vector_config()),
            VectorStorageEnum::MultiDenseAppendableInRamByte(v) => Some(v.multi_vector_config()),
            VectorStorageEnum::MultiDenseAppendableInRamHalf(v) => Some(v.multi_vector_config()),
        }
    }

    /// The storage inside, where it is a dense storage of single precision.
    pub open spec fn as_dense(&self) -> Option<DenseBacking<u32>> {
        match *self {
            VectorStorageEnum::DenseVolatile(v) => Some(v),
            VectorStorageEnum::DenseMemmap(v) => Some(v),
            VectorStorageEnum::DenseAppendableMemmap(v) => Some(v),
            VectorStorageEnum::DenseAppendableInRam(v) => Some(v),
            _ => None,
        }
    }

    /// The storage inside, where it is a dense storage of bytes.
    pub open spec fn as_dense_byte(&self) -> Option<DenseBacking<u8>> {
        match *self {
            VectorStorageEnum::DenseVolatileByte(v) => Some(v),
            VectorStorageEnum::DenseMemmapByte(v) => Some(v),
            VectorStorageEnum::DenseAppendableMemmapByte(v) => Some(v),
            VectorStorageEnum::DenseAppendableInRamByte(v) => Some(v),
            _ => None,
        }
    }

    /// The storage inside, where it is a dense storage of half precision.
    pub open spec fn as_dense_half(&self) -> Option<DenseBacking<u16>> {
        match *self {
            VectorStorageEnum::DenseVolatileHalf(v) => Some(v),
            VectorStorageEnum::DenseMemmapHalf(v) => Some(v),
            VectorStorageEnum::DenseAppendableMemmapHalf(v) => Some(v),
            VectorStorageEnum::DenseAppendableInRamHalf(v) => Some(v),
            _ => None,
        }
    }

    /// The storage inside, where it is a sparse storage.
    pub open spec fn as_sparse(&self) -> Option<SparseBacking> {
        match *self {
            VectorStorageEnum::SparseVolatile(v) => Some(v),
            VectorStorageEnum::SparseMmap(v) => Some(v),
            _ => None,
        }
    }

    /// The storage inside, where it is a multi-vector storage of single precision.
    pub open spec fn as_multi(&self) -> Option<MultiDenseBacking<u32>> {
        match *self {
            VectorStorageEnum::MultiDenseVolatile(v) => Some(v),
            VectorStorageEnum::MultiDenseAppendableMemmap(v) => Some(v),
            VectorStorageEnum::MultiDenseAppendableInRam(v) => Some(v),
            _ => None,
        }
    }

    /// The storage inside, where it is a multi-vector storage of bytes.
    pub open spec fn as_multi_byte(&self) -> Option<MultiDenseBacking<u8>> {
        match *self {
            VectorStorageEnum::MultiDenseVolatileByte(v) => Some(v),
            VectorStorageEnum::MultiDenseAppendableMemmapByte(v) => Some(v),
            VectorStorageEnum::MultiDenseAppendableInRamByte(v) => Some(v),
            _ => None,
        }
    }

    /// The storage inside, where it is a multi-vector storage of half precision.
    pub open spec fn as_multi_half(&self) -> Option<MultiDenseBacking<u16>> {
        match *self {
            VectorStorageEnum::MultiDenseVolatileHalf(v) => Some(v),
            VectorStorageEnum::MultiDenseAppendableMemmapHalf(v) => Some(v),
            VectorStorageEnum::MultiDenseAppendableInRamHalf(v) => Some(v),
            _ => None,
        }
    }

    /// The kind of files and the precision that the variant names.
    pub open spec fn variant_class(&self) -> (StorageKind, VectorStorageDatatype) {
        match *self {
            VectorStorageEnum::DenseVolatile(_) =>
                (StorageKind::Dense, VectorStorageDatatype::Float32),
            VectorStorageEnum::DenseVolatileByte(_) =>
                (StorageKind::Dense, VectorStorageDatatype::Uint8),
            VectorStorageEnum::DenseVolatileHalf(_) =>
                (StorageKind::Dense, VectorStorageDatatype::Float16),
            VectorStorageEnum::DenseMemmap(_) =>
                (StorageKind::Dense, VectorStorageDatatype::Float32),
            VectorStorageEnum::DenseMemmapByte(_) =>
                (StorageKind::Dense, VectorStorageDatatype::Uint8),
            VectorStorageEnum::DenseMemmapHalf(_) =>
                (StorageKind::Dense, VectorStorageDatatype::Float16),
            VectorStorageEnum::DenseAppendableMemmap(_) =>
                (StorageKind::Dense, VectorStorageDatatype::Float32),
            VectorStorageEnum::DenseAppendableMemmapByte(_) =>
                (StorageKind::Dense, VectorStorageDatatype::Uint8),
            VectorStorageEnum::DenseAppendableMemmapHalf(_) =>
                (StorageKind::Dense, VectorStorageDatatype::Float16),
            VectorStorageEnum::DenseAppendableInRam(_) =>
                (StorageKind::Dense, VectorStorageDatatype::Float32),
            VectorStorageEnum::DenseAppendableInRamByte(_) =>
                (StorageKind::Dense, VectorStorageDatatype::Uint8),
            VectorStorageEnum::DenseAppendableInRamHalf(_) =>
                (StorageKind::Dense, VectorStorageDatatype::Float16),
            VectorStorageEnum::SparseVolatile(_) =>
                (StorageKind::Sparse, VectorStorageDatatype::Float32),
            VectorStorageEnum::SparseMmap(_) =>
                (StorageKind::Sparse, VectorStorageDatatype::Float32),
            VectorStorageEnum::MultiDenseVolatile(_) =>
                (StorageKind::MultiDense, VectorStorageDatatype::Float32),
            VectorStorageEnum::MultiDenseVolatileByte(_) =>
                (StorageKind::MultiDense, VectorStorageDatatype::Uint8),
            VectorStorageEnum::MultiDenseVolatileHalf(_) =>
                (StorageKind::MultiDense, VectorStorageDatatype::Float16),
            VectorStorageEnum::MultiDenseAppendableMemmap(_) =>
                (StorageKind::MultiDense, VectorStorageDatatype::Float32),
            VectorStorageEnum::MultiDenseAppendableMemmapByte(_) =>
                (StorageKind::MultiDense, VectorStorageDatatype::Uint8),
            VectorStorageEnum::MultiDenseAppendableMemmapHalf(_) =>
                (StorageKind::MultiDense, VectorStorageDatatype::Float16),
            VectorStorageEnum::MultiDenseAppendableInRam(_) =>
                (StorageKind::MultiDense, VectorStorageDatatype::Float32),
            VectorStorageEnum::MultiDenseAppendableInRamByte(_) =>
                (StorageKind::MultiDense, VectorStorageDatatype::Uint8),
            VectorStorageEnum::MultiDenseAppendableInRamHalf(_) =>
                (StorageKind::MultiDense, VectorStorageDatatype::Float16),
        }
    }

    /// The shape and the precision of a storage are those its variant names.
    pub proof fn lemma_variant(&self)
        requires
            self.wf(),
        ensures
            self.variant_class() == (
                crate::vector_storage::traits::kind_of(self.model().shape),
                self.model().datatype,
            ),
    {
        match *self {
            VectorStorageEnum::DenseVolatile(v) => {
                v.lemma_dense_model();
            },
            VectorStorageEnum::DenseVolatileByte(v) => {
                v.lemma_dense_model();
            },
            VectorStorageEnum::DenseVolatileHalf(v) => {
                v.lemma_dense_model();
            },
            VectorStorageEnum::DenseMemmap(v) => {
                v.lemma_dense_model();
            },
            VectorStorageEnum::DenseMemmapByte(v) => {
                v.lemma_dense_model();
            },
            VectorStorageEnum::DenseMemmapHalf(v) => {
                v.lemma_dense_model();
            },
            VectorStorageEnum::DenseAppendableMemmap(v) => {
                v.lemma_dense_model();
            },
            VectorStorageEnum::DenseAppendableMemmapByte(v) => {
                v.lemma_dense_model();
            },
            VectorStorageEnum::DenseAppendableMemmapHalf(v) => {
                v.lemma_dense_model();
            },
            VectorStorageEnum::DenseAppendableInRam(v) => {
                v.lemma_dense_model();
            },
            VectorStorageEnum::DenseAppendableInRamByte(v) => {
                v.lemma_dense_model();
            },
            VectorStorageEnum::DenseAppendableInRamHalf(v) => {
                v.lemma_dense_model();
            },
            VectorStorageEnum::SparseVolatile(v) => {
                v.lemma_sparse_model();
            },
            VectorStorageEnum::SparseMmap(v) => {
                v.lemma_sparse_model();
            },
            VectorStorageEnum::MultiDenseVolatile(v) => {
                v.lemma_multi_model();
                v.lemma_placeholder();
            },
            VectorStorageEnum::MultiDenseVolatileByte(v) => {
                v.lemma_multi_model();
                v.lemma_placeholder();
            },
            VectorStorageEnum::MultiDenseVolatileHalf(v) => {
                v.lemma_multi_model();
                v.lemma_placeholder();
            },
            VectorStorageEnum::MultiDenseAppendableMemmap(v) => {
                v.lemma_multi_model();
                v.lemma_placeholder();
            },
            VectorStorageEnum::MultiDenseAppendableMemmapByte(v) => {
                v.lemma_multi_model();
                v.lemma_placeholder();
            },
            VectorStorageEnum::MultiDenseAppendableMemmapHalf(v) => {
                v.lemma_multi_model();
                v.lemma_placeholder();
            },
            VectorStorageEnum::MultiDenseAppendableInRam(v) => {
                v.lemma_multi_model();
                v.lemma_placeholder();
            },
            VectorStorageEnum::MultiDenseAppendableInRamByte(v) => {
                v.lemma_multi_model();
                v.lemma_placeholder();
            },
            VectorStorageEnum::MultiDenseAppendableInRamHalf(v) => {
                v.lemma_multi_model();
                v.lemma_placeholder();
            },
        }
    }

    /// The shape of the vectors follows from the variant.
    pub proof fn lemma_shape(&self)
        requires
            self.wf(),
        ensures
            self.model().shape is MultiDense <==> self.spec_multi_vector_config() is Some,
            self.model().shape is Sparse <==> (*self is SparseVolatile || *self is SparseMmap),
            self.model().shape is Dense <==> !(self.model().shape is MultiDense) && !(
            self.model().shape is Sparse),
            self.model().refusal(self.model().shape.placeholder(self.model().datatype)) is None,
    {
        match *self {
            VectorStorageEnum::DenseVolatile(v) => {
                v.lemma_dense_model();
                v.lemma_placeholder();
            },
            VectorStorageEnum::DenseVolatileByte(v) => {
                v.lemma_dense_model();
                v.lemma_placeholder();
            },
            VectorStorageEnum::DenseVolatileHalf(v) => {
                v.lemma_dense_model();
                v.lemma_placeholder();
            },
            VectorStorageEnum::DenseMemmap(v) => {
                v.lemma_dense_model();
                v.lemma_placeholder();
            },
            VectorStorageEnum::DenseMemmapByte(v) => {
                v.lemma_dense_model();
                v.lemma_placeholder();
            },
            VectorStorageEnum::DenseMemmapHalf(v) => {
                v.lemma_dense_model();
                v.lemma_placeholder();
            },
            VectorStorageEnum::DenseAppendableMemmap(v) => {
                v.lemma_dense_model();
                v.lemma_placeholder();
            },
            VectorStorageEnum::DenseAppendableMemmapByte(v) => {
                v.lemma_dense_model();
                v.lemma_placeholder();
            },
            VectorStorageEnum::DenseAppendableMemmapHalf(v) => {
                v.lemma_dense_model();
                v.lemma_placeholder();
            },
            VectorStorageEnum::DenseAppendableInRam(v) => {
                v.lemma_dense_model();
                v.lemma_placeholder();
            },
            VectorStorageEnum::DenseAppendableInRamByte(v) => {
                v.lemma_dense_model();
                v.lemma_placeholder();
            },
            VectorStorageEnum::DenseAppendableInRamHalf(v) => {
                v.lemma_dense_model();
                v.lemma_placeholder();
            },
            VectorStorageEnum::SparseVolatile(v) => {
                v.lemma_sparse_model();
            },
            VectorStorageEnum::SparseMmap(v) => {
                v.lemma_sparse_model();
            },
            VectorStorageEnum::MultiDenseVolatile(v) => {
                v.lemma_multi_model();
                v.lemma_placeholder();
            },
            VectorStorageEnum::MultiDenseVolatileByte(v) => {
                v.lemma_multi_model();
                v.lemma_placeholder();
            },
            VectorStorageEnum::MultiDenseVolatileHalf(v) => {
                v.lemma_multi_model();
                v.lemma_placeholder();
            },
            VectorStorageEnum::MultiDenseAppendableMemmap(v) => {
                v.lemma_multi_model();
                v.lemma_placeholder();
            },
            VectorStorageEnum::MultiDenseAppendableMemmapByte(v) => {
                v.lemma_multi_model();
                v.lemma_placeholder();
            },
            VectorStorageEnum::MultiDenseAppendableMemmapHalf(v) => {
                v.lemma_multi_model();
                v.lemma_placeholder();
            },
            VectorStorageEnum::MultiDenseAppendableInRam(v) => {
                v.lemma_multi_model();
                v.lemma_placeholder();
            },
            VectorStorageEnum::MultiDenseAppendableInRamByte(v) => {
                v.lemma_multi_model();
                v.lemma_placeholder();
            },
            VectorStorageEnum::MultiDenseAppendableInRamHalf(v) => {
                v.lemma_multi_model();
                v.lemma_placeholder();
            },
        }
    }

    /// A vector that the storage takes, for callers that need any: ones for a
    /// dense storage, no entries for a sparse one, one inner vector of ones
    /// for a multi-vector storage.
    pub fn default_vector(&self) -> (r: VectorInternal)
        requires
            self.wf(),
        ensures
            r@ == self.model().shape.placeholder(self.model().datatype),
            self.model().refusal(r@) is None,
    {
        match self {
            VectorStorageEnum::DenseVolatile(v) => v.default_vector(),
            VectorStorageEnum::DenseVolatileByte(v) => v.default_vector(),
            VectorStorageEnum::DenseVolatileHalf(v) => v.default_vector(),
            VectorStorageEnum::DenseMemmap(v) => v.default_vector(),
            VectorStorageEnum::DenseMemmapByte(v) => v.default_vector(),
            VectorStorageEnum::DenseMemmapHalf(v) => v.default_vector(),
            VectorStorageEnum::DenseAppendableMemmap(v) => v.default_vector(),
            VectorStorageEnum::DenseAppendableMemmapByte(v) => v.default_vector(),
            VectorStorageEnum::DenseAppendableMemmapHalf(v) => v.default_vector(),
            VectorStorageEnum::DenseAppendableInRam(v) => v.default_vector(),
            VectorStorageEnum::DenseAppendableInRamByte(v) => v.default_vector(),
            VectorStorageEnum::DenseAppendableInRamHalf(v) => v.default_vector(),
            VectorStorageEnum::SparseVolatile(v) => v.default_vector(),
            VectorStorageEnum::SparseMmap(v) => v.default_vector(),
            VectorStorageEnum::MultiDenseVolatile(v) => v.default_vector(),
            VectorStorageEnum::MultiDenseVolatileByte(v) => v.default_vector(),
            VectorStorageEnum::MultiDenseVolatileHalf(v) => v.default_vector(),
            VectorStorageEnum::MultiDenseAppendableMemmap(v) => v.default_vector(),
            VectorStorageEnum::MultiDenseAppendableMemmapByte(v) => v.default_vector(),
            VectorStorageEnum::MultiDenseAppendableMemmapHalf(v) => v.default_vector(),
            VectorStorageEnum::MultiDenseAppendableInRam(v) => v.default_vector(),
            VectorStorageEnum::MultiDenseAppendableInRamByte(v) => v.default_vector(),
            VectorStorageEnum::MultiDenseAppendableInRamHalf(v) => v.default_vector(),
        }
    }

    /// Bytes taken by the vectors that are not flagged as deleted. A sparse
    /// storage in mapped files does not know its size.
    pub fn size_of_available_vectors_in_bytes(&self) -> (r: usize)
        requires
            self.wf(),
            !(*self is SparseMmap),
        ensures
            r == self.spec_available_bytes(),
    {
        match self {
            VectorStorageEnum::DenseVolatile(v) => {
                proof
                {
                    v.lemma_dense_model();
                }
                v.size_of_available_vectors_in_bytes()
            },
            VectorStorageEnum::DenseVolatileByte(v) => {
                proof
                {
                    v.lemma_dense_model();
                }
                v.size_of_available_vectors_in_bytes()
            },
            VectorStorageEnum::DenseVolatileHalf(v) => {
                proof
                {
                    v.lemma_dense_model();
                }
                v.size_of_available_vectors_in_bytes()
            },
            VectorStorageEnum::DenseMemmap(v) => {
                proof
                {
                    v.lemma_dense_model();
                }
                v.size_of_available_vectors_in_bytes()
            },
            VectorStorageEnum::DenseMemmapByte(v) => {
                proof
                {
                    v.lemma_dense_model();
                }
                v.size_of_available_vectors_in_bytes()
            },
            VectorStorageEnum::DenseMemmapHalf(v) => {
                proof
                {
                    v.lemma_dense_model();
                }
                v.size_of_available_vectors_in_bytes()
            },
            VectorStorageEnum::DenseAppendableMemmap(v) => {
                proof
                {
                    v.lemma_dense_model();
                }
                v.size_of_available_vectors_in_bytes()
            },
            VectorStorageEnum::DenseAppendableMemmapByte(v) => {
                proof
                {
                    v.lemma_dense_model();
                }
                v.size_of_available_vectors_in_bytes()
            },
            VectorStorageEnum::DenseAppendableMemmapHalf(v) => {
                proof
                {
                    v.lemma_dense_model();
                }
                v.size_of_available_vectors_in_bytes()
            },
            VectorStorageEnum::DenseAppendableInRam(v) => {
                proof
                {
                    v.lemma_dense_model();
                }
                v.size_of_available_vectors_in_bytes()
            },
            VectorStorageEnum::DenseAppendableInRamByte(v) => {
                proof
                {
                    v.lemma_dense_model();
                }
                v.size_of_available_vectors_in_bytes()
            },
            VectorStorageEnum::DenseAppendableInRamHalf(v) => {
                proof
                {
                    v.lemma_dense_model();
                }
                v.size_of_available_vectors_in_bytes()
            },
            VectorStorageEnum::SparseVolatile(v) => v.size_of_available_vectors_in_bytes(),
            VectorStorageEnum::SparseMmap(v) => v.size_of_available_vectors_in_bytes(),
            VectorStorageEnum::MultiDenseVolatile(v) => {
                proof
                {
                    v.lemma_multi_model();
                }
                v.size_of_available_vectors_in_bytes()
            },
            VectorStorageEnum::MultiDenseVolatileByte(v) => {
                proof
                {
                    v.lemma_multi_model();
                }
                v.size_of_available_vectors_in_bytes()
            },
            VectorStorageEnum::MultiDenseVolatileHalf(v) => {
                proof
                {
                    v.lemma_multi_model();
                }
                v.size_of_available_vectors_in_bytes()
            },
            VectorStorageEnum::MultiDenseAppendableMemmap(v) => {
                proof
                {
                    v.lemma_multi_model();
                }
                v.size_of_available_vectors_in_bytes()
            },
            VectorStorageEnum::MultiDenseAppendableMemmapByte(v) => {
                proof
                {
                    v.lemma_multi_model();
                }
                v.size_of_available_vectors_in_bytes()
            },
            VectorStorageEnum::MultiDenseAppendableMemmapHalf(v) => {
                proof
                {
                    v.lemma_multi_model();
                }
                v.size_of_available_vectors_in_bytes()
            },
            VectorStorageEnum::MultiDenseAppendableInRam(v) => {
                proof
                {
                    v.lemma_multi_model();
                }
                v.size_of_available_vectors_in_bytes()
            },
            VectorStorageEnum::MultiDenseAppendableInRamByte(v) => {
                proof
                {
                    v.lemma_multi_model();
                }
                v.size_of_available_vectors_in_bytes()
            },
            VectorStorageEnum::MultiDenseAppendableInRamHalf(v) => {
                proof
                {
                    v.lemma_multi_model();
                }
                v.size_of_available_vectors_in_bytes()
            },
        }
    }
}

impl VectorStorageEnum {
    /// Asks for every page of every file to be read in. A storage held in
    /// memory has nothing to read in.
    pub fn populate(&self) -> (r: OperationResult<CacheRequest>)
        requires
            self.wf(),
        ensures
            r matches Ok(request) && request.advice == CacheAdvice::Populate && strings_view(
                request.files@,
            ) == advised_files(self),
    {
        match self {
            VectorStorageEnum::DenseVolatile(v) => v.populate(),
            VectorStorageEnum::DenseVolatileByte(v) => v.populate(),
            VectorStorageEnum::DenseVolatileHalf(v) => v.populate(),
            VectorStorageEnum::DenseMemmap(v) => v.populate(),
            VectorStorageEnum::DenseMemmapByte(v) => v.populate(),
            VectorStorageEnum::DenseMemmapHalf(v) => v.populate(),
            VectorStorageEnum::DenseAppendableMemmap(v) => v.populate(),
            VectorStorageEnum::DenseAppendableMemmapByte(v) => v.populate(),
            VectorStorageEnum::DenseAppendableMemmapHalf(v) => v.populate(),
            VectorStorageEnum::DenseAppendableInRam(v) => v.populate(),
            VectorStorageEnum::DenseAppendableInRamByte(v) => v.populate(),
            VectorStorageEnum::DenseAppendableInRamHalf(v) => v.populate(),
            VectorStorageEnum::SparseVolatile(v) => v.populate(),
            VectorStorageEnum::SparseMmap(v) => v.populate(),
            VectorStorageEnum::MultiDenseVolatile(v) => v.populate(),
            VectorStorageEnum::MultiDenseVolatileByte(v) => v.populate(),
            VectorStorageEnum::MultiDenseVolatileHalf(v) => v.populate(),
            VectorStorageEnum::MultiDenseAppendableMemmap(v) => v.populate(),
            VectorStorageEnum::MultiDenseAppendableMemmapByte(v) => v.populate(),
            VectorStorageEnum::MultiDenseAppendableMemmapHalf(v) => v.populate(),
            VectorStorageEnum::MultiDenseAppendableInRam(v) => v.populate(),
            VectorStorageEnum::MultiDenseAppendableInRamByte(v) => v.populate(),
            VectorStorageEnum::MultiDenseAppendableInRamHalf(v) => v.populate(),
        }
    }

    /// Asks for the pages of every file to be dropped from the cache. A
    /// storage held in memory has nothing to drop.
    pub fn clear_cache(&self) -> (r: OperationResult<CacheRequest>)
        requires
            self.wf(),
        ensures
            r matches Ok(request) && request.advice == CacheAdvice::Clear && strings_view(
                request.files@,
            ) == advised_files(self),
    {
        match self {
            VectorStorageEnum::DenseVolatile(v) => v.clear_cache(),
            VectorStorageEnum::DenseVolatileByte(v) => v.clear_cache(),
            VectorStorageEnum::DenseVolatileHalf(v) => v.clear_cache(),
            VectorStorageEnum::DenseMemmap(v) => v.clear_cache(),
            VectorStorageEnum::DenseMemmapByte(v) => v.clear_cache(),
            VectorStorageEnum::DenseMemmapHalf(v) => v.clear_cache(),
            VectorStorageEnum::DenseAppendableMemmap(v) => v.clear_cache(),
            VectorStorageEnum::DenseAppendableMemmapByte(v) => v.clear_cache(),
            VectorStorageEnum::DenseAppendableMemmapHalf(v) => v.clear_cache(),
            VectorStorageEnum::DenseAppendableInRam(v) => v.clear_cache(),
            VectorStorageEnum::DenseAppendableInRamByte(v) => v.clear_cache(),
            VectorStorageEnum::DenseAppendableInRamHalf(v) => v.clear_cache(),
            VectorStorageEnum::SparseVolatile(v) => v.clear_cache(),
            VectorStorageEnum::SparseMmap(v) => v.clear_cache(),
            VectorStorageEnum::MultiDenseVolatile(v) => v.clear_cache(),
            VectorStorageEnum::MultiDenseVolatileByte(v) => v.clear_cache(),
            VectorStorageEnum::MultiDenseVolatileHalf(v) => v.clear_cache(),
            VectorStorageEnum::MultiDenseAppendableMemmap(v) => v.clear_cache(),
            VectorStorageEnum::MultiDenseAppendableMemmapByte(v) => v.clear_cache(),
            VectorStorageEnum::MultiDenseAppendableMemmapHalf(v) => v.clear_cache(),
            VectorStorageEnum::MultiDenseAppendableInRam(v) => v.clear_cache(),
            VectorStorageEnum::MultiDenseAppendableInRamByte(v) => v.clear_cache(),
            VectorStorageEnum::MultiDenseAppendableInRamHalf(v) => v.clear_cache(),
        }
    }

    /// Whether `files` hold a sound storage that has a variant on `medium`.
    pub open spec fn openable(files: StorageFilesView, medium: StorageMedium) -> bool {
        match files.meta.kind {
            StorageKind::Dense => match files.meta.element {
                VectorStorageDatatype::Float32 => DenseBacking::<u32>::readable(files),
                VectorStorageDatatype::Float16 => DenseBacking::<u16>::readable(files),
                VectorStorageDatatype::Uint8 => DenseBacking::<u8>::readable(files),
            },
            StorageKind::Sparse => (medium == StorageMedium::Volatile || medium
                == StorageMedium::Memmap) && SparseBacking::readable(files),
            StorageKind::MultiDense => medium != StorageMedium::Memmap && match files.meta.element {
                VectorStorageDatatype::Float32 => MultiDenseBacking::<u32>::readable(files),
                VectorStorageDatatype::Float16 => MultiDenseBacking::<u16>::readable(files),
                VectorStorageDatatype::Uint8 => MultiDenseBacking::<u8>::readable(files),
            },
        }
    }

    /// The storage that `files` hold, to live in the directory `path` on
    /// `medium`: the variant that the meta data and the medium name.
    /// Deletion flags for offsets that hold no vector are left behind. Files
    /// that do not hold a sound storage, and a shape that has no variant on
    /// `medium`, are refused.
    pub fn open(
        path: String,
        files: &StorageFiles,
        medium: StorageMedium,
        populated: bool,
    ) -> (r: OperationResult<Self>)
        ensures
            r is Ok <==> Self::openable(files@, medium),
            r matches Err(error) ==> error == OperationError::FormatMismatch,
            r matches Ok(storage) ==> {
                &&& storage.wf()
                &&& storage.spec_held_by(files@)
                &&& storage.spec_medium() == medium
                &&& storage.spec_populated() == populated
                &&& storage.spec_path() == path@
            },
    {
        match files.meta.kind {
            StorageKind::Dense => match files.meta.element {
                VectorStorageDatatype::Float32 => {
                    match DenseBacking::<u32>::restore(path, files, medium, populated) {
                        Ok(v) => Ok(Self::of_dense(v)),
                        Err(error) => Err(error),
                    }
                },
                VectorStorageDatatype::Float16 => {
                    match DenseBacking::<u16>::restore(path, files, medium, populated) {
                        Ok(v) => Ok(Self::of_dense_half(v)),
                        Err(error) => Err(error),
                    }
                },
                VectorStorageDatatype::Uint8 => {
                    match DenseBacking::<u8>::restore(path, files, medium, populated) {
                        Ok(v) => Ok(Self::of_dense_byte(v)),
                        Err(error) => Err(error),
                    }
                },
            },
            StorageKind::Sparse => {
                let mapped = match medium {
                    StorageMedium::Volatile => false,
                    StorageMedium::Memmap => true,
                    _ => {
                        return Err(OperationError::FormatMismatch);
                    },
                };
                match SparseBacking::restore(path, files, medium, populated) {
                    Ok(v) => Ok(
                        if mapped {
                            VectorStorageEnum::SparseMmap(v)
                        } else {
                            VectorStorageEnum::SparseVolatile(v)
                        },
                    ),
                    Err(error) => Err(error),
                }
            },
            StorageKind::MultiDense => {
                match medium {
                    StorageMedium::Memmap => {
                        return Err(OperationError::FormatMismatch);
                    },
                    _ => {},
                }
                match files.meta.element {
                    VectorStorageDatatype::Float32 => {
                        match MultiDenseBacking::<u32>::restore(path, files, medium, populated) {
                            Ok(v) => Ok(Self::of_multi(v)),
                            Err(error) => Err(error),
                        }
                    },
                    VectorStorageDatatype::Float16 => {
                        match MultiDenseBacking::<u16>::restore(path, files, medium, populated) {
                            Ok(v) => Ok(Self::of_multi_half(v)),
                            Err(error) => Err(error),
                        }
                    },
                    VectorStorageDatatype::Uint8 => {
                        match MultiDenseBacking::<u8>::restore(path, files, medium, populated) {
                            Ok(v) => Ok(Self::of_multi_byte(v)),
                            Err(error) => Err(error),
                        }
                    },
                }
            },
        }
    }

    /// The variant of a dense storage of this precision on its medium.
    fn of_dense(v: DenseBacking<u32>) -> (r: Self)
        requires
            v.wf(),
        ensures
            r.wf(),
            r.model() == v.model(),
            r.spec_medium() == v.spec_medium(),
            r.spec_populated() == v.spec_populated(),
            r.spec_path() == v.spec_path(),
            forall|files: StorageFilesView| r.spec_held_by(files) == v.spec_held_by(files),
    {
        match v.medium() {
            StorageMedium::Volatile => VectorStorageEnum::DenseVolatile(v),
            StorageMedium::Memmap => VectorStorageEnum::DenseMemmap(v),
            StorageMedium::AppendableMemmap => VectorStorageEnum::DenseAppendableMemmap(v),
            StorageMedium::AppendableInRam => VectorStorageEnum::DenseAppendableInRam(v),
        }
    }

    /// The variant of a dense storage of this precision on its medium.
    fn of_dense_half(v: DenseBacking<u16>) -> (r: Self)
        requires
            v.wf(),
        ensures
            r.wf(),
            r.model() == v.model(),
            r.spec_medium() == v.spec_medium(),
            r.spec_populated() == v.spec_populated(),
            r.spec_path() == v.spec_path(),
            forall|files: StorageFilesView| r.spec_held_by(files) == v.spec_held_by(files),
    {
        match v.medium() {
            StorageMedium::Volatile => VectorStorageEnum::DenseVolatileHalf(v),
            StorageMedium::Memmap => VectorStorageEnum::DenseMemmapHalf(v),
            StorageMedium::AppendableMemmap => VectorStorageEnum::DenseAppendableMemmapHalf(v),
            StorageMedium::AppendableInRam => VectorStorageEnum::DenseAppendableInRamHalf(v),
        }
    }

    /// The variant of a dense storage of this precision on its medium.
    fn of_dense_byte(v: DenseBacking<u8>) -> (r: Self)
        requires
            v.wf(),
        ensures
            r.wf(),
            r.model() == v.model(),
            r.spec_medium() == v.spec_medium(),
            r.spec_populated() == v.spec_populated(),
            r.spec_path() == v.spec_path(),
            forall|files: StorageFilesView| r.spec_held_by(files) == v.spec_held_by(files),
    {
        match v.medium() {
            StorageMedium::Volatile => VectorStorageEnum::DenseVolatileByte(v),
            StorageMedium::Memmap => VectorStorageEnum::DenseMemmapByte(v),
            StorageMedium::AppendableMemmap => VectorStorageEnum::DenseAppendableMemmapByte(v),
            StorageMedium::AppendableInRam => VectorStorageEnum::DenseAppendableInRamByte(v),
        }
    }

    /// The variant of a multi-vector storage of this precision on its
    /// medium, which is not that of plain mapped files.
    fn of_multi(v: MultiDenseBacking<u32>) -> (r: Self)
        requires
            v.wf(),
            v.spec_medium() != StorageMedium::Memmap,
        ensures
            r.wf(),
            r.model() == v.model(),
            r.spec_medium() == v.spec_medium(),
            r.spec_populated() == v.spec_populated(),
            r.spec_path() == v.spec_path(),
            forall|files: StorageFilesView| r.spec_held_by(files) == v.spec_held_by(files),
    {
        match v.medium() {
            StorageMedium::Volatile => VectorStorageEnum::MultiDenseVolatile(v),
            StorageMedium::AppendableInRam => VectorStorageEnum::MultiDenseAppendableInRam(v),
            _ => VectorStorageEnum::MultiDenseAppendableMemmap(v),
        }
    }

    /// The variant of a multi-vector storage of this precision on its
    /// medium, which is not that of plain mapped files.
    fn of_multi_half(v: MultiDenseBacking<u16>) -> (r: Self)
        requires
            v.wf(),
            v.spec_medium() != StorageMedium::Memmap,
        ensures
            r.wf(),
            r.model() == v.model(),
            r.spec_medium() == v.spec_medium(),
            r.spec_populated() == v.spec_populated(),
            r.spec_path() == v.spec_path(),
            forall|files: StorageFilesView| r.spec_held_by(files) == v.spec_held_by(files),
    {
        match v.medium() {
            StorageMedium::Volatile => VectorStorageEnum::MultiDenseVolatileHalf(v),
            StorageMedium::AppendableInRam => VectorStorageEnum::MultiDenseAppendableInRamHalf(v),
            _ => VectorStorageEnum::MultiDenseAppendableMemmapHalf(v),
        }
    }

    /// The variant of a multi-vector storage of this precision on its
    /// medium, which is not that of plain mapped files.
    fn of_multi_byte(v: MultiDenseBacking<u8>) -> (r: Self)
        requires
            v.wf(),
            v.spec_medium() != StorageMedium::Memmap,
        ensures
            r.wf(),
            r.model() == v.model(),
            r.spec_medium() == v.spec_medium(),
            r.spec_populated() == v.spec_populated(),
            r.spec_path() == v.spec_path(),
            forall|files: StorageFilesView| r.spec_held_by(files) == v.spec_held_by(files),
    {
        match v.medium() {
            StorageMedium::Volatile => VectorStorageEnum::MultiDenseVolatileByte(v),
            StorageMedium::AppendableInRam => VectorStorageEnum::MultiDenseAppendableInRamByte(v),
            _ => VectorStorageEnum::MultiDenseAppendableMemmapByte(v),
        }
    }
}

impl VectorStorage for VectorStorageEnum {
    /// The storage inside is sound and lives on the medium that the variant names.
    open spec fn wf(&self) -> bool {
        match *self {
            VectorStorageEnum::DenseVolatile(v) =>
                v.wf() && v.spec_medium() == StorageMedium::Volatile,
            VectorStorageEnum::DenseVolatileByte(v) =>
                v.wf() && v.spec_medium() == StorageMedium::Volatile,
            VectorStorageEnum::DenseVolatileHalf(v) =>
                v.wf() && v.spec_medium() == StorageMedium::Volatile,
            VectorStorageEnum::DenseMemmap(v) => v.wf() && v.spec_medium() == StorageMedium::Memmap,
            VectorStorageEnum::DenseMemmapByte(v) =>
                v.wf() && v.spec_medium() == StorageMedium::Memmap,
            VectorStorageEnum::DenseMemmapHalf(v) =>
                v.wf() && v.spec_medium() == StorageMedium::Memmap,
            VectorStorageEnum::DenseAppendableMemmap(v) =>
                v.wf() && v.spec_medium() == StorageMedium::AppendableMemmap,
            VectorStorageEnum::DenseAppendableMemmapByte(v) =>
                v.wf() && v.spec_medium() == StorageMedium::AppendableMemmap,
            VectorStorageEnum::DenseAppendableMemmapHalf(v) =>
                v.wf() && v.spec_medium() == StorageMedium::AppendableMemmap,
            VectorStorageEnum::DenseAppendableInRam(v) =>
                v.wf() && v.spec_medium() == StorageMedium::AppendableInRam,
            VectorStorageEnum::DenseAppendableInRamByte(v) =>
                v.wf() && v.spec_medium() == StorageMedium::AppendableInRam,
            VectorStorageEnum::DenseAppendableInRamHalf(v) =>
                v.wf() && v.spec_medium() == StorageMedium::AppendableInRam,
            VectorStorageEnum::SparseVolatile(v) =>
                v.wf() && v.spec_medium() == StorageMedium::Volatile,
            VectorStorageEnum::SparseMmap(v) => v.wf() && v.spec_medium() == StorageMedium::Memmap,
            VectorStorageEnum::MultiDenseVolatile(v) =>
                v.wf() && v.spec_medium() == StorageMedium::Volatile,
            VectorStorageEnum::MultiDenseVolatileByte(v) =>
                v.wf() && v.spec_medium() == StorageMedium::Volatile,
            VectorStorageEnum::MultiDenseVolatileHalf(v) =>
                v.wf() && v.spec_medium() == StorageMedium::Volatile,
            VectorStorageEnum::MultiDenseAppendableMemmap(v) =>
                v.wf() && v.spec_medium() == StorageMedium::AppendableMemmap,
            VectorStorageEnum::MultiDenseAppendableMemmapByte(v) =>
                v.wf() && v.spec_medium() == StorageMedium::AppendableMemmap,
            VectorStorageEnum::MultiDenseAppendableMemmapHalf(v) =>
                v.wf() && v.spec_medium() == StorageMedium::AppendableMemmap,
            VectorStorageEnum::MultiDenseAppendableInRam(v) =>
                v.wf() && v.spec_medium() == StorageMedium::AppendableInRam,
            VectorStorageEnum::MultiDenseAppendableInRamByte(v) =>
                v.wf() && v.spec_medium() == StorageMedium::AppendableInRam,
            VectorStorageEnum::MultiDenseAppendableInRamHalf(v) =>
                v.wf() && v.spec_medium() == StorageMedium::AppendableInRam,
        }
    }

    open spec fn model(&self) -> StorageModel {
        match *self {
            VectorStorageEnum::DenseVolatile(v) => v.model(),
            VectorStorageEnum::DenseVolatileByte(v) => v.model(),
            VectorStorageEnum::DenseVolatileHalf(v) => v.model(),
            VectorStorageEnum::DenseMemmap(v) => v.model(),
            VectorStorageEnum::DenseMemmapByte(v) => v.model(),
            VectorStorageEnum::DenseMemmapHalf(v) => v.model(),
            VectorStorageEnum::DenseAppendableMemmap(v) => v.model(),
            VectorStorageEnum::DenseAppendableMemmapByte(v) => v.model(),
            VectorStorageEnum::DenseAppendableMemmapHalf(v) => v.model(),
            VectorStorageEnum::DenseAppendableInRam(v) => v.model(),
            VectorStorageEnum::DenseAppendableInRamByte(v) => v.model(),
            VectorStorageEnum::DenseAppendableInRamHalf(v) => v.model(),
            VectorStorageEnum::SparseVolatile(v) => v.model(),
            VectorStorageEnum::SparseMmap(v) => v.model(),
            VectorStorageEnum::MultiDenseVolatile(v) => v.model(),
            VectorStorageEnum::MultiDenseVolatileByte(v) => v.model(),
            VectorStorageEnum::MultiDenseVolatileHalf(v) => v.model(),
            VectorStorageEnum::MultiDenseAppendableMemmap(v) => v.model(),
            VectorStorageEnum::MultiDenseAppendableMemmapByte(v) => v.model(),
            VectorStorageEnum::MultiDenseAppendableMemmapHalf(v) => v.model(),
            VectorStorageEnum::MultiDenseAppendableInRam(v) => v.model(),
            VectorStorageEnum::MultiDenseAppendableInRamByte(v) => v.model(),
            VectorStorageEnum::MultiDenseAppendableInRamHalf(v) => v.model(),
        }
    }

    open spec fn has_room(&self, key: nat, vector: VectorView) -> bool {
        match *self {
            VectorStorageEnum::DenseVolatile(v) => v.has_room(key, vector),
            VectorStorageEnum::DenseVolatileByte(v) => v.has_room(key, vector),
            VectorStorageEnum::DenseVolatileHalf(v) => v.has_room(key, vector),
            VectorStorageEnum::DenseMemmap(v) => v.has_room(key, vector),
            VectorStorageEnum::DenseMemmapByte(v) => v.has_room(key, vector),
            VectorStorageEnum::DenseMemmapHalf(v) => v.has_room(key, vector),
            VectorStorageEnum::DenseAppendableMemmap(v) => v.has_room(key, vector),
            VectorStorageEnum::DenseAppendableMemmapByte(v) => v.has_room(key, vector),
            VectorStorageEnum::DenseAppendableMemmapHalf(v) => v.has_room(key, vector),
            VectorStorageEnum::DenseAppendableInRam(v) => v.has_room(key, vector),
            VectorStorageEnum::DenseAppendableInRamByte(v) => v.has_room(key, vector),
            VectorStorageEnum::DenseAppendableInRamHalf(v) => v.has_room(key, vector),
            VectorStorageEnum::SparseVolatile(v) => v.has_room(key, vector),
            VectorStorageEnum::SparseMmap(v) => v.has_room(key, vector),
            VectorStorageEnum::MultiDenseVolatile(v) => v.has_room(key, vector),
            VectorStorageEnum::MultiDenseVolatileByte(v) => v.has_room(key, vector),
            VectorStorageEnum::MultiDenseVolatileHalf(v) => v.has_room(key, vector),
            VectorStorageEnum::MultiDenseAppendableMemmap(v) => v.has_room(key, vector),
            VectorStorageEnum::MultiDenseAppendableMemmapByte(v) => v.has_room(key, vector),
            VectorStorageEnum::MultiDenseAppendableMemmapHalf(v) => v.has_room(key, vector),
            VectorStorageEnum::MultiDenseAppendableInRam(v) => v.has_room(key, vector),
            VectorStorageEnum::MultiDenseAppendableInRamByte(v) => v.has_room(key, vector),
            VectorStorageEnum::MultiDenseAppendableInRamHalf(v) => v.has_room(key, vector),
        }
    }

    open spec fn spec_medium(&self) -> StorageMedium {
        match *self {
            VectorStorageEnum::DenseVolatile(v) => v.spec_medium(),
            VectorStorageEnum::DenseVolatileByte(v) => v.spec_medium(),
            VectorStorageEnum::DenseVolatileHalf(v) => v.spec_medium(),
            VectorStorageEnum::DenseMemmap(v) => v.spec_medium(),
            VectorStorageEnum::DenseMemmapByte(v) => v.spec_medium(),
            VectorStorageEnum::DenseMemmapHalf(v) => v.spec_medium(),
            VectorStorageEnum::DenseAppendableMemmap(v) => v.spec_medium(),
            VectorStorageEnum::DenseAppendableMemmapByte(v) => v.spec_medium(),
            VectorStorageEnum::DenseAppendableMemmapHalf(v) => v.spec_medium(),
            VectorStorageEnum::DenseAppendableInRam(v) => v.spec_medium(),
            VectorStorageEnum::DenseAppendableInRamByte(v) => v.spec_medium(),
            VectorStorageEnum::DenseAppendableInRamHalf(v) => v.spec_medium(),
            VectorStorageEnum::SparseVolatile(v) => v.spec_medium(),
            VectorStorageEnum::SparseMmap(v) => v.spec_medium(),
            VectorStorageEnum::MultiDenseVolatile(v) => v.spec_medium(),
            VectorStorageEnum::MultiDenseVolatileByte(v) => v.spec_medium(),
            VectorStorageEnum::MultiDenseVolatileHalf(v) => v.spec_medium(),
            VectorStorageEnum::MultiDenseAppendableMemmap(v) => v.spec_medium(),
            VectorStorageEnum::MultiDenseAppendableMemmapByte(v) => v.spec_medium(),
            VectorStorageEnum::MultiDenseAppendableMemmapHalf(v) => v.spec_medium(),
            VectorStorageEnum::MultiDenseAppendableInRam(v) => v.spec_medium(),
            VectorStorageEnum::MultiDenseAppendableInRamByte(v) => v.spec_medium(),
            VectorStorageEnum::MultiDenseAppendableInRamHalf(v) => v.spec_medium(),
        }
    }

    open spec fn spec_populated(&self) -> bool {
        match *self {
            VectorStorageEnum::DenseVolatile(v) => v.spec_populated(),
            VectorStorageEnum::DenseVolatileByte(v) => v.spec_populated(),
            VectorStorageEnum::DenseVolatileHalf(v) => v.spec_populated(),
            VectorStorageEnum::DenseMemmap(v) => v.spec_populated(),
            VectorStorageEnum::DenseMemmapByte(v) => v.spec_populated(),
            VectorStorageEnum::DenseMemmapHalf(v) => v.spec_populated(),
            VectorStorageEnum::DenseAppendableMemmap(v) => v.spec_populated(),
            VectorStorageEnum::DenseAppendableMemmapByte(v) => v.spec_populated(),
            VectorStorageEnum::DenseAppendableMemmapHalf(v) => v.spec_populated(),
            VectorStorageEnum::DenseAppendableInRam(v) => v.spec_populated(),
            VectorStorageEnum::DenseAppendableInRamByte(v) => v.spec_populated(),
            VectorStorageEnum::DenseAppendableInRamHalf(v) => v.spec_populated(),
            VectorStorageEnum::SparseVolatile(v) => v.spec_populated(),
            VectorStorageEnum::SparseMmap(v) => v.spec_populated(),
            VectorStorageEnum::MultiDenseVolatile(v) => v.spec_populated(),
            VectorStorageEnum::MultiDenseVolatileByte(v) => v.spec_populated(),
            VectorStorageEnum::MultiDenseVolatileHalf(v) => v.spec_populated(),
            VectorStorageEnum::MultiDenseAppendableMemmap(v) => v.spec_populated(),
            VectorStorageEnum::MultiDenseAppendableMemmapByte(v) => v.spec_populated(),
            VectorStorageEnum::MultiDenseAppendableMemmapHalf(v) => v.spec_populated(),
            VectorStorageEnum::MultiDenseAppendableInRam(v) => v.spec_populated(),
            VectorStorageEnum::MultiDenseAppendableInRamByte(v) => v.spec_populated(),
            VectorStorageEnum::MultiDenseAppendableInRamHalf(v) => v.spec_populated(),
        }
    }

    open spec fn spec_path(&self) -> Seq<char> {
        match *self {
            VectorStorageEnum::DenseVolatile(v) => v.spec_path(),
            VectorStorageEnum::DenseVolatileByte(v) => v.spec_path(),
            VectorStorageEnum::DenseVolatileHalf(v) => v.spec_path(),
            VectorStorageEnum::DenseMemmap(v) => v.spec_path(),
            VectorStorageEnum::DenseMemmapByte(v) => v.spec_path(),
            VectorStorageEnum::DenseMemmapHalf(v) => v.spec_path(),
            VectorStorageEnum::DenseAppendableMemmap(v) => v.spec_path(),
            VectorStorageEnum::DenseAppendableMemmapByte(v) => v.spec_path(),
            VectorStorageEnum::DenseAppendableMemmapHalf(v) => v.spec_path(),
            VectorStorageEnum::DenseAppendableInRam(v) => v.spec_path(),
            VectorStorageEnum::DenseAppendableInRamByte(v) => v.spec_path(),
            VectorStorageEnum::DenseAppendableInRamHalf(v) => v.spec_path(),
            VectorStorageEnum::SparseVolatile(v) => v.spec_path(),
            VectorStorageEnum::SparseMmap(v) => v.spec_path(),
            VectorStorageEnum::MultiDenseVolatile(v) => v.spec_path(),
            VectorStorageEnum::MultiDenseVolatileByte(v) => v.spec_path(),
            VectorStorageEnum::MultiDenseVolatileHalf(v) => v.spec_path(),
            VectorStorageEnum::MultiDenseAppendableMemmap(v) => v.spec_path(),
            VectorStorageEnum::MultiDenseAppendableMemmapByte(v) => v.spec_path(),
            VectorStorageEnum::MultiDenseAppendableMemmapHalf(v) => v.spec_path(),
            VectorStorageEnum::MultiDenseAppendableInRam(v) => v.spec_path(),
            VectorStorageEnum::MultiDenseAppendableInRamByte(v) => v.spec_path(),
            VectorStorageEnum::MultiDenseAppendableInRamHalf(v) => v.spec_path(),
        }
    }

    open spec fn spec_chunk_counts(&self) -> (nat, nat) {
        match *self {
            VectorStorageEnum::DenseVolatile(v) => v.spec_chunk_counts(),
            VectorStorageEnum::DenseVolatileByte(v) => v.spec_chunk_counts(),
            VectorStorageEnum::DenseVolatileHalf(v) => v.spec_chunk_counts(),
            VectorStorageEnum::DenseMemmap(v) => v.spec_chunk_counts(),
            VectorStorageEnum::DenseMemmapByte(v) => v.spec_chunk_counts(),
            VectorStorageEnum::DenseMemmapHalf(v) => v.spec_chunk_counts(),
            VectorStorageEnum::DenseAppendableMemmap(v) => v.spec_chunk_counts(),
            VectorStorageEnum::DenseAppendableMemmapByte(v) => v.spec_chunk_counts(),
            VectorStorageEnum::DenseAppendableMemmapHalf(v) => v.spec_chunk_counts(),
            VectorStorageEnum::DenseAppendableInRam(v) => v.spec_chunk_counts(),
            VectorStorageEnum::DenseAppendableInRamByte(v) => v.spec_chunk_counts(),
            VectorStorageEnum::DenseAppendableInRamHalf(v) => v.spec_chunk_counts(),
            VectorStorageEnum::SparseVolatile(v) => v.spec_chunk_counts(),
            VectorStorageEnum::SparseMmap(v) => v.spec_chunk_counts(),
            VectorStorageEnum::MultiDenseVolatile(v) => v.spec_chunk_counts(),
            VectorStorageEnum::MultiDenseVolatileByte(v) => v.spec_chunk_counts(),
            VectorStorageEnum::MultiDenseVolatileHalf(v) => v.spec_chunk_counts(),
            VectorStorageEnum::MultiDenseAppendableMemmap(v) => v.spec_chunk_counts(),
            VectorStorageEnum::MultiDenseAppendableMemmapByte(v) => v.spec_chunk_counts(),
            VectorStorageEnum::MultiDenseAppendableMemmapHalf(v) => v.spec_chunk_counts(),
            VectorStorageEnum::MultiDenseAppendableInRam(v) => v.spec_chunk_counts(),
            VectorStorageEnum::MultiDenseAppendableInRamByte(v) => v.spec_chunk_counts(),
            VectorStorageEnum::MultiDenseAppendableInRamHalf(v) => v.spec_chunk_counts(),
        }
    }

    open spec fn spec_held_by(&self, files: StorageFilesView) -> bool {
        match *self {
            VectorStorageEnum::DenseVolatile(v) => v.spec_held_by(files),
            VectorStorageEnum::DenseVolatileByte(v) => v.spec_held_by(files),
            VectorStorageEnum::DenseVolatileHalf(v) => v.spec_held_by(files),
            VectorStorageEnum::DenseMemmap(v) => v.spec_held_by(files),
            VectorStorageEnum::DenseMemmapByte(v) => v.spec_held_by(files),
            VectorStorageEnum::DenseMemmapHalf(v) => v.spec_held_by(files),
            VectorStorageEnum::DenseAppendableMemmap(v) => v.spec_held_by(files),
            VectorStorageEnum::DenseAppendableMemmapByte(v) => v.spec_held_by(files),
            VectorStorageEnum::DenseAppendableMemmapHalf(v) => v.spec_held_by(files),
            VectorStorageEnum::DenseAppendableInRam(v) => v.spec_held_by(files),
            VectorStorageEnum::DenseAppendableInRamByte(v) => v.spec_held_by(files),
            VectorStorageEnum::DenseAppendableInRamHalf(v) => v.spec_held_by(files),
            VectorStorageEnum::SparseVolatile(v) => v.spec_held_by(files),
            VectorStorageEnum::SparseMmap(v) => v.spec_held_by(files),
            VectorStorageEnum::MultiDenseVolatile(v) => v.spec_held_by(files),
            VectorStorageEnum::MultiDenseVolatileByte(v) => v.spec_held_by(files),
            VectorStorageEnum::MultiDenseVolatileHalf(v) => v.spec_held_by(files),
            VectorStorageEnum::MultiDenseAppendableMemmap(v) => v.spec_held_by(files),
            VectorStorageEnum::MultiDenseAppendableMemmapByte(v) => v.spec_held_by(files),
            VectorStorageEnum::MultiDenseAppendableMemmapHalf(v) => v.spec_held_by(files),
            VectorStorageEnum::MultiDenseAppendableInRam(v) => v.spec_held_by(files),
            VectorStorageEnum::MultiDenseAppendableInRamByte(v) => v.spec_held_by(files),
            VectorStorageEnum::MultiDenseAppendableInRamHalf(v) => v.spec_held_by(files),
        }
    }

    proof fn lemma_meta(&self, files: StorageFilesView) {
        match *self {
            VectorStorageEnum::DenseVolatile(v) => v.lemma_meta(files),
            VectorStorageEnum::DenseVolatileByte(v) => v.lemma_meta(files),
            VectorStorageEnum::DenseVolatileHalf(v) => v.lemma_meta(files),
            VectorStorageEnum::DenseMemmap(v) => v.lemma_meta(files),
            VectorStorageEnum::DenseMemmapByte(v) => v.lemma_meta(files),
            VectorStorageEnum::DenseMemmapHalf(v) => v.lemma_meta(files),
            VectorStorageEnum::DenseAppendableMemmap(v) => v.lemma_meta(files),
            VectorStorageEnum::DenseAppendableMemmapByte(v) => v.lemma_meta(files),
            VectorStorageEnum::DenseAppendableMemmapHalf(v) => v.lemma_meta(files),
            VectorStorageEnum::DenseAppendableInRam(v) => v.lemma_meta(files),
            VectorStorageEnum::DenseAppendableInRamByte(v) => v.lemma_meta(files),
            VectorStorageEnum::DenseAppendableInRamHalf(v) => v.lemma_meta(files),
            VectorStorageEnum::SparseVolatile(v) => v.lemma_meta(files),
            VectorStorageEnum::SparseMmap(v) => v.lemma_meta(files),
            VectorStorageEnum::MultiDenseVolatile(v) => v.lemma_meta(files),
            VectorStorageEnum::MultiDenseVolatileByte(v) => v.lemma_meta(files),
            VectorStorageEnum::MultiDenseVolatileHalf(v) => v.lemma_meta(files),
            VectorStorageEnum::MultiDenseAppendableMemmap(v) => v.lemma_meta(files),
            VectorStorageEnum::MultiDenseAppendableMemmapByte(v) => v.lemma_meta(files),
            VectorStorageEnum::MultiDenseAppendableMemmapHalf(v) => v.lemma_meta(files),
            VectorStorageEnum::MultiDenseAppendableInRam(v) => v.lemma_meta(files),
            VectorStorageEnum::MultiDenseAppendableInRamByte(v) => v.lemma_meta(files),
            VectorStorageEnum::MultiDenseAppendableInRamHalf(v) => v.lemma_meta(files),
        }
    }

    proof fn lemma_held_by(&self, other: &Self, files: StorageFilesView) {
        if self.as_dense() is Some && other.as_dense() is Some {
            self.as_dense()->0.lemma_held_by(&other.as_dense()->0, files);
        } else if self.as_dense_byte() is Some && other.as_dense_byte() is Some {
            self.as_dense_byte()->0.lemma_held_by(&other.as_dense_byte()->0, files);
        } else if self.as_dense_half() is Some && other.as_dense_half() is Some {
            self.as_dense_half()->0.lemma_held_by(&other.as_dense_half()->0, files);
        } else if self.as_sparse() is Some && other.as_sparse() is Some {
            self.as_sparse()->0.lemma_held_by(&other.as_sparse()->0, files);
        } else if self.as_multi() is Some && other.as_multi() is Some {
            self.as_multi()->0.lemma_held_by(&other.as_multi()->0, files);
        } else if self.as_multi_byte() is Some && other.as_multi_byte() is Some {
            self.as_multi_byte()->0.lemma_held_by(&other.as_multi_byte()->0, files);
        } else if self.as_multi_half() is Some && other.as_multi_half() is Some {
            self.as_multi_half()->0.lemma_held_by(&other.as_multi_half()->0, files);
        } else {
            self.lemma_variant();
            other.lemma_variant();
            self.lemma_meta(files);
            other.lemma_meta(files);
        }
    }

    proof fn lemma_model_wf(&self) {
        match *self {
            VectorStorageEnum::DenseVolatile(v) => v.lemma_model_wf(),
            VectorStorageEnum::DenseVolatileByte(v) => v.lemma_model_wf(),
            VectorStorageEnum::DenseVolatileHalf(v) => v.lemma_model_wf(),
            VectorStorageEnum::DenseMemmap(v) => v.lemma_model_wf(),
            VectorStorageEnum::DenseMemmapByte(v) => v.lemma_model_wf(),
            VectorStorageEnum::DenseMemmapHalf(v) => v.lemma_model_wf(),
            VectorStorageEnum::DenseAppendableMemmap(v) => v.lemma_model_wf(),
            VectorStorageEnum::DenseAppendableMemmapByte(v) => v.lemma_model_wf(),
            VectorStorageEnum::DenseAppendableMemmapHalf(v) => v.lemma_model_wf(),
            VectorStorageEnum::DenseAppendableInRam(v) => v.lemma_model_wf(),
            VectorStorageEnum::DenseAppendableInRamByte(v) => v.lemma_model_wf(),
            VectorStorageEnum::DenseAppendableInRamHalf(v) => v.lemma_model_wf(),
            VectorStorageEnum::SparseVolatile(v) => v.lemma_model_wf(),
            VectorStorageEnum::SparseMmap(v) => v.lemma_model_wf(),
            VectorStorageEnum::MultiDenseVolatile(v) => v.lemma_model_wf(),
            VectorStorageEnum::MultiDenseVolatileByte(v) => v.lemma_model_wf(),
            VectorStorageEnum::MultiDenseVolatileHalf(v) => v.lemma_model_wf(),
            VectorStorageEnum::MultiDenseAppendableMemmap(v) => v.lemma_model_wf(),
            VectorStorageEnum::MultiDenseAppendableMemmapByte(v) => v.lemma_model_wf(),
            VectorStorageEnum::MultiDenseAppendableMemmapHalf(v) => v.lemma_model_wf(),
            VectorStorageEnum::MultiDenseAppendableInRam(v) => v.lemma_model_wf(),
            VectorStorageEnum::MultiDenseAppendableInRamByte(v) => v.lemma_model_wf(),
            VectorStorageEnum::MultiDenseAppendableInRamHalf(v) => v.lemma_model_wf(),
        }
    }

    fn distance(&self) -> (r: Distance) {
        match self {
            VectorStorageEnum::DenseVolatile(v) => v.distance(),
            VectorStorageEnum::DenseVolatileByte(v) => v.distance(),
            VectorStorageEnum::DenseVolatileHalf(v) => v.distance(),
            VectorStorageEnum::DenseMemmap(v) => v.distance(),
            VectorStorageEnum::DenseMemmapByte(v) => v.distance(),
            VectorStorageEnum::DenseMemmapHalf(v) => v.distance(),
            VectorStorageEnum::DenseAppendableMemmap(v) => v.distance(),
            VectorStorageEnum::DenseAppendableMemmapByte(v) => v.distance(),
            VectorStorageEnum::DenseAppendableMemmapHalf(v) => v.distance(),
            VectorStorageEnum::DenseAppendableInRam(v) => v.distance(),
            VectorStorageEnum::DenseAppendableInRamByte(v) => v.distance(),
            VectorStorageEnum::DenseAppendableInRamHalf(v) => v.distance(),
            VectorStorageEnum::SparseVolatile(v) => v.distance(),
            VectorStorageEnum::SparseMmap(v) => v.distance(),
            VectorStorageEnum::MultiDenseVolatile(v) => v.distance(),
            VectorStorageEnum::MultiDenseVolatileByte(v) => v.distance(),
            VectorStorageEnum::MultiDenseVolatileHalf(v) => v.distance(),
            VectorStorageEnum::MultiDenseAppendableMemmap(v) => v.distance(),
            VectorStorageEnum::MultiDenseAppendableMemmapByte(v) => v.distance(),
            VectorStorageEnum::MultiDenseAppendableMemmapHalf(v) => v.distance(),
            VectorStorageEnum::MultiDenseAppendableInRam(v) => v.distance(),
            VectorStorageEnum::MultiDenseAppendableInRamByte(v) => v.distance(),
            VectorStorageEnum::MultiDenseAppendableInRamHalf(v) => v.distance(),
        }
    }

    fn datatype(&self) -> (r: VectorStorageDatatype) {
        match self {
            VectorStorageEnum::DenseVolatile(v) => v.datatype(),
            VectorStorageEnum::DenseVolatileByte(v) => v.datatype(),
            VectorStorageEnum::DenseVolatileHalf(v) => v.datatype(),
            VectorStorageEnum::DenseMemmap(v) => v.datatype(),
            VectorStorageEnum::DenseMemmapByte(v) => v.datatype(),
            VectorStorageEnum::DenseMemmapHalf(v) => v.datatype(),
            VectorStorageEnum::DenseAppendableMemmap(v) => v.datatype(),
            VectorStorageEnum::DenseAppendableMemmapByte(v) => v.datatype(),
            VectorStorageEnum::DenseAppendableMemmapHalf(v) => v.datatype(),
            VectorStorageEnum::DenseAppendableInRam(v) => v.datatype(),
            VectorStorageEnum::DenseAppendableInRamByte(v) => v.datatype(),
            VectorStorageEnum::DenseAppendableInRamHalf(v) => v.datatype(),
            VectorStorageEnum::SparseVolatile(v) => v.datatype(),
            VectorStorageEnum::SparseMmap(v) => v.datatype(),
            VectorStorageEnum::MultiDenseVolatile(v) => v.datatype(),
            VectorStorageEnum::MultiDenseVolatileByte(v) => v.datatype(),
            VectorStorageEnum::MultiDenseVolatileHalf(v) => v.datatype(),
            VectorStorageEnum::MultiDenseAppendableMemmap(v) => v.datatype(),
            VectorStorageEnum::MultiDenseAppendableMemmapByte(v) => v.datatype(),
            VectorStorageEnum::MultiDenseAppendableMemmapHalf(v) => v.datatype(),
            VectorStorageEnum::MultiDenseAppendableInRam(v) => v.datatype(),
            VectorStorageEnum::MultiDenseAppendableInRamByte(v) => v.datatype(),
            VectorStorageEnum::MultiDenseAppendableInRamHalf(v) => v.datatype(),
        }
    }

    fn medium(&self) -> (r: StorageMedium) {
        match self {
            VectorStorageEnum::DenseVolatile(v) => v.medium(),
            VectorStorageEnum::DenseVolatileByte(v) => v.medium(),
            VectorStorageEnum::DenseVolatileHalf(v) => v.medium(),
            VectorStorageEnum::DenseMemmap(v) => v.medium(),
            VectorStorageEnum::DenseMemmapByte(v) => v.medium(),
            VectorStorageEnum::DenseMemmapHalf(v) => v.medium(),
            VectorStorageEnum::DenseAppendableMemmap(v) => v.medium(),
            VectorStorageEnum::DenseAppendableMemmapByte(v) => v.medium(),
            VectorStorageEnum::DenseAppendableMemmapHalf(v) => v.medium(),
            VectorStorageEnum::DenseAppendableInRam(v) => v.medium(),
            VectorStorageEnum::DenseAppendableInRamByte(v) => v.medium(),
            VectorStorageEnum::DenseAppendableInRamHalf(v) => v.medium(),
            VectorStorageEnum::SparseVolatile(v) => v.medium(),
            VectorStorageEnum::SparseMmap(v) => v.medium(),
            VectorStorageEnum::MultiDenseVolatile(v) => v.medium(),
            VectorStorageEnum::MultiDenseVolatileByte(v) => v.medium(),
            VectorStorageEnum::MultiDenseVolatileHalf(v) => v.medium(),
            VectorStorageEnum::MultiDenseAppendableMemmap(v) => v.medium(),
            VectorStorageEnum::MultiDenseAppendableMemmapByte(v) => v.medium(),
            VectorStorageEnum::MultiDenseAppendableMemmapHalf(v) => v.medium(),
            VectorStorageEnum::MultiDenseAppendableInRam(v) => v.medium(),
            VectorStorageEnum::MultiDenseAppendableInRamByte(v) => v.medium(),
            VectorStorageEnum::MultiDenseAppendableInRamHalf(v) => v.medium(),
        }
    }

    /// Whether the vectors live in mapped files that were not made resident.
    fn is_on_disk(&self) -> (r: bool) {
        match self {
            VectorStorageEnum::DenseVolatile(v) => v.is_on_disk(),
            VectorStorageEnum::DenseVolatileByte(v) => v.is_on_disk(),
            VectorStorageEnum::DenseVolatileHalf(v) => v.is_on_disk(),
            VectorStorageEnum::DenseMemmap(v) => v.is_on_disk(),
            VectorStorageEnum::DenseMemmapByte(v) => v.is_on_disk(),
            VectorStorageEnum::DenseMemmapHalf(v) => v.is_on_disk(),
            VectorStorageEnum::DenseAppendableMemmap(v) => v.is_on_disk(),
            VectorStorageEnum::DenseAppendableMemmapByte(v) => v.is_on_disk(),
            VectorStorageEnum::DenseAppendableMemmapHalf(v) => v.is_on_disk(),
            VectorStorageEnum::DenseAppendableInRam(v) => v.is_on_disk(),
            VectorStorageEnum::DenseAppendableInRamByte(v) => v.is_on_disk(),
            VectorStorageEnum::DenseAppendableInRamHalf(v) => v.is_on_disk(),
            VectorStorageEnum::SparseVolatile(v) => v.is_on_disk(),
            VectorStorageEnum::SparseMmap(v) => v.is_on_disk(),
            VectorStorageEnum::MultiDenseVolatile(v) => v.is_on_disk(),
            VectorStorageEnum::MultiDenseVolatileByte(v) => v.is_on_disk(),
            VectorStorageEnum::MultiDenseVolatileHalf(v) => v.is_on_disk(),
            VectorStorageEnum::MultiDenseAppendableMemmap(v) => v.is_on_disk(),
            VectorStorageEnum::MultiDenseAppendableMemmapByte(v) => v.is_on_disk(),
            VectorStorageEnum::MultiDenseAppendableMemmapHalf(v) => v.is_on_disk(),
            VectorStorageEnum::MultiDenseAppendableInRam(v) => v.is_on_disk(),
            VectorStorageEnum::MultiDenseAppendableInRamByte(v) => v.is_on_disk(),
            VectorStorageEnum::MultiDenseAppendableInRamHalf(v) => v.is_on_disk(),
        }
    }

    fn total_vector_count(&self) -> (r: usize) {
        match self {
            VectorStorageEnum::DenseVolatile(v) => v.total_vector_count(),
            VectorStorageEnum::DenseVolatileByte(v) => v.total_vector_count(),
            VectorStorageEnum::DenseVolatileHalf(v) => v.total_vector_count(),
            VectorStorageEnum::DenseMemmap(v) => v.total_vector_count(),
            VectorStorageEnum::DenseMemmapByte(v) => v.total_vector_count(),
            VectorStorageEnum::DenseMemmapHalf(v) => v.total_vector_count(),
            VectorStorageEnum::DenseAppendableMemmap(v) => v.total_vector_count(),
            VectorStorageEnum::DenseAppendableMemmapByte(v) => v.total_vector_count(),
            VectorStorageEnum::DenseAppendableMemmapHalf(v) => v.total_vector_count(),
            VectorStorageEnum::DenseAppendableInRam(v) => v.total_vector_count(),
            VectorStorageEnum::DenseAppendableInRamByte(v) => v.total_vector_count(),
            VectorStorageEnum::DenseAppendableInRamHalf(v) => v.total_vector_count(),
            VectorStorageEnum::SparseVolatile(v) => v.total_vector_count(),
            VectorStorageEnum::SparseMmap(v) => v.total_vector_count(),
            VectorStorageEnum::MultiDenseVolatile(v) => v.total_vector_count(),
            VectorStorageEnum::MultiDenseVolatileByte(v) => v.total_vector_count(),
            VectorStorageEnum::MultiDenseVolatileHalf(v) => v.total_vector_count(),
            VectorStorageEnum::MultiDenseAppendableMemmap(v) => v.total_vector_count(),
            VectorStorageEnum::MultiDenseAppendableMemmapByte(v) => v.total_vector_count(),
            VectorStorageEnum::MultiDenseAppendableMemmapHalf(v) => v.total_vector_count(),
            VectorStorageEnum::MultiDenseAppendableInRam(v) => v.total_vector_count(),
            VectorStorageEnum::MultiDenseAppendableInRamByte(v) => v.total_vector_count(),
            VectorStorageEnum::MultiDenseAppendableInRamHalf(v) => v.total_vector_count(),
        }
    }

    fn get_vector(&self, key: PointOffsetType) -> (r: VectorInternal) {
        match self {
            VectorStorageEnum::DenseVolatile(v) => v.get_vector(key),
            VectorStorageEnum::DenseVolatileByte(v) => v.get_vector(key),
            VectorStorageEnum::DenseVolatileHalf(v) => v.get_vector(key),
            VectorStorageEnum::DenseMemmap(v) => v.get_vector(key),
            VectorStorageEnum::DenseMemmapByte(v) => v.get_vector(key),
            VectorStorageEnum::DenseMemmapHalf(v) => v.get_vector(key),
            VectorStorageEnum::DenseAppendableMemmap(v) => v.get_vector(key),
            VectorStorageEnum::DenseAppendableMemmapByte(v) => v.get_vector(key),
            VectorStorageEnum::DenseAppendableMemmapHalf(v) => v.get_vector(key),
            VectorStorageEnum::DenseAppendableInRam(v) => v.get_vector(key),
            VectorStorageEnum::DenseAppendableInRamByte(v) => v.get_vector(key),
            VectorStorageEnum::DenseAppendableInRamHalf(v) => v.get_vector(key),
            VectorStorageEnum::SparseVolatile(v) => v.get_vector(key),
            VectorStorageEnum::SparseMmap(v) => v.get_vector(key),
            VectorStorageEnum::MultiDenseVolatile(v) => v.get_vector(key),
            VectorStorageEnum::MultiDenseVolatileByte(v) => v.get_vector(key),
            VectorStorageEnum::MultiDenseVolatileHalf(v) => v.get_vector(key),
            VectorStorageEnum::MultiDenseAppendableMemmap(v) => v.get_vector(key),
            VectorStorageEnum::MultiDenseAppendableMemmapByte(v) => v.get_vector(key),
            VectorStorageEnum::MultiDenseAppendableMemmapHalf(v) => v.get_vector(key),
            VectorStorageEnum::MultiDenseAppendableInRam(v) => v.get_vector(key),
            VectorStorageEnum::MultiDenseAppendableInRamByte(v) => v.get_vector(key),
            VectorStorageEnum::MultiDenseAppendableInRamHalf(v) => v.get_vector(key),
        }
    }

    fn get_vector_sequential(&self, key: PointOffsetType) -> (r: VectorInternal) {
        match self {
            VectorStorageEnum::DenseVolatile(v) => v.get_vector_sequential(key),
            VectorStorageEnum::DenseVolatileByte(v) => v.get_vector_sequential(key),
            VectorStorageEnum::DenseVolatileHalf(v) => v.get_vector_sequential(key),
            VectorStorageEnum::DenseMemmap(v) => v.get_vector_sequential(key),
            VectorStorageEnum::DenseMemmapByte(v) => v.get_vector_sequential(key),
            VectorStorageEnum::DenseMemmapHalf(v) => v.get_vector_sequential(key),
            VectorStorageEnum::DenseAppendableMemmap(v) => v.get_vector_sequential(key),
            VectorStorageEnum::DenseAppendableMemmapByte(v) => v.get_vector_sequential(key),
            VectorStorageEnum::DenseAppendableMemmapHalf(v) => v.get_vector_sequential(key),
            VectorStorageEnum::DenseAppendableInRam(v) => v.get_vector_sequential(key),
            VectorStorageEnum::DenseAppendableInRamByte(v) => v.get_vector_sequential(key),
            VectorStorageEnum::DenseAppendableInRamHalf(v) => v.get_vector_sequential(key),
            VectorStorageEnum::SparseVolatile(v) => v.get_vector_sequential(key),
            VectorStorageEnum::SparseMmap(v) => v.get_vector_sequential(key),
            VectorStorageEnum::MultiDenseVolatile(v) => v.get_vector_sequential(key),
            VectorStorageEnum::MultiDenseVolatileByte(v) => v.get_vector_sequential(key),
            VectorStorageEnum::MultiDenseVolatileHalf(v) => v.get_vector_sequential(key),
            VectorStorageEnum::MultiDenseAppendableMemmap(v) => v.get_vector_sequential(key),
            VectorStorageEnum::MultiDenseAppendableMemmapByte(v) => v.get_vector_sequential(key),
            VectorStorageEnum::MultiDenseAppendableMemmapHalf(v) => v.get_vector_sequential(key),
            VectorStorageEnum::MultiDenseAppendableInRam(v) => v.get_vector_sequential(key),
            VectorStorageEnum::MultiDenseAppendableInRamByte(v) => v.get_vector_sequential(key),
            VectorStorageEnum::MultiDenseAppendableInRamHalf(v) => v.get_vector_sequential(key),
        }
    }

    fn get_vector_opt(&self, key: PointOffsetType) -> (r: Option<VectorInternal>) {
        match self {
            VectorStorageEnum::DenseVolatile(v) => v.get_vector_opt(key),
            VectorStorageEnum::DenseVolatileByte(v) => v.get_vector_opt(key),
            VectorStorageEnum::DenseVolatileHalf(v) => v.get_vector_opt(key),
            VectorStorageEnum::DenseMemmap(v) => v.get_vector_opt(key),
            VectorStorageEnum::DenseMemmapByte(v) => v.get_vector_opt(key),
            VectorStorageEnum::DenseMemmapHalf(v) => v.get_vector_opt(key),
            VectorStorageEnum::DenseAppendableMemmap(v) => v.get_vector_opt(key),
            VectorStorageEnum::DenseAppendableMemmapByte(v) => v.get_vector_opt(key),
            VectorStorageEnum::DenseAppendableMemmapHalf(v) => v.get_vector_opt(key),
            VectorStorageEnum::DenseAppendableInRam(v) => v.get_vector_opt(key),
            VectorStorageEnum::DenseAppendableInRamByte(v) => v.get_vector_opt(key),
            VectorStorageEnum::DenseAppendableInRamHalf(v) => v.get_vector_opt(key),
            VectorStorageEnum::SparseVolatile(v) => v.get_vector_opt(key),
            VectorStorageEnum::SparseMmap(v) => v.get_vector_opt(key),
            VectorStorageEnum::MultiDenseVolatile(v) => v.get_vector_opt(key),
            VectorStorageEnum::MultiDenseVolatileByte(v) => v.get_vector_opt(key),
            VectorStorageEnum::MultiDenseVolatileHalf(v) => v.get_vector_opt(key),
            VectorStorageEnum::MultiDenseAppendableMemmap(v) => v.get_vector_opt(key),
            VectorStorageEnum::MultiDenseAppendableMemmapByte(v) => v.get_vector_opt(key),
            VectorStorageEnum::MultiDenseAppendableMemmapHalf(v) => v.get_vector_opt(key),
            VectorStorageEnum::MultiDenseAppendableInRam(v) => v.get_vector_opt(key),
            VectorStorageEnum::MultiDenseAppendableInRamByte(v) => v.get_vector_opt(key),
            VectorStorageEnum::MultiDenseAppendableInRamHalf(v) => v.get_vector_opt(key),
        }
    }

    fn insert_vector(
        &mut self,
        key: PointOffsetType,
        vector: &VectorInternal,
        hw_counter: &mut HardwareCounterCell,
    ) -> (r: OperationResult<()>)
        ensures
            final(self).spec_layout() == old(self).spec_layout(),
            final(self).spec_stored() == if r is Ok {
                old(self).spec_stored_after(vector@)
            } else {
                old(self).spec_stored()
            },
    {
        match self {
            VectorStorageEnum::DenseVolatile(v) => v.insert_vector(key, vector, hw_counter),
            VectorStorageEnum::DenseVolatileByte(v) => v.insert_vector(key, vector, hw_counter),
            VectorStorageEnum::DenseVolatileHalf(v) => v.insert_vector(key, vector, hw_counter),
            VectorStorageEnum::DenseMemmap(v) => v.insert_vector(key, vector, hw_counter),
            VectorStorageEnum::DenseMemmapByte(v) => v.insert_vector(key, vector, hw_counter),
            VectorStorageEnum::DenseMemmapHalf(v) => v.insert_vector(key, vector, hw_counter),
            VectorStorageEnum::DenseAppendableMemmap(v) => v.insert_vector(key, vector, hw_counter),
            VectorStorageEnum::DenseAppendableMemmapByte(v) =>
                v.insert_vector(key, vector, hw_counter),
            VectorStorageEnum::DenseAppendableMemmapHalf(v) =>
                v.insert_vector(key, vector, hw_counter),
            VectorStorageEnum::DenseAppendableInRam(v) => v.insert_vector(key, vector, hw_counter),
            VectorStorageEnum::DenseAppendableInRamByte(v) =>
                v.insert_vector(key, vector, hw_counter),
            VectorStorageEnum::DenseAppendableInRamHalf(v) =>
                v.insert_vector(key, vector, hw_counter),
            VectorStorageEnum::SparseVolatile(v) => v.insert_vector(key, vector, hw_counter),
            VectorStorageEnum::SparseMmap(v) => v.insert_vector(key, vector, hw_counter),
            VectorStorageEnum::MultiDenseVolatile(v) => v.insert_vector(key, vector, hw_counter),
            VectorStorageEnum::MultiDenseVolatileByte(v) =>
                v.insert_vector(key, vector, hw_counter),
            VectorStorageEnum::MultiDenseVolatileHalf(v) =>
                v.insert_vector(key, vector, hw_counter),
            VectorStorageEnum::MultiDenseAppendableMemmap(v) =>
                v.insert_vector(key, vector, hw_counter),
            VectorStorageEnum::MultiDenseAppendableMemmapByte(v) =>
                v.insert_vector(key, vector, hw_counter),
            VectorStorageEnum::MultiDenseAppendableMemmapHalf(v) =>
                v.insert_vector(key, vector, hw_counter),
            VectorStorageEnum::MultiDenseAppendableInRam(v) =>
                v.insert_vector(key, vector, hw_counter),
            VectorStorageEnum::MultiDenseAppendableInRamByte(v) =>
                v.insert_vector(key, vector, hw_counter),
            VectorStorageEnum::MultiDenseAppendableInRamHalf(v) =>
                v.insert_vector(key, vector, hw_counter),
        }
    }

    fn append_vector(&mut self, vector: &VectorInternal, deleted: bool) -> (r: OperationResult<
        PointOffsetType,
    >)
        ensures
            final(self).spec_layout() == old(self).spec_layout(),
            final(self).spec_stored() == if r is Ok {
                old(self).spec_stored_after(vector@)
            } else {
                old(self).spec_stored()
            },
    {
        match self {
            VectorStorageEnum::DenseVolatile(v) => v.append_vector(vector, deleted),
            VectorStorageEnum::DenseVolatileByte(v) => v.append_vector(vector, deleted),
            VectorStorageEnum::DenseVolatileHalf(v) => v.append_vector(vector, deleted),
            VectorStorageEnum::DenseMemmap(v) => v.append_vector(vector, deleted),
            VectorStorageEnum::DenseMemmapByte(v) => v.append_vector(vector, deleted),
            VectorStorageEnum::DenseMemmapHalf(v) => v.append_vector(vector, deleted),
            VectorStorageEnum::DenseAppendableMemmap(v) => v.append_vector(vector, deleted),
            VectorStorageEnum::DenseAppendableMemmapByte(v) => v.append_vector(vector, deleted),
            VectorStorageEnum::DenseAppendableMemmapHalf(v) => v.append_vector(vector, deleted),
            VectorStorageEnum::DenseAppendableInRam(v) => v.append_vector(vector, deleted),
            VectorStorageEnum::DenseAppendableInRamByte(v) => v.append_vector(vector, deleted),
            VectorStorageEnum::DenseAppendableInRamHalf(v) => v.append_vector(vector, deleted),
            VectorStorageEnum::SparseVolatile(v) => v.append_vector(vector, deleted),
            VectorStorageEnum::SparseMmap(v) => v.append_vector(vector, deleted),
            VectorStorageEnum::MultiDenseVolatile(v) => v.append_vector(vector, deleted),
            VectorStorageEnum::MultiDenseVolatileByte(v) => v.append_vector(vector, deleted),
            VectorStorageEnum::MultiDenseVolatileHalf(v) => v.append_vector(vector, deleted),
            VectorStorageEnum::MultiDenseAppendableMemmap(v) => v.append_vector(vector, deleted),
            VectorStorageEnum::MultiDenseAppendableMemmapByte(v) =>
                v.append_vector(vector, deleted),
            VectorStorageEnum::MultiDenseAppendableMemmapHalf(v) =>
                v.append_vector(vector, deleted),
            VectorStorageEnum::MultiDenseAppendableInRam(v) => v.append_vector(vector, deleted),
            VectorStorageEnum::MultiDenseAppendableInRamByte(v) => v.append_vector(vector, deleted),
            VectorStorageEnum::MultiDenseAppendableInRamHalf(v) => v.append_vector(vector, deleted),
        }
    }

    fn update_from(
        &mut self,
        other_vectors: &Vec<(VectorInternal, bool)>,
        stopped: &AtomicBool,
    ) -> (r: OperationResult<Range<PointOffsetType>>) {
        match self {
            VectorStorageEnum::DenseVolatile(v) => v.update_from(other_vectors, stopped),
            VectorStorageEnum::DenseVolatileByte(v) => v.update_from(other_vectors, stopped),
            VectorStorageEnum::DenseVolatileHalf(v) => v.update_from(other_vectors, stopped),
            VectorStorageEnum::DenseMemmap(v) => v.update_from(other_vectors, stopped),
            VectorStorageEnum::DenseMemmapByte(v) => v.update_from(other_vectors, stopped),
            VectorStorageEnum::DenseMemmapHalf(v) => v.update_from(other_vectors, stopped),
            VectorStorageEnum::DenseAppendableMemmap(v) => v.update_from(other_vectors, stopped),
            VectorStorageEnum::DenseAppendableMemmapByte(v) =>
                v.update_from(other_vectors, stopped),
            VectorStorageEnum::DenseAppendableMemmapHalf(v) =>
                v.update_from(other_vectors, stopped),
            VectorStorageEnum::DenseAppendableInRam(v) => v.update_from(other_vectors, stopped),
            VectorStorageEnum::DenseAppendableInRamByte(v) => v.update_from(other_vectors, stopped),
            VectorStorageEnum::DenseAppendableInRamHalf(v) => v.update_from(other_vectors, stopped),
            VectorStorageEnum::SparseVolatile(v) => v.update_from(other_vectors, stopped),
            VectorStorageEnum::SparseMmap(v) => v.update_from(other_vectors, stopped),
            VectorStorageEnum::MultiDenseVolatile(v) => v.update_from(other_vectors, stopped),
            VectorStorageEnum::MultiDenseVolatileByte(v) => v.update_from(other_vectors, stopped),
            VectorStorageEnum::MultiDenseVolatileHalf(v) => v.update_from(other_vectors, stopped),
            VectorStorageEnum::MultiDenseAppendableMemmap(v) =>
                v.update_from(other_vectors, stopped),
            VectorStorageEnum::MultiDenseAppendableMemmapByte(v) =>
                v.update_from(other_vectors, stopped),
            VectorStorageEnum::MultiDenseAppendableMemmapHalf(v) =>
                v.update_from(other_vectors, stopped),
            VectorStorageEnum::MultiDenseAppendableInRam(v) =>
                v.update_from(other_vectors, stopped),
            VectorStorageEnum::MultiDenseAppendableInRamByte(v) =>
                v.update_from(other_vectors, stopped),
            VectorStorageEnum::MultiDenseAppendableInRamHalf(v) =>
                v.update_from(other_vectors, stopped),
        }
    }

    fn flusher(&self) -> (r: Flusher) {
        match self {
            VectorStorageEnum::DenseVolatile(v) => v.flusher(),
            VectorStorageEnum::DenseVolatileByte(v) => v.flusher(),
            VectorStorageEnum::DenseVolatileHalf(v) => v.flusher(),
            VectorStorageEnum::DenseMemmap(v) => v.flusher(),
            VectorStorageEnum::DenseMemmapByte(v) => v.flusher(),
            VectorStorageEnum::DenseMemmapHalf(v) => v.flusher(),
            VectorStorageEnum::DenseAppendableMemmap(v) => v.flusher(),
            VectorStorageEnum::DenseAppendableMemmapByte(v) => v.flusher(),
            VectorStorageEnum::DenseAppendableMemmapHalf(v) => v.flusher(),
            VectorStorageEnum::DenseAppendableInRam(v) => v.flusher(),
            VectorStorageEnum::DenseAppendableInRamByte(v) => v.flusher(),
            VectorStorageEnum::DenseAppendableInRamHalf(v) => v.flusher(),
            VectorStorageEnum::SparseVolatile(v) => v.flusher(),
            VectorStorageEnum::SparseMmap(v) => v.flusher(),
            VectorStorageEnum::MultiDenseVolatile(v) => v.flusher(),
            VectorStorageEnum::MultiDenseVolatileByte(v) => v.flusher(),
            VectorStorageEnum::MultiDenseVolatileHalf(v) => v.flusher(),
            VectorStorageEnum::MultiDenseAppendableMemmap(v) => v.flusher(),
            VectorStorageEnum::MultiDenseAppendableMemmapByte(v) => v.flusher(),
            VectorStorageEnum::MultiDenseAppendableMemmapHalf(v) => v.flusher(),
            VectorStorageEnum::MultiDenseAppendableInRam(v) => v.flusher(),
            VectorStorageEnum::MultiDenseAppendableInRamByte(v) => v.flusher(),
            VectorStorageEnum::MultiDenseAppendableInRamHalf(v) => v.flusher(),
        }
    }

    fn files(&self) -> (r: Vec<String>) {
        match self {
            VectorStorageEnum::DenseVolatile(v) => v.files(),
            VectorStorageEnum::DenseVolatileByte(v) => v.files(),
            VectorStorageEnum::DenseVolatileHalf(v) => v.files(),
            VectorStorageEnum::DenseMemmap(v) => v.files(),
            VectorStorageEnum::DenseMemmapByte(v) => v.files(),
            VectorStorageEnum::DenseMemmapHalf(v) => v.files(),
            VectorStorageEnum::DenseAppendableMemmap(v) => v.files(),
            VectorStorageEnum::DenseAppendableMemmapByte(v) => v.files(),
            VectorStorageEnum::DenseAppendableMemmapHalf(v) => v.files(),
            VectorStorageEnum::DenseAppendableInRam(v) => v.files(),
            VectorStorageEnum::DenseAppendableInRamByte(v) => v.files(),
            VectorStorageEnum::DenseAppendableInRamHalf(v) => v.files(),
            VectorStorageEnum::SparseVolatile(v) => v.files(),
            VectorStorageEnum::SparseMmap(v) => v.files(),
            VectorStorageEnum::MultiDenseVolatile(v) => v.files(),
            VectorStorageEnum::MultiDenseVolatileByte(v) => v.files(),
            VectorStorageEnum::MultiDenseVolatileHalf(v) => v.files(),
            VectorStorageEnum::MultiDenseAppendableMemmap(v) => v.files(),
            VectorStorageEnum::MultiDenseAppendableMemmapByte(v) => v.files(),
            VectorStorageEnum::MultiDenseAppendableMemmapHalf(v) => v.files(),
            VectorStorageEnum::MultiDenseAppendableInRam(v) => v.files(),
            VectorStorageEnum::MultiDenseAppendableInRamByte(v) => v.files(),
            VectorStorageEnum::MultiDenseAppendableInRamHalf(v) => v.files(),
        }
    }

    fn immutable_files(&self) -> (r: Vec<String>) {
        match self {
            VectorStorageEnum::DenseVolatile(v) => v.immutable_files(),
            VectorStorageEnum::DenseVolatileByte(v) => v.immutable_files(),
            VectorStorageEnum::DenseVolatileHalf(v) => v.immutable_files(),
            VectorStorageEnum::DenseMemmap(v) => v.immutable_files(),
            VectorStorageEnum::DenseMemmapByte(v) => v.immutable_files(),
            VectorStorageEnum::DenseMemmapHalf(v) => v.immutable_files(),
            VectorStorageEnum::DenseAppendableMemmap(v) => v.immutable_files(),
            VectorStorageEnum::DenseAppendableMemmapByte(v) => v.immutable_files(),
            VectorStorageEnum::DenseAppendableMemmapHalf(v) => v.immutable_files(),
            VectorStorageEnum::DenseAppendableInRam(v) => v.immutable_files(),
            VectorStorageEnum::DenseAppendableInRamByte(v) => v.immutable_files(),
            VectorStorageEnum::DenseAppendableInRamHalf(v) => v.immutable_files(),
            VectorStorageEnum::SparseVolatile(v) => v.immutable_files(),
            VectorStorageEnum::SparseMmap(v) => v.immutable_files(),
            VectorStorageEnum::MultiDenseVolatile(v) => v.immutable_files(),
            VectorStorageEnum::MultiDenseVolatileByte(v) => v.immutable_files(),
            VectorStorageEnum::MultiDenseVolatileHalf(v) => v.immutable_files(),
            VectorStorageEnum::MultiDenseAppendableMemmap(v) => v.immutable_files(),
            VectorStorageEnum::MultiDenseAppendableMemmapByte(v) => v.immutable_files(),
            VectorStorageEnum::MultiDenseAppendableMemmapHalf(v) => v.immutable_files(),
            VectorStorageEnum::MultiDenseAppendableInRam(v) => v.immutable_files(),
            VectorStorageEnum::MultiDenseAppendableInRamByte(v) => v.immutable_files(),
            VectorStorageEnum::MultiDenseAppendableInRamHalf(v) => v.immutable_files(),
        }
    }

    fn versioned_files(&self) -> (r: Vec<(String, SeqNumberType)>) {
        match self {
            VectorStorageEnum::DenseVolatile(v) => v.versioned_files(),
            VectorStorageEnum::DenseVolatileByte(v) => v.versioned_files(),
            VectorStorageEnum::DenseVolatileHalf(v) => v.versioned_files(),
            VectorStorageEnum::DenseMemmap(v) => v.versioned_files(),
            VectorStorageEnum::DenseMemmapByte(v) => v.versioned_files(),
            VectorStorageEnum::DenseMemmapHalf(v) => v.versioned_files(),
            VectorStorageEnum::DenseAppendableMemmap(v) => v.versioned_files(),
            VectorStorageEnum::DenseAppendableMemmapByte(v) => v.versioned_files(),
            VectorStorageEnum::DenseAppendableMemmapHalf(v) => v.versioned_files(),
            VectorStorageEnum::DenseAppendableInRam(v) => v.versioned_files(),
            VectorStorageEnum::DenseAppendableInRamByte(v) => v.versioned_files(),
            VectorStorageEnum::DenseAppendableInRamHalf(v) => v.versioned_files(),
            VectorStorageEnum::SparseVolatile(v) => v.versioned_files(),
            VectorStorageEnum::SparseMmap(v) => v.versioned_files(),
            VectorStorageEnum::MultiDenseVolatile(v) => v.versioned_files(),
            VectorStorageEnum::MultiDenseVolatileByte(v) => v.versioned_files(),
            VectorStorageEnum::MultiDenseVolatileHalf(v) => v.versioned_files(),
            VectorStorageEnum::MultiDenseAppendableMemmap(v) => v.versioned_files(),
            VectorStorageEnum::MultiDenseAppendableMemmapByte(v) => v.versioned_files(),
            VectorStorageEnum::MultiDenseAppendableMemmapHalf(v) => v.versioned_files(),
            VectorStorageEnum::MultiDenseAppendableInRam(v) => v.versioned_files(),
            VectorStorageEnum::MultiDenseAppendableInRamByte(v) => v.versioned_files(),
            VectorStorageEnum::MultiDenseAppendableInRamHalf(v) => v.versioned_files(),
        }
    }

    fn delete_vector(&mut self, key: PointOffsetType) -> (r: OperationResult<bool>) {
        match self {
            VectorStorageEnum::DenseVolatile(v) => v.delete_vector(key),
            VectorStorageEnum::DenseVolatileByte(v) => v.delete_vector(key),
            VectorStorageEnum::DenseVolatileHalf(v) => v.delete_vector(key),
            VectorStorageEnum::DenseMemmap(v) => v.delete_vector(key),
            VectorStorageEnum::DenseMemmapByte(v) => v.delete_vector(key),
            VectorStorageEnum::DenseMemmapHalf(v) => v.delete_vector(key),
            VectorStorageEnum::DenseAppendableMemmap(v) => v.delete_vector(key),
            VectorStorageEnum::DenseAppendableMemmapByte(v) => v.delete_vector(key),
            VectorStorageEnum::DenseAppendableMemmapHalf(v) => v.delete_vector(key),
            VectorStorageEnum::DenseAppendableInRam(v) => v.delete_vector(key),
            VectorStorageEnum::DenseAppendableInRamByte(v) => v.delete_vector(key),
            VectorStorageEnum::DenseAppendableInRamHalf(v) => v.delete_vector(key),
            VectorStorageEnum::SparseVolatile(v) => v.delete_vector(key),
            VectorStorageEnum::SparseMmap(v) => v.delete_vector(key),
            VectorStorageEnum::MultiDenseVolatile(v) => v.delete_vector(key),
            VectorStorageEnum::MultiDenseVolatileByte(v) => v.delete_vector(key),
            VectorStorageEnum::MultiDenseVolatileHalf(v) => v.delete_vector(key),
            VectorStorageEnum::MultiDenseAppendableMemmap(v) => v.delete_vector(key),
            VectorStorageEnum::MultiDenseAppendableMemmapByte(v) => v.delete_vector(key),
            VectorStorageEnum::MultiDenseAppendableMemmapHalf(v) => v.delete_vector(key),
            VectorStorageEnum::MultiDenseAppendableInRam(v) => v.delete_vector(key),
            VectorStorageEnum::MultiDenseAppendableInRamByte(v) => v.delete_vector(key),
            VectorStorageEnum::MultiDenseAppendableInRamHalf(v) => v.delete_vector(key),
        }
    }

    fn is_deleted_vector(&self, key: PointOffsetType) -> (r: bool) {
        match self {
            VectorStorageEnum::DenseVolatile(v) => v.is_deleted_vector(key),
            VectorStorageEnum::DenseVolatileByte(v) => v.is_deleted_vector(key),
            VectorStorageEnum::DenseVolatileHalf(v) => v.is_deleted_vector(key),
            VectorStorageEnum::DenseMemmap(v) => v.is_deleted_vector(key),
            VectorStorageEnum::DenseMemmapByte(v) => v.is_deleted_vector(key),
            VectorStorageEnum::DenseMemmapHalf(v) => v.is_deleted_vector(key),
            VectorStorageEnum::DenseAppendableMemmap(v) => v.is_deleted_vector(key),
            VectorStorageEnum::DenseAppendableMemmapByte(v) => v.is_deleted_vector(key),
            VectorStorageEnum::DenseAppendableMemmapHalf(v) => v.is_deleted_vector(key),
            VectorStorageEnum::DenseAppendableInRam(v) => v.is_deleted_vector(key),
            VectorStorageEnum::DenseAppendableInRamByte(v) => v.is_deleted_vector(key),
            VectorStorageEnum::DenseAppendableInRamHalf(v) => v.is_deleted_vector(key),
            VectorStorageEnum::SparseVolatile(v) => v.is_deleted_vector(key),
            VectorStorageEnum::SparseMmap(v) => v.is_deleted_vector(key),
            VectorStorageEnum::MultiDenseVolatile(v) => v.is_deleted_vector(key),
            VectorStorageEnum::MultiDenseVolatileByte(v) => v.is_deleted_vector(key),
            VectorStorageEnum::MultiDenseVolatileHalf(v) => v.is_deleted_vector(key),
            VectorStorageEnum::MultiDenseAppendableMemmap(v) => v.is_deleted_vector(key),
            VectorStorageEnum::MultiDenseAppendableMemmapByte(v) => v.is_deleted_vector(key),
            VectorStorageEnum::MultiDenseAppendableMemmapHalf(v) => v.is_deleted_vector(key),
            VectorStorageEnum::MultiDenseAppendableInRam(v) => v.is_deleted_vector(key),
            VectorStorageEnum::MultiDenseAppendableInRamByte(v) => v.is_deleted_vector(key),
            VectorStorageEnum::MultiDenseAppendableInRamHalf(v) => v.is_deleted_vector(key),
        }
    }

    fn deleted_vector_count(&self) -> (r: usize) {
        match self {
            VectorStorageEnum::DenseVolatile(v) => v.deleted_vector_count(),
            VectorStorageEnum::DenseVolatileByte(v) => v.deleted_vector_count(),
            VectorStorageEnum::DenseVolatileHalf(v) => v.deleted_vector_count(),
            VectorStorageEnum::DenseMemmap(v) => v.deleted_vector_count(),
            VectorStorageEnum::DenseMemmapByte(v) => v.deleted_vector_count(),
            VectorStorageEnum::DenseMemmapHalf(v) => v.deleted_vector_count(),
            VectorStorageEnum::DenseAppendableMemmap(v) => v.deleted_vector_count(),
            VectorStorageEnum::DenseAppendableMemmapByte(v) => v.deleted_vector_count(),
            VectorStorageEnum::DenseAppendableMemmapHalf(v) => v.deleted_vector_count(),
            VectorStorageEnum::DenseAppendableInRam(v) => v.deleted_vector_count(),
            VectorStorageEnum::DenseAppendableInRamByte(v) => v.deleted_vector_count(),
            VectorStorageEnum::DenseAppendableInRamHalf(v) => v.deleted_vector_count(),
            VectorStorageEnum::SparseVolatile(v) => v.deleted_vector_count(),
            VectorStorageEnum::SparseMmap(v) => v.deleted_vector_count(),
            VectorStorageEnum::MultiDenseVolatile(v) => v.deleted_vector_count(),
            VectorStorageEnum::MultiDenseVolatileByte(v) => v.deleted_vector_count(),
            VectorStorageEnum::MultiDenseVolatileHalf(v) => v.deleted_vector_count(),
            VectorStorageEnum::MultiDenseAppendableMemmap(v) => v.deleted_vector_count(),
            VectorStorageEnum::MultiDenseAppendableMemmapByte(v) => v.deleted_vector_count(),
            VectorStorageEnum::MultiDenseAppendableMemmapHalf(v) => v.deleted_vector_count(),
            VectorStorageEnum::MultiDenseAppendableInRam(v) => v.deleted_vector_count(),
            VectorStorageEnum::MultiDenseAppendableInRamByte(v) => v.deleted_vector_count(),
            VectorStorageEnum::MultiDenseAppendableInRamHalf(v) => v.deleted_vector_count(),
        }
    }

    fn deleted_vector_bitslice(&self) -> (r: &DeletionBitmap) {
        match self {
            VectorStorageEnum::DenseVolatile(v) => v.deleted_vector_bitslice(),
            VectorStorageEnum::DenseVolatileByte(v) => v.deleted_vector_bitslice(),
            VectorStorageEnum::DenseVolatileHalf(v) => v.deleted_vector_bitslice(),
            VectorStorageEnum::DenseMemmap(v) => v.deleted_vector_bitslice(),
            VectorStorageEnum::DenseMemmapByte(v) => v.deleted_vector_bitslice(),
            VectorStorageEnum::DenseMemmapHalf(v) => v.deleted_vector_bitslice(),
            VectorStorageEnum::DenseAppendableMemmap(v) => v.deleted_vector_bitslice(),
            VectorStorageEnum::DenseAppendableMemmapByte(v) => v.deleted_vector_bitslice(),
            VectorStorageEnum::DenseAppendableMemmapHalf(v) => v.deleted_vector_bitslice(),
            VectorStorageEnum::DenseAppendableInRam(v) => v.deleted_vector_bitslice(),
            VectorStorageEnum::DenseAppendableInRamByte(v) => v.deleted_vector_bitslice(),
            VectorStorageEnum::DenseAppendableInRamHalf(v) => v.deleted_vector_bitslice(),
            VectorStorageEnum::SparseVolatile(v) => v.deleted_vector_bitslice(),
            VectorStorageEnum::SparseMmap(v) => v.deleted_vector_bitslice(),
            VectorStorageEnum::MultiDenseVolatile(v) => v.deleted_vector_bitslice(),
            VectorStorageEnum::MultiDenseVolatileByte(v) => v.deleted_vector_bitslice(),
            VectorStorageEnum::MultiDenseVolatileHalf(v) => v.deleted_vector_bitslice(),
            VectorStorageEnum::MultiDenseAppendableMemmap(v) => v.deleted_vector_bitslice(),
            VectorStorageEnum::MultiDenseAppendableMemmapByte(v) => v.deleted_vector_bitslice(),
            VectorStorageEnum::MultiDenseAppendableMemmapHalf(v) => v.deleted_vector_bitslice(),
            VectorStorageEnum::MultiDenseAppendableInRam(v) => v.deleted_vector_bitslice(),
            VectorStorageEnum::MultiDenseAppendableInRamByte(v) => v.deleted_vector_bitslice(),
            VectorStorageEnum::MultiDenseAppendableInRamHalf(v) => v.deleted_vector_bitslice(),
        }
    }
}

} // verus!
