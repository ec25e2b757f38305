//! The mathematical model of a vector storage: what it holds, and what an
//! insert, a delete or an append makes of it.

use vstd::prelude::*;
use crate::bitmap::count_set;
use crate::common::{Distance, OperationError, VectorStorageDatatype};
use crate::vector_storage::element::{all_fit, one_raw};
use crate::vector_storage::vectors::{sparse_valid, VectorView};

verus! {

/// The shape of the vectors a storage keeps.
pub enum StorageShape {
    /// Dense vectors of `dim` elements.
    Dense { dim: nat },
    /// Sparse vectors.
    Sparse,
    /// Multi-vectors of between one and `max_count` inner vectors of `dim`
    /// elements each.
    MultiDense { dim: nat, max_count: nat },
}

/// What a storage holds: one vector and one deletion flag for each offset
/// below the total.
pub struct StorageModel {
    pub shape: StorageShape,
    pub datatype: VectorStorageDatatype,
    pub distance: Distance,
    pub vectors: Seq<VectorView>,
    pub deleted: Seq<bool>,
}

impl StorageShape {
    /// The vector that stands at an offset which was never written.
    pub open spec fn blank(self) -> VectorView {
        match self {
            StorageShape::Dense { dim } => VectorView::Dense(Seq::new(dim, |i: int| 0u32)),
            StorageShape::Sparse => VectorView::Sparse {
                indices: Seq::empty(),
                values: Seq::empty(),
            },
            StorageShape::MultiDense { dim, max_count } => VectorView::MultiDense {
                flattened: Seq::empty(),
                dim,
            },
        }
    }

    /// A vector that the storage takes, for callers that need any: ones for a
    /// dense storage, no entries for a sparse one, one inner vector of ones
    /// for a multi-vector storage.
    pub open spec fn placeholder(self, datatype: VectorStorageDatatype) -> VectorView {
        match self {
            StorageShape::Dense { dim } => VectorView::Dense(
                Seq::new(dim, |i: int| one_raw(datatype)),
            ),
            StorageShape::Sparse => VectorView::Sparse {
                indices: Seq::empty(),
                values: Seq::empty(),
            },
            StorageShape::MultiDense { dim, max_count } => VectorView::MultiDense {
                flattened: Seq::new(dim, |i: int| one_raw(datatype)),
                dim,
            },
        }
    }

    /// Why a storage of this shape and precision refuses `vector`, if it does.
    pub open spec fn refusal(self, datatype: VectorStorageDatatype, vector: VectorView) -> Option<
        OperationError,
    > {
        match self {
            StorageShape::Dense { dim } => match vector {
                VectorView::Dense(elements) => if elements.len() != dim {
                    Some(
                        OperationError::DimensionMismatch {
                            expected: dim as usize,
                            received: elements.len() as usize,
                        },
                    )
                } else if !all_fit(elements, datatype) {
                    Some(OperationError::WrongVector)
                } else {
                    None
                },
                _ => Some(OperationError::WrongVector),
            },
            StorageShape::Sparse => match vector {
                VectorView::Sparse { indices, values } => if !sparse_valid(indices, values) {
                    Some(OperationError::InvalidSparse)
                } else {
                    None
                },
                _ => Some(OperationError::WrongVector),
            },
            StorageShape::MultiDense { dim, max_count } => match vector {
                VectorView::MultiDense { flattened, dim: width } => if width != dim {
                    Some(
                        OperationError::DimensionMismatch {
                            expected: dim as usize,
                            received: width as usize,
                        },
                    )
                } else if flattened.len() == 0 || flattened.len() % dim != 0 || flattened.len()
                    > max_count * dim || !all_fit(flattened, datatype) {
                    Some(OperationError::WrongVector)
                } else {
                    None
                },
                _ => Some(OperationError::WrongVector),
            },
        }
    }
}

/// A storage refuses a vector for what the vector is, never as cancelled or
/// for want of room.
pub proof fn lemma_refusal_kind(
    shape: StorageShape,
    datatype: VectorStorageDatatype,
    vector: VectorView,
)
    ensures
        shape.refusal(datatype, vector) matches Some(error) ==> error is DimensionMismatch
            || error is WrongVector || error is InvalidSparse,
{
}

impl StorageModel {
    /// Number of offsets in use, deleted ones included.
    pub open spec fn total(self) -> nat {
        self.vectors.len()
    }

    /// One flag stands for each offset, and the largest offset is left free
    /// so that every range of offsets has an end.
    pub open spec fn wf(self) -> bool {
        &&& self.deleted.len() == self.vectors.len()
        &&& self.vectors.len() <= u32::MAX
    }

    /// Whether the vector at `key` is flagged as deleted.
    pub open spec fn is_deleted(self, key: int) -> bool {
        0 <= key < self.deleted.len() && self.deleted[key]
    }

    /// Number of vectors flagged as deleted.
    pub open spec fn deleted_count(self) -> nat {
        count_set(self.deleted)
    }

    /// Number of vectors not flagged as deleted.
    pub open spec fn available_count(self) -> nat {
        if self.deleted_count() > self.total() {
            0
        } else {
            (self.total() - self.deleted_count()) as nat
        }
    }

    /// Why the storage refuses `vector`, if it does.
    pub open spec fn refusal(self, vector: VectorView) -> Option<OperationError> {
        self.shape.refusal(self.datatype, vector)
    }

    /// The storage after `vector` was written at `key`: over what stood
    /// there, or behind blank vectors that fill the offsets up to `key`.
    pub open spec fn inserted(self, key: nat, vector: VectorView) -> StorageModel {
        if key < self.total() {
            StorageModel { vectors: self.vectors.update(key as int, vector), ..self }
        } else {
            StorageModel {
                vectors: self.vectors + Seq::new(
                    (key - self.total()) as nat,
                    |i: int| self.shape.blank(),
                ) + seq![vector],
                deleted: self.deleted + Seq::new((key + 1 - self.total()) as nat, |i: int| false),
                ..self
            }
        }
    }

    /// The storage after the vector at `key` was flagged as deleted. An
    /// offset that is not in use has no flag to set.
    pub open spec fn removed(self, key: nat) -> StorageModel {
        if key < self.total() {
            StorageModel { deleted: self.deleted.update(key as int, true), ..self }
        } else {
            self
        }
    }

    /// The storage after `vector` was appended at the next free offset, with
    /// the given deletion flag.
    pub open spec fn appended(self, vector: VectorView, deleted: bool) -> StorageModel {
        StorageModel {
            vectors: self.vectors.push(vector),
            deleted: self.deleted.push(deleted),
            ..self
        }
    }
}

} // verus!
