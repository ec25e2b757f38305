//! Identifiers, configuration values, errors and the hardware counter shared
//! by every storage.

use vstd::prelude::*;

verus! {

/// Dense identifier of a vector slot within a storage.
pub type PointOffsetType = u32;

/// Dense identifier of a vocabulary term within a text index.
pub type TokenId = u32;

/// Largest number of vectors a single batched read may ask for.
pub const VECTOR_READ_BATCH_SIZE: usize = 128;

/// Metric under which the vectors of a storage are compared.
#[derive(Clone, Copy, Debug, PartialEq, Eq, Structural)]
pub enum Distance {
    Cosine,
    Euclid,
    Dot,
    Manhattan,
}

/// Precision of the elements kept by a storage.
#[derive(Clone, Copy, Debug, PartialEq, Eq, Structural)]
pub enum VectorStorageDatatype {
    Float32,
    Float16,
    Uint8,
}

impl VectorStorageDatatype {
    /// Bytes taken by one element of this precision.
    pub open spec fn spec_size(self) -> nat {
        match self {
            VectorStorageDatatype::Float32 => 4,
            VectorStorageDatatype::Float16 => 2,
            VectorStorageDatatype::Uint8 => 1,
        }
    }

    /// Bytes taken by one element of this precision.
    pub fn size(self) -> (r: usize)
        ensures
            r == self.spec_size(),
    {
        match self {
            VectorStorageDatatype::Float32 => 4,
            VectorStorageDatatype::Float16 => 2,
            VectorStorageDatatype::Uint8 => 1,
        }
    }
}

/// How the inner vectors of two multi-vectors are compared.
#[derive(Clone, Copy, Debug, PartialEq, Eq, Structural)]
pub enum MultiVectorComparator {
    MaxSim,
}

/// Configuration of a multi-vector storage.
#[derive(Clone, Copy, Debug, PartialEq, Eq, Structural)]
pub struct MultiVectorConfig {
    pub comparator: MultiVectorComparator,
}

/// Why an operation of a storage or of an index did not take place.
#[derive(Clone, Copy, Debug, PartialEq, Eq, Structural)]
pub enum OperationError {
    /// Files that carry another version, or that do not hold what they are
    /// opened as.
    FormatMismatch,
    /// The width of a vector differs from the width of the storage.
    DimensionMismatch { expected: usize, received: usize },
    /// A sparse vector whose indices are not strictly ascending, or whose
    /// indices and values differ in number.
    InvalidSparse,
    /// A vector of another shape than the storage keeps, a multi-vector
    /// without inner vectors, or an element outside the storage's precision.
    WrongVector,
    /// An offset or a size past what can be kept: the largest offset, which
    /// is never used, a layout whose bytes cannot be counted, or a record for
    /// which the machine's limits leave no room.
    OutOfRange,
    /// The stop flag was seen; `start..end` are the offsets assigned before.
    Cancelled { start: PointOffsetType, end: PointOffsetType },
    /// The text index could not be built: a token set or a text names a
    /// token that the vocabulary does not hold.
    BuildFailure,
}

/// What an operation gives, or why it did not take place.
pub type OperationResult<T> = Result<T, OperationError>;

/// Where the bytes of a storage live.
#[derive(Clone, Copy, Debug, PartialEq, Eq, Structural)]
pub enum StorageMedium {
    /// In memory only; nothing is ever written out.
    Volatile,
    /// In mapped files.
    Memmap,
    /// In mapped files that grow chunk by chunk.
    AppendableMemmap,
    /// In memory, written out to the files of a mapped storage on flush.
    AppendableInRam,
}

impl StorageMedium {
    /// Whether the medium is a mapped file.
    pub open spec fn spec_is_mapped(self) -> bool {
        self == StorageMedium::Memmap || self == StorageMedium::AppendableMemmap
    }

    /// Whether the medium is a mapped file.
    pub fn is_mapped(self) -> (r: bool)
        ensures
            r == self.spec_is_mapped(),
    {
        match self {
            StorageMedium::Memmap => true,
            StorageMedium::AppendableMemmap => true,
            _ => false,
        }
    }

    /// Whether the medium has files at all.
    pub open spec fn spec_is_persisted(self) -> bool {
        self != StorageMedium::Volatile
    }

    /// Whether the medium has files at all.
    pub fn is_persisted(self) -> (r: bool)
        ensures
            r == self.spec_is_persisted(),
    {
        match self {
            StorageMedium::Volatile => false,
            _ => true,
        }
    }
}

/// Saturating sum of a counter and a number of bytes.
pub open spec fn counter_sum(counter: u64, bytes: nat) -> u64 {
    if counter + bytes > u64::MAX {
        u64::MAX
    } else {
        (counter + bytes) as u64
    }
}

/// The product of a number of elements and the size of one, cut at the
/// largest number a counter can take.
pub fn saturating_bytes(count: usize, size: usize) -> (r: u64)
    ensures
        r == if count * size > u64::MAX {
            u64::MAX as int
        } else {
            count * size
        },
        forall|counter: u64| counter_sum(counter, r as nat)
            == counter_sum(counter, (count * size) as nat),
{
    assert(count * size >= 0) by (nonlinear_arith)
        requires
            count >= 0,
            size >= 0,
    ;
    match (count as u64).checked_mul(size as u64) {
        Some(bytes) => bytes,
        None => u64::MAX,
    }
}

/// Accumulates the bytes that storages and indices read and wrote.
#[derive(Clone, Copy, Debug, PartialEq, Eq, Structural)]
pub struct HardwareCounterCell {
    pub vector_io_read: u64,
    pub vector_io_write: u64,
    pub payload_index_io_write: u64,
}

impl HardwareCounterCell {
    /// A counter that has counted nothing.
    pub fn new() -> (r: Self)
        ensures
            r.vector_io_read == 0,
            r.vector_io_write == 0,
            r.payload_index_io_write == 0,
    {
        HardwareCounterCell { vector_io_read: 0, vector_io_write: 0, payload_index_io_write: 0 }
    }

    /// Counts `bytes` more bytes of vector data as read.
    pub fn incr_vector_io_read(&mut self, bytes: u64)
        ensures
            final(self).vector_io_read == counter_sum(old(self).vector_io_read, bytes as nat),
            final(self).vector_io_write == old(self).vector_io_write,
            final(self).payload_index_io_write == old(self).payload_index_io_write,
    {
        self.vector_io_read = self.vector_io_read.saturating_add(bytes);
    }

    /// Counts `bytes` more bytes of vector data as written.
    pub fn incr_vector_io_write(&mut self, bytes: u64)
        ensures
            final(self).vector_io_write == counter_sum(old(self).vector_io_write, bytes as nat),
            final(self).vector_io_read == old(self).vector_io_read,
            final(self).payload_index_io_write == old(self).payload_index_io_write,
    {
        self.vector_io_write = self.vector_io_write.saturating_add(bytes);
    }

    /// Counts `bytes` more bytes of index data as written.
    pub fn incr_payload_index_io_write(&mut self, bytes: u64)
        ensures
            final(self).payload_index_io_write == counter_sum(
                old(self).payload_index_io_write,
                bytes as nat,
            ),
            final(self).vector_io_read == old(self).vector_io_read,
            final(self).vector_io_write == old(self).vector_io_write,
    {
        self.payload_index_io_write = self.payload_index_io_write.saturating_add(bytes);
    }
}

} // verus!
