//! What every vector storage offers, whatever it keeps and wherever it keeps it.

use std::ops::Range;
use std::sync::atomic::{AtomicBool, Ordering};
use vstd::prelude::*;
use crate::bitmap::{max_bits, DeletionBitmap};
use crate::common::{
    counter_sum, Distance, HardwareCounterCell, MultiVectorConfig, OperationError, OperationResult,
    PointOffsetType, StorageMedium, VectorStorageDatatype, VECTOR_READ_BATCH_SIZE,
};
use crate::paths::{CacheAdvice, CacheRequest, Flusher};
use crate::text::strings_view;
use crate::vector_storage::element::{raw_of, PrimitiveVectorElement};
use crate::vector_storage::files::{storage_file_names, StorageFilesView, StorageKind};
use crate::vector_storage::model::{lemma_refusal_kind, StorageModel, StorageShape};
use crate::vector_storage::vectors::{
    SparseVector, TypedMultiDenseVectorRef, VectorInternal, VectorView,
};

verus! {

/// What the vectors and flags of `items` hold.
pub open spec fn item_views(items: Seq<(VectorInternal, bool)>) -> Seq<(VectorView, bool)> {
    Seq::new(items.len(), |i: int| (items[i].0@, items[i].1))
}

/// The storage after the first `count` of `items` were appended in order.
pub open spec fn appended_all(
    model: StorageModel,
    items: Seq<(VectorView, bool)>,
    count: nat,
) -> StorageModel
    decreases count,
{
    if count == 0 {
        model
    } else {
        appended_all(model, items, (count - 1) as nat).appended(
            items[count - 1].0,
            items[count - 1].1,
        )
    }
}

/// Bytes that writing `vector` into a storage of precision `datatype` takes.
pub open spec fn write_cost(datatype: VectorStorageDatatype, vector: VectorView) -> nat {
    vector.element_count() * datatype.spec_size()
}

/// Version number of an operation on a segment.
pub type SeqNumberType = u64;

/// The kind of files that keep vectors of the given shape.
pub open spec fn kind_of(shape: StorageShape) -> StorageKind {
    match shape {
        StorageShape::Dense { dim } => StorageKind::Dense,
        StorageShape::Sparse => StorageKind::Sparse,
        StorageShape::MultiDense { dim, max_count } => StorageKind::MultiDense,
    }
}

/// The names of the files of a storage: none where it lives in memory only.
pub open spec fn storage_files_of(
    medium: StorageMedium,
    path: Seq<char>,
    shape: StorageShape,
    chunk_counts: (nat, nat),
) -> Seq<Seq<char>> {
    if medium.spec_is_persisted() {
        storage_file_names(path, kind_of(shape), chunk_counts.0, chunk_counts.1)
    } else {
        Seq::empty()
    }
}

/// What the stop flag says at this moment. Another thread may set the flag
/// at any time, so nothing is known of the answer.
pub fn is_stopped(stopped: &AtomicBool) -> bool {
    stopped.load(Ordering::Relaxed)
}

/// Why writing `vector` at `key` fails, if it does: the storage refuses the
/// vector, or `key` is the largest offset, which is never used, or the
/// machine has no room for it (`room` says whether it has).
pub open spec fn insert_error(
    model: StorageModel,
    key: nat,
    vector: VectorView,
    room: bool,
) -> Option<OperationError> {
    match model.refusal(vector) {
        Some(error) => Some(error),
        None => if key >= u32::MAX || !room {
            Some(OperationError::OutOfRange)
        } else {
            None
        },
    }
}

/// Why an append of `vector` with the given flag fails, if it does: as for
/// writing it at the next free offset, or because the bitmap cannot hold the
/// flag.
pub open spec fn append_error(
    model: StorageModel,
    vector: VectorView,
    deleted: bool,
    room: bool,
) -> Option<OperationError> {
    match insert_error(model, model.total(), vector, room) {
        Some(error) => Some(error),
        None => if deleted && model.total() >= max_bits() {
            Some(OperationError::OutOfRange)
        } else {
            None
        },
    }
}

/// A store of vectors addressed by point offset, with soft deletion.
pub trait VectorStorage: Sized {
    /// The storage is sound.
    spec fn wf(&self) -> bool;

    /// What the storage holds.
    spec fn model(&self) -> StorageModel;

    /// Whether the machine's limits leave room to write `vector` at `key`.
    spec fn has_room(&self, key: nat, vector: VectorView) -> bool;

    /// Where the bytes of the storage live.
    spec fn spec_medium(&self) -> StorageMedium;

    /// Whether the storage was made resident when it was opened.
    spec fn spec_populated(&self) -> bool;

    /// The directory of the files of the storage.
    spec fn spec_path(&self) -> Seq<char>;

    /// Number of chunk files of the data array, and of the table of runs.
    spec fn spec_chunk_counts(&self) -> (nat, nat);

    /// Whether the storage is what `files` hold: the meta data name its
    /// shape, precision, width, metric and number of vectors, the chunks hold
    /// its elements, and the deletion flags of its offsets are its own.
    spec fn spec_held_by(&self, files: StorageFilesView) -> bool;

    /// The meta data of the files of a storage name its shape and precision.
    proof fn lemma_meta(&self, files: StorageFilesView)
        requires
            self.wf(),
            self.spec_held_by(files),
        ensures
            files.meta.kind == kind_of(self.model().shape),
            files.meta.element == self.model().datatype,
    ;

    /// Two sound storages that the same files hold hold the same.
    proof fn lemma_held_by(&self, other: &Self, files: StorageFilesView)
        requires
            self.wf(),
            other.wf(),
            self.spec_held_by(files),
            other.spec_held_by(files),
        ensures
            self.model() == other.model(),
    ;

    /// A sound storage holds one flag for each vector.
    proof fn lemma_model_wf(&self)
        requires
            self.wf(),
        ensures
            self.model().wf(),
    ;

    /// The metric under which the vectors are compared.
    fn distance(&self) -> (r: Distance)
        requires
            self.wf(),
        ensures
            r == self.model().distance,
    ;

    /// The precision of the elements.
    fn datatype(&self) -> (r: VectorStorageDatatype)
        requires
            self.wf(),
        ensures
            r == self.model().datatype,
    ;

    /// Where the bytes of the storage live.
    fn medium(&self) -> (r: StorageMedium)
        requires
            self.wf(),
        ensures
            r == self.spec_medium(),
    ;

    /// Whether the vectors live in mapped files that were not made resident.
    fn is_on_disk(&self) -> (r: bool)
        requires
            self.wf(),
        ensures
            r == (self.spec_medium().spec_is_mapped() && !self.spec_populated()),
    ;

    /// Number of vectors, deleted ones included.
    fn total_vector_count(&self) -> (r: usize)
        requires
            self.wf(),
        ensures
            r == self.model().total(),
    ;

    /// Number of vectors that are not flagged as deleted.
    fn available_vector_count(&self) -> (r: usize)
        requires
            self.wf(),
        ensures
            r == self.model().available_count(),
            r + self.model().deleted_count() == self.model().total(),
    {
        proof {
            self.lemma_model_wf();
            crate::bitmap::lemma_count_set_bound(self.model().deleted);
        }
        self.total_vector_count().saturating_sub(self.deleted_vector_count())
    }

    /// The vector at `key`.
    fn get_vector(&self, key: PointOffsetType) -> (r: VectorInternal)
        requires
            self.wf(),
            key < self.model().total(),
        ensures
            r@ == self.model().vectors[key as int],
    ;

    /// The vector at `key`, for callers that read offsets in rising order.
    fn get_vector_sequential(&self, key: PointOffsetType) -> (r: VectorInternal)
        requires
            self.wf(),
            key < self.model().total(),
        ensures
            r@ == self.model().vectors[key as int],
    ;

    /// The vector at `key`, or nothing where the storage ends before `key`.
    fn get_vector_opt(&self, key: PointOffsetType) -> (r: Option<VectorInternal>)
        requires
            self.wf(),
        ensures
            r is Some <==> key < self.model().total(),
            r is Some ==> r.unwrap()@ == self.model().vectors[key as int],
    ;

    /// Writes `vector` at `key`. Offsets between the end of the storage and
    /// `key` are filled with blank vectors. A refused vector changes nothing.
    fn insert_vector(
        &mut self,
        key: PointOffsetType,
        vector: &VectorInternal,
        hw_counter: &mut HardwareCounterCell,
    ) -> (r: OperationResult<()>)
        requires
            old(self).wf(),
        ensures
            final(self).wf(),
            final(self).spec_medium() == old(self).spec_medium(),
            final(self).spec_populated() == old(self).spec_populated(),
            final(self).spec_path() == old(self).spec_path(),
            r == match insert_error(
                old(self).model(),
                key as nat,
                vector@,
                old(self).has_room(key as nat, vector@),
            ) {
                Some(error) => Err::<(), OperationError>(error),
                None => Ok::<(), OperationError>(()),
            },
            r is Ok ==> final(self).model() == old(self).model().inserted(key as nat, vector@),
            r is Err ==> final(self).model() == old(self).model(),
            final(hw_counter).vector_io_read == old(hw_counter).vector_io_read,
            final(hw_counter).payload_index_io_write == old(hw_counter).payload_index_io_write,
            final(hw_counter).vector_io_write == if r is Ok {
                counter_sum(
                    old(hw_counter).vector_io_write,
                    write_cost(old(self).model().datatype, vector@),
                )
            } else {
                old(hw_counter).vector_io_write
            },
    ;

    /// Appends `vector` at the next free offset, with the given deletion
    /// flag, and gives that offset. A refused vector changes nothing.
    fn append_vector(&mut self, vector: &VectorInternal, deleted: bool) -> (r: OperationResult<
        PointOffsetType,
    >)
        requires
            old(self).wf(),
        ensures
            final(self).wf(),
            final(self).spec_medium() == old(self).spec_medium(),
            final(self).spec_populated() == old(self).spec_populated(),
            final(self).spec_path() == old(self).spec_path(),
            r == match append_error(
                old(self).model(),
                vector@,
                deleted,
                old(self).has_room(old(self).model().total(), vector@),
            ) {
                Some(error) => Err::<PointOffsetType, OperationError>(error),
                None => Ok::<PointOffsetType, OperationError>(
                    old(self).model().total() as PointOffsetType,
                ),
            },
            r is Ok ==> final(self).model() == old(self).model().appended(vector@, deleted),
            r is Err ==> final(self).model() == old(self).model() && forall|v: VectorView|
                final(self).has_room(final(self).model().total(), v) == old(self).has_room(
                    old(self).model().total(),
                    v,
                ),
    ;

    /// One step of an update: where `stopped` is set nothing is written and
    /// the offsets assigned since `start` are reported; else `vector` is
    /// appended.
    fn update_record(
        &mut self,
        start: PointOffsetType,
        vector: &VectorInternal,
        deleted: bool,
        stopped: bool,
    ) -> (r: OperationResult<PointOffsetType>)
        requires
            old(self).wf(),
            start <= old(self).model().total(),
        ensures
            final(self).wf(),
            final(self).spec_medium() == old(self).spec_medium(),
            final(self).spec_populated() == old(self).spec_populated(),
            final(self).spec_path() == old(self).spec_path(),
            r == if stopped {
                Err::<PointOffsetType, OperationError>(
                    OperationError::Cancelled {
                        start,
                        end: old(self).model().total() as PointOffsetType,
                    },
                )
            } else {
                match append_error(
                    old(self).model(),
                    vector@,
                    deleted,
                    old(self).has_room(old(self).model().total(), vector@),
                ) {
                    Some(error) => Err::<PointOffsetType, OperationError>(error),
                    None => Ok::<PointOffsetType, OperationError>(
                        old(self).model().total() as PointOffsetType,
                    ),
                }
            },
            r is Ok ==> final(self).model() == old(self).model().appended(vector@, deleted),
            r is Err ==> final(self).model() == old(self).model() && forall|v: VectorView|
                final(self).has_room(final(self).model().total(), v) == old(self).has_room(
                    old(self).model().total(),
                    v,
                ),
    {
        if stopped {
            proof {
                self.lemma_model_wf();
            }
            let end: PointOffsetType = self.total_vector_count() as PointOffsetType;
            Err(OperationError::Cancelled { start, end })
        } else {
            self.append_vector(vector, deleted)
        }
    }

    /// Appends the vectors of `other_vectors` in order, each with its
    /// deletion flag, and gives the range of offsets they took. The stop flag
    /// is read before each record: once it is seen set, the records appended
    /// so far stay and the error reports their range. A record that the
    /// storage cannot take ends the update in the same way, with its own
    /// error.
    fn update_from(
        &mut self,
        other_vectors: &Vec<(VectorInternal, bool)>,
        stopped: &AtomicBool,
    ) -> (r: OperationResult<Range<PointOffsetType>>)
        requires
            old(self).wf(),
        ensures
            final(self).wf(),
            final(self).spec_medium() == old(self).spec_medium(),
            final(self).spec_populated() == old(self).spec_populated(),
            final(self).spec_path() == old(self).spec_path(),
            old(self).model().total() <= final(self).model().total() <= old(self).model().total()
                + other_vectors@.len(),
            final(self).model() == appended_all(
                old(self).model(),
                item_views(other_vectors@),
                (final(self).model().total() - old(self).model().total()) as nat,
            ),
            match r {
                Ok(range) => {
                    &&& range.start == old(self).model().total()
                    &&& range.end == final(self).model().total()
                    &&& final(self).model().total() == old(self).model().total()
                        + other_vectors@.len()
                },
                Err(OperationError::Cancelled { start, end }) => {
                    &&& start == old(self).model().total()
                    &&& end == final(self).model().total()
                    &&& final(self).model().total() < old(self).model().total()
                        + other_vectors@.len()
                },
                Err(error) => {
                    let accepted = final(self).model().total() - old(self).model().total();
                    &&& accepted < other_vectors@.len()
                    &&& append_error(
                        final(self).model(),
                        other_vectors@[accepted].0@,
                        other_vectors@[accepted].1,
                        final(self).has_room(
                            final(self).model().total(),
                            other_vectors@[accepted].0@,
                        ),
                    ) == Some(error)
                },
            },
    {
        proof {
            self.lemma_model_wf();
        }
        let start: PointOffsetType = self.total_vector_count() as PointOffsetType;
        let mut end: PointOffsetType = start;
        let mut i: usize = 0;
        while i < other_vectors.len()
            invariant
                self.wf(),
                self.spec_medium() == old(self).spec_medium(),
                self.spec_populated() == old(self).spec_populated(),
                self.spec_path() == old(self).spec_path(),
                i <= other_vectors@.len(),
                start == old(self).model().total(),
                self.model().total() == start + i,
                end == start + i,
                self.model() == appended_all(
                    old(self).model(),
                    item_views(other_vectors@),
                    i as nat,
                ),
            decreases other_vectors.len() - i,
        {
            let flag = is_stopped(stopped);
            match self.update_record(start, &other_vectors[i].0, other_vectors[i].1, flag) {
                Ok(_) => {},
                Err(error) => {
                    proof {
                        lemma_refusal_kind(
                            self.model().shape,
                            self.model().datatype,
                            other_vectors@[i as int].0@,
                        );
                        assert(self.model().total() == start + i);
                        if flag {
                            assert(error == OperationError::Cancelled { start, end });
                        } else {
                            assert(append_error(
                                self.model(),
                                other_vectors@[i as int].0@,
                                other_vectors@[i as int].1,
                                self.has_room(self.model().total(), other_vectors@[i as int].0@),
                            ) == Some(error));
                            assert(!(error is Cancelled));
                        }
                    }
                    return Err(error);
                },
            }
            assert(item_views(other_vectors@)[i as int] == (
                other_vectors@[i as int].0@,
                other_vectors@[i as int].1,
            ));
            proof {
                self.lemma_model_wf();
            }
            i += 1;
            end = end + 1;
        }
        Ok(start..end)
    }

    /// What a flush is to write: nothing for a storage that lives in memory
    /// only, else files that hold the storage as it is now.
    fn flusher(&self) -> (r: Flusher)
        requires
            self.wf(),
        ensures
            r.files@.len() == 0,
            r.storage is Some <==> self.spec_medium().spec_is_persisted(),
            r.storage matches Some(files) ==> self.spec_held_by(files@),
    ;

    /// The files of the storage; none for a storage that lives in memory only.
    fn files(&self) -> (r: Vec<String>)
        requires
            self.wf(),
        ensures
            strings_view(r@) == storage_files_of(
                self.spec_medium(),
                self.spec_path(),
                self.model().shape,
                self.spec_chunk_counts(),
            ),
    ;

    /// The files that never change once written: a vector storage has none,
    /// for every write goes into the chunk that holds its offset.
    fn immutable_files(&self) -> (r: Vec<String>)
        ensures
            r@.len() == 0,
    {
        Vec::new()
    }

    /// The files that carry a version number of their own: none.
    fn versioned_files(&self) -> (r: Vec<(String, SeqNumberType)>)
        ensures
            r@.len() == 0,
    {
        Vec::new()
    }

    /// Flags the vector at `key` as deleted and tells whether it was not
    /// flagged before. An offset that is not in use has nothing to delete.
    fn delete_vector(&mut self, key: PointOffsetType) -> (r: OperationResult<bool>)
        requires
            old(self).wf(),
        ensures
            final(self).wf(),
            final(self).spec_medium() == old(self).spec_medium(),
            final(self).spec_populated() == old(self).spec_populated(),
            final(self).spec_path() == old(self).spec_path(),
            r == if key < old(self).model().total() && key >= max_bits() {
                Err::<bool, OperationError>(OperationError::OutOfRange)
            } else {
                Ok::<bool, OperationError>(
                    key < old(self).model().total() && !old(self).model().is_deleted(key as int),
                )
            },
            r is Ok ==> final(self).model() == old(self).model().removed(key as nat),
            r is Err ==> final(self).model() == old(self).model(),
    ;

    /// Whether the vector at `key` is flagged as deleted.
    fn is_deleted_vector(&self, key: PointOffsetType) -> (r: bool)
        requires
            self.wf(),
        ensures
            r == self.model().is_deleted(key as int),
    ;

    /// Number of vectors flagged as deleted.
    fn deleted_vector_count(&self) -> (r: usize)
        requires
            self.wf(),
        ensures
            r == self.model().deleted_count(),
    ;

    /// The deletion bitmap. It may be shorter or longer than the storage; a
    /// place it does not hold stands for a vector that is not deleted.
    fn deleted_vector_bitslice(&self) -> (r: &DeletionBitmap)
        requires
            self.wf(),
        ensures
            r.wf(),
            forall|key: int| r.spec_is_set(key) == self.model().is_deleted(key),
    ;
}

/// The files that a piece of advice on the page cache is about: the files
/// of a storage in mapped files, none for a storage held in memory.
pub open spec fn advised_files<S: VectorStorage>(storage: &S) -> Seq<Seq<char>> {
    if storage.spec_medium().spec_is_mapped() {
        storage_files_of(
            storage.spec_medium(),
            storage.spec_path(),
            storage.model().shape,
            storage.spec_chunk_counts(),
        )
    } else {
        Seq::empty()
    }
}

/// A piece of advice on the page cache for `storage`.
pub fn cache_request<S: VectorStorage>(storage: &S, advice: CacheAdvice) -> (r: OperationResult<
    CacheRequest,
>)
    requires
        storage.wf(),
    ensures
        r matches Ok(request) && request.advice == advice && strings_view(request.files@)
            == advised_files(storage),
{
    let files = if storage.medium().is_mapped() {
        storage.files()
    } else {
        let files: Vec<String> = Vec::new();
        assert(strings_view(files@) =~= Seq::<Seq<char>>::empty());
        files
    };
    Ok(CacheRequest { advice, files })
}

/// A storage of dense vectors with elements of type `T`.
pub trait DenseVectorStorage<T: PrimitiveVectorElement>: VectorStorage {
    /// The elements of the vector at `key`.
    spec fn spec_dense(&self, key: int) -> Seq<T>;

    /// Number of elements in every vector.
    spec fn spec_vector_dim(&self) -> nat;

    /// The typed vectors are the vectors of the model: each has the width of
    /// the storage, and the bytes of all of them can be counted.
    proof fn lemma_dense_model(&self)
        requires
            self.wf(),
        ensures
            self.model().shape == (crate::vector_storage::model::StorageShape::Dense {
                dim: self.spec_vector_dim(),
            }),
            self.model().datatype == T::spec_datatype(),
            self.model().total() * self.spec_vector_dim() * T::spec_datatype().spec_size()
                <= usize::MAX,
            forall|key: int|
                0 <= key < self.model().total() ==> #[trigger] self.model().vectors[key]
                    == VectorView::Dense(raw_of(self.spec_dense(key))) && self.spec_dense(
                    key,
                ).len() == self.spec_vector_dim(),
    ;

    fn vector_dim(&self) -> (r: usize)
        requires
            self.wf(),
        ensures
            r == self.spec_vector_dim(),
    ;

    /// The elements of the vector at `key`.
    fn get_dense(&self, key: PointOffsetType) -> (r: &[T])
        requires
            self.wf(),
            key < self.model().total(),
        ensures
            r@ == self.spec_dense(key as int),
    ;

    /// The elements of the vector at `key`, for callers that read offsets in
    /// rising order.
    fn get_dense_sequential(&self, key: PointOffsetType) -> (r: &[T])
        requires
            self.wf(),
            key < self.model().total(),
        ensures
            r@ == self.spec_dense(key as int),
    ;

    /// The vectors at `keys`, in their order. A batch holds at most
    /// `VECTOR_READ_BATCH_SIZE` vectors: keys past that many are left unread.
    fn get_dense_batch<'a>(&'a self, keys: &[PointOffsetType]) -> (r: Vec<&'a [T]>)
        requires
            self.wf(),
            forall|i: int| 0 <= i < keys@.len() ==> keys@[i] < self.model().total(),
        ensures
            r@.len() == if keys@.len() < VECTOR_READ_BATCH_SIZE {
                keys@.len()
            } else {
                VECTOR_READ_BATCH_SIZE as nat
            },
            forall|i: int| 0 <= i < r@.len() ==> (#[trigger] r@[i])@
                == self.spec_dense(keys@[i] as int),
    {
        let mut vectors: Vec<&'a [T]> = Vec::new();
        let mut i: usize = 0;
        while i < keys.len() && i < VECTOR_READ_BATCH_SIZE
            invariant
                self.wf(),
                i <= keys@.len(),
                i <= VECTOR_READ_BATCH_SIZE,
                vectors@.len() == i,
                forall|j: int| 0 <= j < keys@.len() ==> keys@[j] < self.model().total(),
                forall|j: int|
                    0 <= j < i ==> (#[trigger] vectors@[j])@ == self.spec_dense(keys@[j] as int),
            decreases keys.len() - i,
        {
            vectors.push(self.get_dense(keys[i]));
            i += 1;
        }
        vectors
    }

    /// Bytes taken by the vectors that are not flagged as deleted.
    fn size_of_available_vectors_in_bytes(&self) -> (r: usize)
        requires
            self.wf(),
        ensures
            r == self.model().available_count() * self.spec_vector_dim()
                * T::spec_datatype().spec_size(),
    {
        proof {
            self.lemma_dense_model();
            self.lemma_model_wf();
        }
        let available = self.available_vector_count();
        let dim = self.vector_dim();
        let size = T::datatype().size();
        let ghost total = self.model().total() as int;
        assert(available * dim <= total * dim && available * dim * size <= total * dim * size
            && 0 <= available * dim) by (nonlinear_arith)
            requires
                0 <= available <= total,
                0 <= dim,
                0 <= size,
        ;
        available * dim * size
    }
}

/// A storage of sparse vectors.
pub trait SparseVectorStorage: VectorStorage {
    /// The vector at `key`.
    fn get_sparse(&self, key: PointOffsetType) -> (r: OperationResult<SparseVector>)
        requires
            self.wf(),
            key < self.model().total(),
        ensures
            r matches Ok(sparse) && self.model().vectors[key as int] == (VectorView::Sparse {
                indices: sparse.indices@,
                values: sparse.values@,
            }),
    ;

    /// The vector at `key`, for callers that read offsets in rising order.
    fn get_sparse_sequential(&self, key: PointOffsetType) -> (r: OperationResult<SparseVector>)
        requires
            self.wf(),
            key < self.model().total(),
        ensures
            r matches Ok(sparse) && self.model().vectors[key as int] == (VectorView::Sparse {
                indices: sparse.indices@,
                values: sparse.values@,
            }),
    ;

    /// The vector at `key`, or nothing where the storage ends before `key`.
    fn get_sparse_opt(&self, key: PointOffsetType) -> (r: OperationResult<Option<SparseVector>>)
        requires
            self.wf(),
        ensures
            r matches Ok(found) && (found is Some <==> key < self.model().total()) && (
            found matches Some(sparse) ==> self.model().vectors[key as int]
                == (VectorView::Sparse { indices: sparse.indices@, values: sparse.values@ })),
    ;
}

/// The inner vectors of the first `count` multi-vectors of width `dim`, where
/// `runs` gives the elements of each multi-vector.
pub open spec fn inner_vectors<T>(runs: spec_fn(int) -> Seq<T>, dim: nat, count: nat) -> Seq<
    Seq<T>,
>
    decreases count,
{
    if count == 0 {
        Seq::empty()
    } else {
        inner_vectors(runs, dim, (count - 1) as nat) + Seq::new(
            runs(count - 1).len() / dim,
            |i: int| runs(count - 1).subrange(i * dim, i * dim + dim),
        )
    }
}

/// A storage of multi-vectors with elements of type `T`.
pub trait MultiVectorStorage<T: PrimitiveVectorElement>: VectorStorage {
    /// The elements of the multi-vector at `key`, one inner vector after the other.
    spec fn spec_multi(&self, key: int) -> Seq<T>;

    /// Number of elements in every inner vector.
    spec fn spec_vector_dim(&self) -> nat;

    /// The configuration the storage was made with.
    spec fn spec_multi_vector_config(&self) -> MultiVectorConfig;

    /// Number of inner vectors the storage keeps, those of overwritten
    /// multi-vectors and those that fill a chunk included.
    spec fn spec_stored(&self) -> nat;

    /// The typed multi-vectors are the vectors of the model, each made of
    /// whole inner vectors; and the bytes of all inner vectors can be counted.
    proof fn lemma_multi_model(&self)
        requires
            self.wf(),
        ensures
            self.spec_vector_dim() > 0,
            self.model().datatype == T::spec_datatype(),
            self.spec_stored() * self.spec_vector_dim() * T::spec_datatype().spec_size()
                <= usize::MAX,
            forall|key: int|
                0 <= key < self.model().total() ==> #[trigger] self.model().vectors[key]
                    == (VectorView::MultiDense {
                    flattened: raw_of(self.spec_multi(key)),
                    dim: self.spec_vector_dim(),
                }) && self.spec_multi(key).len() % self.spec_vector_dim() == 0,
    ;

    fn vector_dim(&self) -> (r: usize)
        requires
            self.wf(),
        ensures
            r == self.spec_vector_dim(),
    ;

    /// The multi-vector at `key`.
    fn get_multi<'a>(&'a self, key: PointOffsetType) -> (r: TypedMultiDenseVectorRef<'a, T>)
        requires
            self.wf(),
            key < self.model().total(),
        ensures
            r.flattened_vectors@ == self.spec_multi(key as int),
            r.dim == self.spec_vector_dim(),
    ;

    /// The multi-vector at `key`, or nothing where the storage ends before `key`.
    fn get_multi_opt<'a>(&'a self, key: PointOffsetType) -> (r: Option<
        TypedMultiDenseVectorRef<'a, T>,
    >)
        requires
            self.wf(),
        ensures
            r is Some <==> key < self.model().total(),
            r matches Some(multi) ==> multi.flattened_vectors@ == self.spec_multi(key as int)
                && multi.dim == self.spec_vector_dim(),
    ;

    /// As `get_multi_opt`, for callers that read offsets in rising order.
    fn get_multi_opt_sequential<'a>(&'a self, key: PointOffsetType) -> (r: Option<
        TypedMultiDenseVectorRef<'a, T>,
    >)
        requires
            self.wf(),
        ensures
            r is Some <==> key < self.model().total(),
            r matches Some(multi) ==> multi.flattened_vectors@ == self.spec_multi(key as int)
                && multi.dim == self.spec_vector_dim(),
    ;

    /// The multi-vectors at `keys`, in their order. A batch holds at most
    /// `VECTOR_READ_BATCH_SIZE` of them: keys past that many are left unread.
    fn get_batch_multi<'a>(&'a self, keys: &[PointOffsetType]) -> (r: Vec<
        TypedMultiDenseVectorRef<'a, T>,
    >)
        requires
            self.wf(),
            forall|i: int| 0 <= i < keys@.len() ==> keys@[i] < self.model().total(),
        ensures
            r@.len() == if keys@.len() < VECTOR_READ_BATCH_SIZE {
                keys@.len()
            } else {
                VECTOR_READ_BATCH_SIZE as nat
            },
            forall|i: int|
                0 <= i < r@.len() ==> (#[trigger] r@[i]).flattened_vectors@ == self.spec_multi(
                    keys@[i] as int,
                ) && r@[i].dim == self.spec_vector_dim(),
    {
        let mut vectors: Vec<TypedMultiDenseVectorRef<'a, T>> = Vec::new();
        let mut i: usize = 0;
        while i < keys.len() && i < VECTOR_READ_BATCH_SIZE
            invariant
                self.wf(),
                i <= keys@.len(),
                i <= VECTOR_READ_BATCH_SIZE,
                vectors@.len() == i,
                forall|j: int| 0 <= j < keys@.len() ==> keys@[j] < self.model().total(),
                forall|j: int|
                    0 <= j < i ==> (#[trigger] vectors@[j]).flattened_vectors@ == self.spec_multi(
                        keys@[j] as int,
                    ) && vectors@[j].dim == self.spec_vector_dim(),
            decreases keys.len() - i,
        {
            vectors.push(self.get_multi(keys[i]));
            i += 1;
        }
        vectors
    }

    /// Every inner vector of every multi-vector, in the order of the offsets.
    fn iterate_inner_vectors<'a>(&'a self) -> (r: Vec<&'a [T]>)
        requires
            self.wf(),
        ensures
            r@.len() == inner_vectors(
                |key: int| self.spec_multi(key),
                self.spec_vector_dim(),
                self.model().total(),
            ).len(),
            forall|i: int|
                0 <= i < r@.len() ==> (#[trigger] r@[i])@ == inner_vectors(
                    |key: int| self.spec_multi(key),
                    self.spec_vector_dim(),
                    self.model().total(),
                )[i],
    {
        proof {
            self.lemma_multi_model();
            self.lemma_model_wf();
        }
        let ghost runs = |key: int| self.spec_multi(key);
        let dim = self.vector_dim();
        let total = self.total_vector_count();
        let mut vectors: Vec<&'a [T]> = Vec::new();
        let mut key: usize = 0;
        while key < total
            invariant
                self.wf(),
                key <= total,
                total == self.model().total(),
                total <= u32::MAX,
                dim == self.spec_vector_dim(),
                dim > 0,
                runs == |key: int| self.spec_multi(key),
                vectors@.len() == inner_vectors(runs, dim as nat, key as nat).len(),
                forall|i: int|
                    0 <= i < vectors@.len() ==> (#[trigger] vectors@[i])@ == inner_vectors(
                        runs,
                        dim as nat,
                        key as nat,
                    )[i],
            decreases total - key,
        {
            let multi = self.get_multi(key as PointOffsetType);
            let flat: &'a [T] = multi.flattened_vectors;
            let count = flat.len() / dim;
            let ghost before = vectors@;
            proof {
                vstd::arithmetic::div_mod::lemma_fundamental_div_mod(
                    flat@.len() as int,
                    dim as int,
                );
                vstd::arithmetic::div_mod::lemma_mod_bound(flat@.len() as int, dim as int);
                assert(dim * count == count * dim) by (nonlinear_arith);
            }
            let mut i: usize = 0;
            while i < count
                invariant
                    i <= count,
                    dim > 0,
                    count * dim <= flat@.len() <= usize::MAX,
                    count == flat@.len() / (dim as nat),
                    flat@ == runs(key as int),
                    vectors@.len() == before.len() + i,
                    forall|j: int| 0 <= j < before.len() ==> vectors@[j] == before[j],
                    forall|j: int|
                        0 <= j < i ==> (#[trigger] vectors@[before.len() + j])@ == flat@.subrange(
                            j * dim,
                            j * dim + dim,
                        ),
                decreases count - i,
            {
                assert(i * dim + dim <= flat@.len()) by (nonlinear_arith)
                    requires
                        i + 1 <= count,
                        count == flat@.len() / (dim as nat),
                        dim > 0,
                ;
                let low = i * dim;
                vectors.push(vstd::slice::slice_subrange(flat, low, low + dim));
                i += 1;
            }
            key += 1;
            proof {
                let added = Seq::new(
                    runs(key - 1).len() / (dim as nat),
                    |i: int| runs(key - 1).subrange(i * dim, i * dim + dim),
                );
                assert(inner_vectors(runs, dim as nat, key as nat) == inner_vectors(
                    runs,
                    dim as nat,
                    (key - 1) as nat,
                ) + added);
                assert forall|j: int| 0 <= j < vectors@.len() implies (#[trigger] vectors@[j])@
                    == inner_vectors(runs, dim as nat, key as nat)[j] by {
                    if j >= before.len() {
                        assert(vectors@[before.len() + (j - before.len())]@ == flat@.subrange(
                            (j - before.len()) * dim,
                            (j - before.len()) * dim + dim,
                        ));
                    } else {
                        assert(vectors@[j] == before[j]);
                    }
                }
            }
        }
        vectors
    }

    fn multi_vector_config(&self) -> (r: &MultiVectorConfig)
        requires
            self.wf(),
        ensures
            *r == self.spec_multi_vector_config(),
    ;

    /// An estimate of the bytes taken by the multi-vectors that are not
    /// flagged as deleted: the bytes of all inner vectors the storage keeps,
    /// in the share that the available multi-vectors have of all.
    fn size_of_available_vectors_in_bytes(&self) -> (r: usize)
        requires
            self.wf(),
        ensures
            r == if self.model().total() == 0 {
                0
            } else {
                (self.spec_stored() * self.spec_vector_dim() * T::spec_datatype().spec_size())
                    * self.model().available_count() / self.model().total()
            },
    ;
}

} // verus!
