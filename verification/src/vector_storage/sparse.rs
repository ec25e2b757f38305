//! The storage of sparse vectors: for each offset a run of `(index, value)`
//! pairs.

use vstd::prelude::*;
use crate::bitmap::{
    bit_is_set, bit_limit, bits_of_bytes, flags, lemma_flags_count, max_bits, DeletionBitmap,
};
use crate::common::{
    saturating_bytes, Distance, HardwareCounterCell, OperationError, OperationResult,
    PointOffsetType, StorageMedium, VectorStorageDatatype,
};
use crate::paths::{CacheAdvice, CacheRequest, Flusher};
use crate::text::strings_view;
use crate::vector_storage::files::{
    file_names, StorageFiles, StorageFilesView, StorageKind, StorageMeta, STORAGE_FORMAT_VERSION,
};
use crate::vector_storage::model::{StorageModel, StorageShape};
use crate::vector_storage::multi_dense::share_of_bytes;
use crate::vector_storage::run_store::{kept_after, runs_have_room, RunStore};
use crate::vector_storage::traits::{
    advised_files, cache_request, SparseVectorStorage, VectorStorage,
};
use crate::vector_storage::vectors::{
    evens, lemma_interleaved, odds, SparseVector, VectorInternal, VectorView,
};

verus! {

/// Sparse vectors with 32-bit indices and single-precision values.
pub struct SparseBacking {
    store: RunStore<u32>,
    deleted: DeletionBitmap,
    medium: StorageMedium,
    populated: bool,
    path: String,
}

impl SparseBacking {
    /// An estimate of the bytes taken by the vectors that are not flagged as
    /// deleted: the bytes of all pairs the storage keeps, eight for each, in
    /// the share that the available vectors have of all.
    pub open spec fn spec_available_bytes(&self) -> nat {
        if self.model().total() == 0 {
            0
        } else {
            (self.spec_stored() * 8) * self.model().available_count() / self.model().total()
        }
    }

    /// Largest number of entries in a vector.
    pub closed spec fn spec_max_count(&self) -> nat {
        self.store.spec_capacity()
    }

    /// Number of pairs the storage keeps, those of overwritten vectors and
    /// those that fill a chunk included.
    pub closed spec fn spec_stored(&self) -> nat {
        self.store.spec_stored()
    }

    /// Number of entries of `vector`.
    pub open spec fn count_of(vector: VectorView) -> nat {
        match vector {
            VectorView::Sparse { indices, values } => indices.len(),
            _ => 0,
        }
    }

    /// Whether a chunk can hold the entries of `vector`, and the machine's
    /// limits leave room for them.
    pub open spec fn room_for(&self, vector: VectorView) -> bool {
        Self::count_of(vector) <= self.spec_max_count() && (Self::count_of(vector) > 0
            ==> runs_have_room(
            self.spec_stored(),
            self.spec_max_count(),
            2,
            4,
            Self::count_of(vector),
        ))
    }

    /// Number of pairs the storage keeps once `vector` was written.
    pub open spec fn spec_stored_after(&self, vector: VectorView) -> nat {
        kept_after(self.spec_stored(), self.spec_max_count(), Self::count_of(vector))
    }

    /// An empty storage of sparse vectors. Pairs are kept in chunks of
    /// `chunk_capacity`, which is also the largest number of entries in one
    /// vector; the table of runs is kept in chunks of `table_capacity` entries.
    pub fn new(
        medium: StorageMedium,
        path: String,
        chunk_capacity: usize,
        table_capacity: usize,
        populated: bool,
    ) -> (r: OperationResult<Self>)
        ensures
            r is Ok <==> RunStore::<u32>::valid_layout(
                2,
                chunk_capacity as nat,
                table_capacity as nat,
            ),
            r matches Err(error) ==> error == OperationError::OutOfRange,
            r matches Ok(storage) ==> {
                &&& storage.wf()
                &&& storage.model() == (StorageModel {
                    shape: StorageShape::Sparse,
                    datatype: VectorStorageDatatype::Float32,
                    distance: Distance::Dot,
                    vectors: Seq::empty(),
                    deleted: Seq::empty(),
                })
                &&& storage.spec_medium() == medium
                &&& storage.spec_populated() == populated
                &&& storage.spec_path() == path@
                &&& storage.spec_max_count() == chunk_capacity
                &&& storage.spec_stored() == 0
            },
    {
        let store = match RunStore::<u32>::new(2, chunk_capacity, table_capacity) {
            Ok(store) => store,
            Err(error) => {
                return Err(error);
            },
        };
        let storage = SparseBacking {
            store,
            deleted: DeletionBitmap::new(),
            medium,
            populated,
            path,
        };
        proof {
            assert(storage.model().vectors =~= Seq::empty());
            assert(storage.model().deleted =~= Seq::empty());
        }
        Ok(storage)
    }

    /// The storage keeps sparse vectors with single-precision values, and
    /// takes the vector without entries.
    pub proof fn lemma_sparse_model(&self)
        requires
            self.wf(),
        ensures
            self.model().shape == StorageShape::Sparse,
            self.model().datatype == VectorStorageDatatype::Float32,
            self.model().refusal(self.model().shape.placeholder(self.model().datatype)) is None,
    {
    }

    /// Whether `files` hold a sound storage of this kind.
    pub open spec fn readable(files: StorageFilesView) -> bool {
        &&& files.table matches Some(table) && RunStore::<u32>::readable(files.data, table)
        &&& exists|storage: Self| storage.wf() && #[trigger] storage.spec_held_by(files)
    }

    /// The storage as it goes into its files.
    pub fn snapshot(&self) -> (files: StorageFiles)
        requires
            self.wf(),
        ensures
            self.spec_held_by(files@),
            Self::readable(files@),
    {
        let bits = self.deleted.to_bytes();
        let (data, table) = self.store.to_files();
        let files = StorageFiles {
            meta: StorageMeta {
                format_version: STORAGE_FORMAT_VERSION,
                kind: StorageKind::Sparse,
                element: VectorStorageDatatype::Float32,
                dim: None,
                distance: Distance::Dot,
                total: self.store.len() as u64,
                deleted: self.deleted.count() as u64,
                multi_vector_config: None,
            },
            data,
            table: Some(table),
            deleted_bits: bits,
        };
        proof {
            self.store.lemma_held_layout(files@.data, files@.table->0);
            assert(self.spec_held_by(files@));
        }
        files
    }

    /// The storage that `files` hold, to live in the directory `path` on the
    /// given medium. Deletion flags for offsets that hold no vector are left
    /// behind: files that were written at different times may carry them.
    /// Files that do not hold a sound storage of this kind are refused.
    pub fn restore(
        path: String,
        files: &StorageFiles,
        medium: StorageMedium,
        populated: bool,
    ) -> (r: OperationResult<Self>)
        ensures
            r is Ok <==> Self::readable(files@),
            r matches Err(error) ==> error == OperationError::FormatMismatch,
            r matches Ok(storage) ==> {
                &&& storage.wf()
                &&& storage.spec_held_by(files@)
                &&& storage.spec_medium() == medium
                &&& storage.spec_populated() == populated
                &&& storage.spec_path() == path@
            },
    {
        let table = match &files.table {
            Some(table) => table,
            None => {
                return Err(OperationError::FormatMismatch);
            },
        };
        let store = match RunStore::<u32>::from_files(&files.data, table) {
            Some(store) => store,
            None => {
                return Err(OperationError::FormatMismatch);
            },
        };
        let meta = files.meta;
        let element_matches = match meta.element {
            VectorStorageDatatype::Float32 => true,
            _ => false,
        };
        let kind_matches = match meta.kind {
            StorageKind::Sparse => true,
            _ => false,
        };
        let distance_matches = match meta.distance {
            Distance::Dot => true,
            _ => false,
        };
        let mut deleted = match DeletionBitmap::from_bytes(files.deleted_bits.as_slice()) {
            Some(deleted) => deleted,
            None => {
                return Err(OperationError::FormatMismatch);
            },
        };
        deleted.cut_to(store.len());
        let storage = SparseBacking { store, deleted, medium, populated, path };
        proof {
            storage.store.lemma_held_layout(files@.data, files@.table->0);
        }
        if meta.format_version == STORAGE_FORMAT_VERSION && kind_matches && element_matches
            && distance_matches && meta.dim.is_none() && meta.multi_vector_config.is_none()
            && meta.total == table.len && storage.store.len() <= u32::MAX as usize
            && storage.store.dim() == 2 {
            proof {
                assert(storage.spec_held_by(files@));
            }
            Ok(storage)
        } else {
            proof {
                if Self::readable(files@) {
                    let other = choose|other: Self|
                        other.wf() && #[trigger] other.spec_held_by(files@);
                    other.store.lemma_held_layout(files@.data, files@.table->0);
                    other.store.lemma_held_by(&storage.store, files@.data, files@.table->0);
                    other.store.lemma_same_as(&storage.store);
                }
            }
            Err(OperationError::FormatMismatch)
        }
    }

    /// Asks for every page of every file to be read in, where the storage
    /// lives in mapped files; a storage held in memory has nothing to read in.
    pub fn populate(&self) -> (r: OperationResult<CacheRequest>)
        requires
            self.wf(),
        ensures
            r matches Ok(request) && request.advice == CacheAdvice::Populate && strings_view(
                request.files@,
            ) == advised_files(self),
    {
        cache_request(self, CacheAdvice::Populate)
    }

    /// Asks for the pages of every file to be dropped from the cache, where
    /// the storage lives in mapped files.
    pub fn clear_cache(&self) -> (r: OperationResult<CacheRequest>)
        requires
            self.wf(),
        ensures
            r matches Ok(request) && request.advice == CacheAdvice::Clear && strings_view(
                request.files@,
            ) == advised_files(self),
    {
        cache_request(self, CacheAdvice::Clear)
    }

    /// The vector without entries, which the storage takes.
    pub fn default_vector(&self) -> (r: VectorInternal)
        requires
            self.wf(),
        ensures
            r@ == self.model().shape.placeholder(self.model().datatype),
            self.model().refusal(r@) is None,
    {
        VectorInternal::Sparse(SparseVector::empty())
    }

    /// The pairs of `vector`, or why the storage refuses it.
    fn accept(&self, vector: &VectorInternal) -> (r: OperationResult<Vec<u32>>)
        requires
            self.wf(),
        ensures
            match r {
                Ok(pairs) => {
                    &&& self.model().refusal(vector@) is None
                    &&& vector@ == (VectorView::Sparse {
                        indices: evens(pairs@),
                        values: odds(pairs@),
                    })
                    &&& pairs@.len() == 2 * evens(pairs@).len()
                },
                Err(error) => self.model().refusal(vector@) == Some(error),
            },
    {
        match vector {
            VectorInternal::Sparse(sparse) => {
                if !sparse.is_valid() {
                    return Err(OperationError::InvalidSparse);
                }
                let pairs = sparse.to_pairs();
                proof {
                    lemma_interleaved(sparse.indices@, sparse.values@);
                }
                Ok(pairs)
            },
            _ => Err(OperationError::WrongVector),
        }
    }

    /// Whether a chunk can hold `count` entries, and the machine's limits
    /// leave room for them.
    fn check_room(&self, count: usize) -> (r: bool)
        requires
            self.wf(),
        ensures
            r == (count <= self.store.spec_capacity() && (count > 0 ==> self.store.has_room(
                count as nat,
            ))),
    {
        if count > self.store.capacity() {
            return false;
        }
        if count == 0 {
            return true;
        }
        self.store.check_room(count)
    }

    /// Writes the entries of `pairs` at `key`, behind empty vectors where the
    /// storage ends before `key`.
    fn write(&mut self, key: usize, pairs: &[u32])
        requires
            old(self).wf(),
            key < u32::MAX,
            pairs@.len() == 2 * (pairs@.len() / 2),
            pairs@.len() / 2 <= old(self).store.spec_capacity(),
            pairs@.len() > 0 ==> old(self).store.has_room(pairs@.len() / 2),
        ensures
            final(self).wf(),
            final(self).medium == old(self).medium,
            final(self).populated == old(self).populated,
            final(self).path == old(self).path,
            final(self).deleted == old(self).deleted,
            final(self).store.spec_capacity() == old(self).store.spec_capacity(),
            final(self).store.spec_stored() == kept_after(
                old(self).store.spec_stored(),
                old(self).store.spec_capacity(),
                pairs@.len() / 2,
            ),
            final(self).model() == old(self).model().inserted(
                key as nat,
                VectorView::Sparse { indices: evens(pairs@), values: odds(pairs@) },
            ),
    {
        proof {
            self.store.lemma_stored_bytes();
        }
        let count = pairs.len() / 2;
        self.store.insert(key, pairs, count);
        proof {
            let expected = old(self).model().inserted(
                key as nat,
                VectorView::Sparse { indices: evens(pairs@), values: odds(pairs@) },
            );
            assert(evens(Seq::<u32>::empty()) =~= Seq::<u32>::empty());
            assert(odds(Seq::<u32>::empty()) =~= Seq::<u32>::empty());
            assert forall|k: int| 0 <= k < expected.vectors.len() implies
                #[trigger] self.model().vectors[k]
                == expected.vectors[k] by {
                if k != key && k < old(self).store.spec_len() {
                    assert(self.store.spec_run(k) == old(self).store.spec_run(k));
                } else if k != key {
                    assert(self.store.spec_run(k) == Seq::<u32>::empty());
                }
            }
            assert(self.model().vectors =~= expected.vectors);
            assert(self.model().deleted =~= expected.deleted);
        }
    }

    /// Whether the bitmap marks no offset at or past the end of the storage.
    closed spec fn flags_within(&self) -> bool {
        forall|key: int| key >= self.store.spec_len() ==> !#[trigger] bit_is_set(self.deleted@, key)
    }

    /// An estimate of the bytes taken by the vectors that are not flagged as
    /// deleted: the bytes of all pairs the storage keeps, in the share that
    /// the available vectors have of all.
    pub fn size_of_available_vectors_in_bytes(&self) -> (r: usize)
        requires
            self.wf(),
        ensures
            r == self.spec_available_bytes(),
    {
        proof {
            self.store.lemma_stored_bytes();
            self.lemma_model_wf();
            crate::bitmap::lemma_count_set_bound(self.model().deleted);
            assert(self.store.spec_stored() * 2 * 4 == self.store.spec_stored() * 8)
                by (nonlinear_arith);
        }
        let total = self.total_vector_count();
        if total == 0 {
            return 0;
        }
        let stored = self.store.stored();
        share_of_bytes(stored * 8, self.available_vector_count(), total)
    }
}

impl VectorStorage for SparseBacking {
    closed spec fn wf(&self) -> bool {
        &&& self.store.wf()
        &&& self.store.spec_dim() == 2
        &&& self.deleted.wf()
        &&& self.store.spec_len() <= u32::MAX
        &&& self.flags_within()
    }

    closed spec fn model(&self) -> StorageModel {
        StorageModel {
            shape: StorageShape::Sparse,
            datatype: VectorStorageDatatype::Float32,
            distance: Distance::Dot,
            vectors: Seq::new(
                self.store.spec_len(),
                |key: int|
                    VectorView::Sparse {
                        indices: evens(self.store.spec_run(key)),
                        values: odds(self.store.spec_run(key)),
                    },
            ),
            deleted: flags(self.deleted@, self.store.spec_len()),
        }
    }

    open spec fn has_room(&self, key: nat, vector: VectorView) -> bool {
        self.room_for(vector)
    }

    closed spec fn spec_medium(&self) -> StorageMedium {
        self.medium
    }

    closed spec fn spec_populated(&self) -> bool {
        self.populated
    }

    closed spec fn spec_path(&self) -> Seq<char> {
        self.path@
    }

    closed spec fn spec_chunk_counts(&self) -> (nat, nat) {
        self.store.spec_chunk_counts()
    }

    closed spec fn spec_held_by(&self, files: StorageFilesView) -> bool {
        &&& files.meta.format_version == STORAGE_FORMAT_VERSION
        &&& files.meta.kind == StorageKind::Sparse
        &&& files.meta.element == VectorStorageDatatype::Float32
        &&& files.meta.dim is None
        &&& files.meta.distance == Distance::Dot
        &&& files.meta.total == self.store.spec_len()
        &&& files.meta.multi_vector_config is None
        &&& files.table matches Some(table) && self.store.held_by(files.data, table)
        &&& 8 * files.deleted_bits.len() <= max_bits()
        &&& forall|key: int|
            0 <= key < self.store.spec_len() ==> bit_is_set(
                bits_of_bytes(files.deleted_bits),
                key,
            ) == bit_is_set(self.deleted@, key)
    }

    proof fn lemma_meta(&self, files: StorageFilesView) {
    }

    proof fn lemma_held_by(&self, other: &Self, files: StorageFilesView) {
        let table = files.table->0;
        self.store.lemma_held_by(&other.store, files.data, table);
        self.store.lemma_same_as(&other.store);
        assert(self.model().vectors =~= other.model().vectors);
        assert(self.model().deleted =~= other.model().deleted);
    }

    proof fn lemma_model_wf(&self) {
    }

    fn distance(&self) -> (r: Distance) {
        Distance::Dot
    }

    fn datatype(&self) -> (r: VectorStorageDatatype) {
        VectorStorageDatatype::Float32
    }

    fn medium(&self) -> (r: StorageMedium) {
        self.medium
    }

    fn is_on_disk(&self) -> (r: bool) {
        self.medium.is_mapped() && !self.populated
    }

    fn total_vector_count(&self) -> (r: usize) {
        self.store.len()
    }

    fn get_vector(&self, key: PointOffsetType) -> (r: VectorInternal) {
        VectorInternal::Sparse(SparseVector::from_pairs(self.store.get(key as usize)))
    }

    fn get_vector_sequential(&self, key: PointOffsetType) -> (r: VectorInternal) {
        self.get_vector(key)
    }

    fn get_vector_opt(&self, key: PointOffsetType) -> (r: Option<VectorInternal>) {
        if (key as usize) < self.store.len() {
            Some(self.get_vector(key))
        } else {
            None
        }
    }

    fn insert_vector(
        &mut self,
        key: PointOffsetType,
        vector: &VectorInternal,
        hw_counter: &mut HardwareCounterCell,
    ) -> (r: OperationResult<()>)
        ensures
            final(self).spec_max_count() == old(self).spec_max_count(),
            final(self).spec_stored() == if r is Ok {
                old(self).spec_stored_after(vector@)
            } else {
                old(self).spec_stored()
            },
    {
        let pairs = match self.accept(vector) {
            Ok(pairs) => pairs,
            Err(error) => {
                return Err(error);
            },
        };
        if key == u32::MAX || !self.check_room(pairs.len() / 2) {
            return Err(OperationError::OutOfRange);
        }
        self.write(key as usize, pairs.as_slice());
        let bytes = saturating_bytes(pairs.len(), 4);
        hw_counter.incr_vector_io_write(bytes);
        Ok(())
    }

    fn append_vector(&mut self, vector: &VectorInternal, deleted: bool) -> (r: OperationResult<
        PointOffsetType,
    >)
        ensures
            final(self).spec_max_count() == old(self).spec_max_count(),
            final(self).spec_stored() == if r is Ok {
                old(self).spec_stored_after(vector@)
            } else {
                old(self).spec_stored()
            },
    {
        let pairs = match self.accept(vector) {
            Ok(pairs) => pairs,
            Err(error) => {
                return Err(error);
            },
        };
        let key = self.store.len();
        if key >= u32::MAX as usize || !self.check_room(pairs.len() / 2) {
            return Err(OperationError::OutOfRange);
        }
        if deleted && key >= bit_limit() {
            return Err(OperationError::OutOfRange);
        }
        self.write(key, pairs.as_slice());
        let ghost written = self.model();
        if deleted {
            self.deleted.mark(key as PointOffsetType);
            proof {
                assert(self.model().deleted =~= written.deleted.update(key as int, true));
            }
        }
        proof {
            let expected = old(self).model().appended(vector@, deleted);
            assert(self.model().vectors =~= expected.vectors);
            assert(self.model().deleted =~= expected.deleted);
        }
        Ok(key as PointOffsetType)
    }

    fn flusher(&self) -> (r: Flusher) {
        if self.medium.is_persisted() {
            Flusher { files: Vec::new(), storage: Some(self.snapshot()) }
        } else {
            Flusher { files: Vec::new(), storage: None }
        }
    }

    fn files(&self) -> (r: Vec<String>) {
        if self.medium.is_persisted() {
            let (data, table) = self.store.chunk_counts();
            file_names(self.path.as_str(), StorageKind::Sparse, data, table)
        } else {
            let names: Vec<String> = Vec::new();
            assert(strings_view(names@) =~= Seq::<Seq<char>>::empty());
            names
        }
    }

    fn delete_vector(&mut self, key: PointOffsetType) -> (r: OperationResult<bool>) {
        if key as usize >= self.store.len() {
            return Ok(false);
        }
        if key as usize >= bit_limit() {
            return Err(OperationError::OutOfRange);
        }
        let flipped = self.deleted.mark(key);
        proof {
            assert(self.model().deleted =~= old(self).model().deleted.update(key as int, true));
        }
        Ok(flipped)
    }

    fn is_deleted_vector(&self, key: PointOffsetType) -> (r: bool) {
        self.deleted.is_set(key)
    }

    fn deleted_vector_count(&self) -> (r: usize) {
        proof {
            self.deleted.lemma_count();
            lemma_flags_count(self.deleted@, self.store.spec_len());
        }
        self.deleted.count()
    }

    fn deleted_vector_bitslice(&self) -> (r: &DeletionBitmap) {
        &self.deleted
    }
}

impl SparseVectorStorage for SparseBacking {
    fn get_sparse(&self, key: PointOffsetType) -> (r: OperationResult<SparseVector>) {
        Ok(SparseVector::from_pairs(self.store.get(key as usize)))
    }

    fn get_sparse_sequential(&self, key: PointOffsetType) -> (r: OperationResult<SparseVector>) {
        self.get_sparse(key)
    }

    fn get_sparse_opt(&self, key: PointOffsetType) -> (r: OperationResult<Option<SparseVector>>) {
        if (key as usize) < self.store.len() {
            Ok(Some(SparseVector::from_pairs(self.store.get(key as usize))))
        } else {
            Ok(None)
        }
    }
}

} // verus!
