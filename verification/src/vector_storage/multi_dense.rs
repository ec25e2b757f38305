//! The storage of multi-vectors: for each offset a run of inner vectors.

use vstd::prelude::*;
use crate::bitmap::{
    bit_is_set, bit_limit, bits_of_bytes, flags, lemma_flags_count, max_bits, DeletionBitmap,
};
use crate::common::{
    saturating_bytes, Distance, HardwareCounterCell, MultiVectorConfig, OperationError,
    OperationResult, PointOffsetType, StorageMedium, VectorStorageDatatype,
};
use crate::paths::{CacheAdvice, CacheRequest, Flusher};
use crate::text::strings_view;
use crate::vector_storage::element::{
    from_raw_vec, lemma_raw_of_elements, ones, raw_of, to_raw_vec, PrimitiveVectorElement,
};
use crate::vector_storage::files::{
    file_names, StorageFiles, StorageFilesView, StorageKind, StorageMeta, STORAGE_FORMAT_VERSION,
};
use crate::vector_storage::model::{StorageModel, StorageShape};
use crate::vector_storage::run_store::{kept_after, runs_have_room, RunStore};
use crate::vector_storage::traits::{
    advised_files, cache_request, MultiVectorStorage, VectorStorage,
};
use crate::vector_storage::vectors::{
    MultiDenseVectorInternal, TypedMultiDenseVectorRef, VectorInternal, VectorView,
};

verus! {

/// The share `available / total` of `bytes`, rounded down.
pub fn share_of_bytes(bytes: usize, available: usize, total: usize) -> (r: usize)
    requires
        available <= total,
        total > 0,
    ensures
        r == bytes * available / (total as int),
{
    assert(bytes * available <= 0xffff_ffff_ffff_ffff * 0xffff_ffff_ffff_ffff) by (nonlinear_arith)
        requires
            0 <= bytes <= 0xffff_ffff_ffff_ffff,
            0 <= available <= 0xffff_ffff_ffff_ffff,
    ;
    let product: u128 = bytes as u128 * available as u128;
    proof {
        assert(0 <= bytes * available <= bytes * total) by (nonlinear_arith)
            requires
                0 <= available <= total,
                0 <= bytes,
        ;
        vstd::arithmetic::div_mod::lemma_div_is_ordered(
            bytes * available,
            bytes * total,
            total as int,
        );
        vstd::arithmetic::div_mod::lemma_div_multiples_vanish(bytes as int, total as int);
        assert(bytes * total == total * bytes) by (nonlinear_arith);
        vstd::arithmetic::div_mod::lemma_div_pos_is_pos(bytes * available, total as int);
    }
    (product / total as u128) as usize
}

/// Multi-vectors of inner vectors of a fixed width with elements of type `T`.
pub struct MultiDenseBacking<T> {
    store: RunStore<T>,
    deleted: DeletionBitmap,
    distance: Distance,
    multi_vector_config: MultiVectorConfig,
    medium: StorageMedium,
    populated: bool,
    path: String,
}

impl<T: PrimitiveVectorElement> MultiDenseBacking<T> {
    /// Number of elements in every inner vector.
    pub closed spec fn spec_dim(&self) -> nat {
        self.store.spec_dim()
    }

    /// An estimate of the bytes taken by the multi-vectors that are not
    /// flagged as deleted: the bytes of all inner vectors the storage keeps,
    /// in the share that the available multi-vectors have of all.
    pub open spec fn spec_available_bytes(&self) -> nat {
        if self.model().total() == 0 {
            0
        } else {
            (self.spec_stored() * self.spec_dim() * T::spec_datatype().spec_size())
                * self.model().available_count() / self.model().total()
        }
    }

    /// Largest number of inner vectors in a multi-vector.
    pub closed spec fn spec_max_count(&self) -> nat {
        self.store.spec_capacity()
    }

    /// Number of inner vectors the storage keeps, those of overwritten
    /// multi-vectors and those that fill a chunk included.
    pub closed spec fn spec_kept(&self) -> nat {
        self.store.spec_stored()
    }

    /// Number of inner vectors of `vector`.
    pub open spec fn count_of(&self, vector: VectorView) -> nat {
        match vector {
            VectorView::MultiDense { flattened, dim } => flattened.len() / self.spec_dim(),
            _ => 0,
        }
    }

    /// Whether the machine's limits leave room for the inner vectors of `vector`.
    pub open spec fn room_for(&self, vector: VectorView) -> bool {
        runs_have_room(
            self.spec_kept(),
            self.spec_max_count(),
            self.spec_dim(),
            T::spec_datatype().spec_size(),
            self.count_of(vector),
        )
    }

    /// Number of inner vectors the storage keeps once `vector` was written.
    pub open spec fn spec_kept_after(&self, vector: VectorView) -> nat {
        kept_after(self.spec_kept(), self.spec_max_count(), self.count_of(vector))
    }

    /// An empty storage of multi-vectors whose inner vectors have `dim`
    /// elements. Inner vectors are kept in chunks of `chunk_capacity`, which
    /// is also the largest number of them in one multi-vector; the table of
    /// runs is kept in chunks of `table_capacity` entries.
    pub fn new(
        medium: StorageMedium,
        path: String,
        dim: usize,
        distance: Distance,
        multi_vector_config: MultiVectorConfig,
        chunk_capacity: usize,
        table_capacity: usize,
        populated: bool,
    ) -> (r: OperationResult<Self>)
        ensures
            r is Ok <==> RunStore::<T>::valid_layout(
                dim as nat,
                chunk_capacity as nat,
                table_capacity as nat,
            ),
            r matches Err(error) ==> error == OperationError::OutOfRange,
            r matches Ok(storage) ==> {
                &&& storage.wf()
                &&& storage.model() == (StorageModel {
                    shape: StorageShape::MultiDense {
                        dim: dim as nat,
                        max_count: chunk_capacity as nat,
                    },
                    datatype: T::spec_datatype(),
                    distance,
                    vectors: Seq::empty(),
                    deleted: Seq::empty(),
                })
                &&& storage.spec_medium() == medium
                &&& storage.spec_populated() == populated
                &&& storage.spec_path() == path@
                &&& storage.spec_multi_vector_config() == multi_vector_config
                &&& storage.spec_dim() == dim
                &&& storage.spec_max_count() == chunk_capacity
                &&& storage.spec_kept() == 0
            },
    {
        let store = match RunStore::<T>::new(dim, chunk_capacity, table_capacity) {
            Ok(store) => store,
            Err(error) => {
                return Err(error);
            },
        };
        let storage = MultiDenseBacking {
            store,
            deleted: DeletionBitmap::new(),
            distance,
            multi_vector_config,
            medium,
            populated,
            path,
        };
        proof {
            assert(storage.model().vectors =~= Seq::empty());
            assert(storage.model().deleted =~= Seq::empty());
        }
        Ok(storage)
    }

    /// The storage takes its own placeholder, and its shape is that of
    /// multi-vectors of its width.
    pub proof fn lemma_placeholder(&self)
        requires
            self.wf(),
        ensures
            self.model().refusal(self.model().shape.placeholder(self.model().datatype)) is None,
            self.model().shape matches StorageShape::MultiDense { dim, max_count } && dim
                == self.spec_dim() && max_count == self.spec_max_count(),
    {
        self.store.lemma_stored_bytes();
        let dim = self.store.spec_dim();
        let max_count = self.store.spec_capacity();
        vstd::arithmetic::div_mod::lemma_mod_self_0(dim as int);
        assert(dim <= max_count * dim) by (nonlinear_arith)
            requires
                max_count >= 1,
                dim >= 0,
        ;
    }

    /// Whether `files` hold a sound storage of this kind.
    pub open spec fn readable(files: StorageFilesView) -> bool {
        &&& files.table matches Some(table) && RunStore::<T>::readable(files.data, table)
        &&& exists|storage: Self| storage.wf() && #[trigger] storage.spec_held_by(files)
    }

    /// The storage as it goes into its files.
    pub fn snapshot(&self) -> (files: StorageFiles)
        requires
            self.wf(),
        ensures
            self.spec_held_by(files@),
            Self::readable(files@),
    {
        let bits = self.deleted.to_bytes();
        let (data, table) = self.store.to_files();
        let files = StorageFiles {
            meta: StorageMeta {
                format_version: STORAGE_FORMAT_VERSION,
                kind: StorageKind::MultiDense,
                element: T::datatype(),
                dim: Some(self.store.dim() as u64),
                distance: self.distance,
                total: self.store.len() as u64,
                deleted: self.deleted.count() as u64,
                multi_vector_config: Some(self.multi_vector_config),
            },
            data,
            table: Some(table),
            deleted_bits: bits,
        };
        proof {
            self.store.lemma_held_layout(files@.data, files@.table->0);
            assert(self.spec_held_by(files@));
        }
        files
    }

    /// The storage that `files` hold, to live in the directory `path` on the
    /// given medium. Deletion flags for offsets that hold no vector are left
    /// behind: files that were written at different times may carry them.
    /// Files that do not hold a sound storage of this kind are refused.
    pub fn restore(
        path: String,
        files: &StorageFiles,
        medium: StorageMedium,
        populated: bool,
    ) -> (r: OperationResult<Self>)
        ensures
            r is Ok <==> Self::readable(files@),
            r matches Err(error) ==> error == OperationError::FormatMismatch,
            r matches Ok(storage) ==> {
                &&& storage.wf()
                &&& storage.spec_held_by(files@)
                &&& storage.spec_medium() == medium
                &&& storage.spec_populated() == populated
                &&& storage.spec_path() == path@
            },
    {
        let table = match &files.table {
            Some(table) => table,
            None => {
                return Err(OperationError::FormatMismatch);
            },
        };
        let store = match RunStore::<T>::from_files(&files.data, table) {
            Some(store) => store,
            None => {
                return Err(OperationError::FormatMismatch);
            },
        };
        let meta = files.meta;
        let element_matches = match (meta.element, T::datatype()) {
            (VectorStorageDatatype::Float32, VectorStorageDatatype::Float32) => true,
            (VectorStorageDatatype::Float16, VectorStorageDatatype::Float16) => true,
            (VectorStorageDatatype::Uint8, VectorStorageDatatype::Uint8) => true,
            _ => false,
        };
        let kind_matches = match meta.kind {
            StorageKind::MultiDense => true,
            _ => false,
        };
        let dim_matches = match meta.dim {
            Some(dim) => dim == files.data.dim,
            None => false,
        };
        let mut deleted = match DeletionBitmap::from_bytes(files.deleted_bits.as_slice()) {
            Some(deleted) => deleted,
            None => {
                return Err(OperationError::FormatMismatch);
            },
        };
        deleted.cut_to(store.len());
        let multi_vector_config = match meta.multi_vector_config {
            Some(multi_vector_config) => multi_vector_config,
            None => {
                return Err(OperationError::FormatMismatch);
            },
        };
        let storage = MultiDenseBacking {
            store,
            deleted,
            distance: meta.distance,
            multi_vector_config,
            medium,
            populated,
            path,
        };
        proof {
            storage.store.lemma_held_layout(files@.data, files@.table->0);
        }
        if meta.format_version == STORAGE_FORMAT_VERSION && kind_matches && element_matches
            && dim_matches && meta.total == table.len && storage.store.len() <= u32::MAX as usize
            {
            proof {
                assert(storage.spec_held_by(files@));
            }
            Ok(storage)
        } else {
            proof {
                if Self::readable(files@) {
                    let other = choose|other: Self|
                        other.wf() && #[trigger] other.spec_held_by(files@);
                    other.store.lemma_held_layout(files@.data, files@.table->0);
                    other.store.lemma_held_by(&storage.store, files@.data, files@.table->0);
                    other.store.lemma_same_as(&storage.store);
                }
            }
            Err(OperationError::FormatMismatch)
        }
    }

    /// Asks for every page of every file to be read in, where the storage
    /// lives in mapped files; a storage held in memory has nothing to read in.
    pub fn populate(&self) -> (r: OperationResult<CacheRequest>)
        requires
            self.wf(),
        ensures
            r matches Ok(request) && request.advice == CacheAdvice::Populate && strings_view(
                request.files@,
            ) == advised_files(self),
    {
        cache_request(self, CacheAdvice::Populate)
    }

    /// Asks for the pages of every file to be dropped from the cache, where
    /// the storage lives in mapped files.
    pub fn clear_cache(&self) -> (r: OperationResult<CacheRequest>)
        requires
            self.wf(),
        ensures
            r matches Ok(request) && request.advice == CacheAdvice::Clear && strings_view(
                request.files@,
            ) == advised_files(self),
    {
        cache_request(self, CacheAdvice::Clear)
    }

    /// One inner vector of ones, which the storage takes.
    pub fn default_vector(&self) -> (r: VectorInternal)
        requires
            self.wf(),
        ensures
            r@ == self.model().shape.placeholder(self.model().datatype),
            self.model().refusal(r@) is None,
    {
        proof {
            self.lemma_placeholder();
        }
        VectorInternal::MultiDense(
            MultiDenseVectorInternal {
                flattened_vectors: ones(T::datatype(), self.store.dim()),
                dim: self.store.dim(),
            },
        )
    }

    /// The typed elements of `vector` and the number of its inner vectors, or
    /// why the storage refuses it.
    fn accept(&self, vector: &VectorInternal) -> (r: OperationResult<(Vec<T>, usize)>)
        requires
            self.wf(),
        ensures
            match r {
                Ok((elements, count)) => {
                    &&& self.model().refusal(vector@) is None
                    &&& vector@ == (VectorView::MultiDense {
                        flattened: raw_of(elements@),
                        dim: self.store.spec_dim(),
                    })
                    &&& elements@.len() == count * self.store.spec_dim()
                    &&& 1 <= count <= self.store.spec_capacity()
                    &&& count == elements@.len() / self.store.spec_dim()
                },
                Err(error) => self.model().refusal(vector@) == Some(error),
            },
    {
        proof {
            self.store.lemma_stored_bytes();
        }
        match vector {
            VectorInternal::MultiDense(multi) => {
                let dim = self.store.dim();
                if multi.dim != dim {
                    return Err(
                        OperationError::DimensionMismatch { expected: dim, received: multi.dim },
                    );
                }
                let len = multi.flattened_vectors.len();
                let limit = self.store.capacity() * dim;
                if len == 0 || len % dim != 0 || len > limit {
                    return Err(OperationError::WrongVector);
                }
                let count = len / dim;
                proof {
                    vstd::arithmetic::div_mod::lemma_fundamental_div_mod(len as int, dim as int);
                    assert(dim * count == count * dim) by (nonlinear_arith);
                    assert(count <= self.store.spec_capacity()) by (nonlinear_arith)
                        requires
                            count * dim <= self.store.spec_capacity() * dim,
                            dim > 0,
                    ;
                    assert(count >= 1) by (nonlinear_arith)
                        requires
                            count * dim == len,
                            len > 0,
                            count >= 0,
                    ;
                }
                match from_raw_vec::<T>(multi.flattened_vectors.as_slice()) {
                    Some(elements) => {
                        proof {
                            lemma_raw_of_elements::<T>(elements@, multi.flattened_vectors@);
                        }
                        Ok((elements, count))
                    },
                    None => Err(OperationError::WrongVector),
                }
            },
            _ => Err(OperationError::WrongVector),
        }
    }

    /// Writes the `count` inner vectors of `elements` at `key`, behind blank
    /// multi-vectors where the storage ends before `key`.
    fn write(&mut self, key: usize, elements: &[T], count: usize)
        requires
            old(self).wf(),
            key < u32::MAX,
            1 <= count <= old(self).store.spec_capacity(),
            elements@.len() == count * old(self).store.spec_dim(),
            old(self).store.has_room(count as nat),
        ensures
            final(self).wf(),
            final(self).medium == old(self).medium,
            final(self).populated == old(self).populated,
            final(self).path == old(self).path,
            final(self).multi_vector_config == old(self).multi_vector_config,
            final(self).deleted == old(self).deleted,
            final(self).store.spec_dim() == old(self).store.spec_dim(),
            final(self).store.spec_capacity() == old(self).store.spec_capacity(),
            final(self).store.spec_stored() == kept_after(
                old(self).store.spec_stored(),
                old(self).store.spec_capacity(),
                count as nat,
            ),
            final(self).model() == old(self).model().inserted(
                key as nat,
                VectorView::MultiDense {
                    flattened: raw_of(elements@),
                    dim: old(self).store.spec_dim(),
                },
            ),
    {
        self.store.insert(key, elements, count);
        proof {
            let expected = old(self).model().inserted(
                key as nat,
                VectorView::MultiDense {
                    flattened: raw_of(elements@),
                    dim: old(self).store.spec_dim(),
                },
            );
            assert(raw_of(Seq::<T>::empty()) =~= Seq::<u32>::empty());
            assert forall|k: int| 0 <= k < expected.vectors.len() implies
                #[trigger] self.model().vectors[k]
                == expected.vectors[k] by {
                if k != key && k < old(self).store.spec_len() {
                    assert(self.store.spec_run(k) == old(self).store.spec_run(k));
                } else if k != key {
                    assert(self.store.spec_run(k) == Seq::<T>::empty());
                }
            }
            assert(self.model().vectors =~= expected.vectors);
            assert(self.model().deleted =~= expected.deleted);
        }
    }

    /// Whether the bitmap marks no offset at or past the end of the storage.
    closed spec fn flags_within(&self) -> bool {
        forall|key: int| key >= self.store.spec_len() ==> !#[trigger] bit_is_set(self.deleted@, key)
    }
}

impl<T: PrimitiveVectorElement> VectorStorage for MultiDenseBacking<T> {
    closed spec fn wf(&self) -> bool {
        &&& self.store.wf()
        &&& self.deleted.wf()
        &&& self.store.spec_len() <= u32::MAX
        &&& self.flags_within()
    }

    closed spec fn model(&self) -> StorageModel {
        StorageModel {
            shape: StorageShape::MultiDense {
                dim: self.store.spec_dim(),
                max_count: self.store.spec_capacity(),
            },
            datatype: T::spec_datatype(),
            distance: self.distance,
            vectors: Seq::new(
                self.store.spec_len(),
                |key: int|
                    VectorView::MultiDense {
                        flattened: raw_of(self.store.spec_run(key)),
                        dim: self.store.spec_dim(),
                    },
            ),
            deleted: flags(self.deleted@, self.store.spec_len()),
        }
    }

    open spec fn has_room(&self, key: nat, vector: VectorView) -> bool {
        self.room_for(vector)
    }

    closed spec fn spec_medium(&self) -> StorageMedium {
        self.medium
    }

    closed spec fn spec_populated(&self) -> bool {
        self.populated
    }

    closed spec fn spec_path(&self) -> Seq<char> {
        self.path@
    }

    closed spec fn spec_chunk_counts(&self) -> (nat, nat) {
        self.store.spec_chunk_counts()
    }

    closed spec fn spec_held_by(&self, files: StorageFilesView) -> bool {
        &&& files.meta.format_version == STORAGE_FORMAT_VERSION
        &&& files.meta.kind == StorageKind::MultiDense
        &&& files.meta.element == T::spec_datatype()
        &&& files.meta.dim == Some(self.store.spec_dim() as u64)
        &&& files.meta.distance == self.distance
        &&& files.meta.total == self.store.spec_len()
        &&& files.meta.multi_vector_config == Some(self.multi_vector_config)
        &&& files.table matches Some(table) && self.store.held_by(files.data, table)
        &&& 8 * files.deleted_bits.len() <= max_bits()
        &&& forall|key: int|
            0 <= key < self.store.spec_len() ==> bit_is_set(
                bits_of_bytes(files.deleted_bits),
                key,
            ) == bit_is_set(self.deleted@, key)
    }

    proof fn lemma_meta(&self, files: StorageFilesView) {
    }

    proof fn lemma_held_by(&self, other: &Self, files: StorageFilesView) {
        let table = files.table->0;
        self.store.lemma_held_by(&other.store, files.data, table);
        self.store.lemma_same_as(&other.store);
        assert(self.model().vectors =~= other.model().vectors);
        assert(self.model().deleted =~= other.model().deleted);
    }

    proof fn lemma_model_wf(&self) {
    }

    fn distance(&self) -> (r: Distance) {
        self.distance
    }

    fn datatype(&self) -> (r: VectorStorageDatatype) {
        T::datatype()
    }

    fn medium(&self) -> (r: StorageMedium) {
        self.medium
    }

    fn is_on_disk(&self) -> (r: bool) {
        self.medium.is_mapped() && !self.populated
    }

    fn total_vector_count(&self) -> (r: usize) {
        self.store.len()
    }

    fn get_vector(&self, key: PointOffsetType) -> (r: VectorInternal) {
        VectorInternal::MultiDense(
            MultiDenseVectorInternal {
                flattened_vectors: to_raw_vec(self.store.get(key as usize)),
                dim: self.store.dim(),
            },
        )
    }

    fn get_vector_sequential(&self, key: PointOffsetType) -> (r: VectorInternal) {
        self.get_vector(key)
    }

    fn get_vector_opt(&self, key: PointOffsetType) -> (r: Option<VectorInternal>) {
        if (key as usize) < self.store.len() {
            Some(self.get_vector(key))
        } else {
            None
        }
    }

    fn insert_vector(
        &mut self,
        key: PointOffsetType,
        vector: &VectorInternal,
        hw_counter: &mut HardwareCounterCell,
    ) -> (r: OperationResult<()>)
        ensures
            final(self).spec_dim() == old(self).spec_dim(),
            final(self).spec_max_count() == old(self).spec_max_count(),
            final(self).spec_kept() == if r is Ok {
                old(self).spec_kept_after(vector@)
            } else {
                old(self).spec_kept()
            },
    {
        let (elements, count) = match self.accept(vector) {
            Ok(accepted) => accepted,
            Err(error) => {
                return Err(error);
            },
        };
        if key == u32::MAX || !self.store.check_room(count) {
            return Err(OperationError::OutOfRange);
        }
        self.write(key as usize, elements.as_slice(), count);
        let bytes = saturating_bytes(elements.len(), T::datatype().size());
        hw_counter.incr_vector_io_write(bytes);
        Ok(())
    }

    fn append_vector(&mut self, vector: &VectorInternal, deleted: bool) -> (r: OperationResult<
        PointOffsetType,
    >)
        ensures
            final(self).spec_dim() == old(self).spec_dim(),
            final(self).spec_max_count() == old(self).spec_max_count(),
            final(self).spec_kept() == if r is Ok {
                old(self).spec_kept_after(vector@)
            } else {
                old(self).spec_kept()
            },
    {
        let (elements, count) = match self.accept(vector) {
            Ok(accepted) => accepted,
            Err(error) => {
                return Err(error);
            },
        };
        let key = self.store.len();
        if key >= u32::MAX as usize || !self.store.check_room(count) {
            return Err(OperationError::OutOfRange);
        }
        if deleted && key >= bit_limit() {
            return Err(OperationError::OutOfRange);
        }
        self.write(key, elements.as_slice(), count);
        let ghost written = self.model();
        if deleted {
            self.deleted.mark(key as PointOffsetType);
            proof {
                assert(self.model().deleted =~= written.deleted.update(key as int, true));
            }
        }
        proof {
            let expected = old(self).model().appended(vector@, deleted);
            assert(self.model().vectors =~= expected.vectors);
            assert(self.model().deleted =~= expected.deleted);
        }
        Ok(key as PointOffsetType)
    }

    fn flusher(&self) -> (r: Flusher) {
        if self.medium.is_persisted() {
            Flusher { files: Vec::new(), storage: Some(self.snapshot()) }
        } else {
            Flusher { files: Vec::new(), storage: None }
        }
    }

    fn files(&self) -> (r: Vec<String>) {
        if self.medium.is_persisted() {
            let (data, table) = self.store.chunk_counts();
            file_names(self.path.as_str(), StorageKind::MultiDense, data, table)
        } else {
            let names: Vec<String> = Vec::new();
            assert(strings_view(names@) =~= Seq::<Seq<char>>::empty());
            names
        }
    }

    fn delete_vector(&mut self, key: PointOffsetType) -> (r: OperationResult<bool>) {
        if key as usize >= self.store.len() {
            return Ok(false);
        }
        if key as usize >= bit_limit() {
            return Err(OperationError::OutOfRange);
        }
        let flipped = self.deleted.mark(key);
        proof {
            assert(self.model().deleted =~= old(self).model().deleted.update(key as int, true));
        }
        Ok(flipped)
    }

    fn is_deleted_vector(&self, key: PointOffsetType) -> (r: bool) {
        self.deleted.is_set(key)
    }

    fn deleted_vector_count(&self) -> (r: usize) {
        proof {
            self.deleted.lemma_count();
            lemma_flags_count(self.deleted@, self.store.spec_len());
        }
        self.deleted.count()
    }

    fn deleted_vector_bitslice(&self) -> (r: &DeletionBitmap) {
        &self.deleted
    }
}

impl<T: PrimitiveVectorElement> MultiVectorStorage<T> for MultiDenseBacking<T> {
    closed spec fn spec_multi(&self, key: int) -> Seq<T> {
        self.store.spec_run(key)
    }

    open spec fn spec_vector_dim(&self) -> nat {
        self.spec_dim()
    }

    closed spec fn spec_multi_vector_config(&self) -> MultiVectorConfig {
        self.multi_vector_config
    }

    open spec fn spec_stored(&self) -> nat {
        self.spec_kept()
    }

    proof fn lemma_multi_model(&self) {
        self.store.lemma_stored_bytes();
        assert(self.spec_stored() == self.store.spec_stored());
        assert(self.spec_vector_dim() == self.store.spec_dim());
        assert forall|key: int| 0 <= key < self.model().total() implies self.spec_multi(key).len()
            % self.spec_vector_dim() == 0 by {
            self.store.lemma_run_len(key);
            vstd::arithmetic::div_mod::lemma_mod_multiples_basic(
                self.store.spec_count(key) as int,
                self.store.spec_dim() as int,
            );
        }
    }

    fn vector_dim(&self) -> (r: usize) {
        self.store.dim()
    }

    fn get_multi<'a>(&'a self, key: PointOffsetType) -> (r: TypedMultiDenseVectorRef<'a, T>) {
        TypedMultiDenseVectorRef {
            flattened_vectors: self.store.get(key as usize),
            dim: self.store.dim(),
        }
    }

    fn get_multi_opt<'a>(&'a self, key: PointOffsetType) -> (r: Option<
        TypedMultiDenseVectorRef<'a, T>,
    >) {
        if (key as usize) < self.store.len() {
            Some(self.get_multi(key))
        } else {
            None
        }
    }

    fn get_multi_opt_sequential<'a>(&'a self, key: PointOffsetType) -> (r: Option<
        TypedMultiDenseVectorRef<'a, T>,
    >) {
        self.get_multi_opt(key)
    }

    fn multi_vector_config(&self) -> (r: &MultiVectorConfig) {
        &self.multi_vector_config
    }

    fn size_of_available_vectors_in_bytes(&self) -> (r: usize) {
        proof {
            self.store.lemma_stored_bytes();
            self.lemma_model_wf();
            crate::bitmap::lemma_count_set_bound(self.model().deleted);
        }
        let total = self.total_vector_count();
        if total == 0 {
            return 0;
        }
        let stored = self.store.stored();
        let dim = self.store.dim();
        let size = T::datatype().size();
        assert(0 <= stored * dim <= stored * dim * size) by (nonlinear_arith)
            requires
                0 <= stored,
                0 <= dim,
                1 <= size,
        ;
        share_of_bytes(stored * dim * size, self.available_vector_count(), total)
    }
}

} // verus!
