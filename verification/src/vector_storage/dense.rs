//! The storage of dense vectors: one record of a chunked array per offset.

use vstd::prelude::*;
use crate::bitmap::{
    bit_is_set, bit_limit, bits_of_bytes, flags, lemma_flags_count, max_bits, DeletionBitmap,
};
use crate::common::{
    saturating_bytes, Distance, HardwareCounterCell, OperationError, OperationResult,
    PointOffsetType, StorageMedium, VectorStorageDatatype,
};
use crate::paths::{CacheAdvice, CacheRequest, Flusher};
use crate::text::strings_view;
use crate::vector_storage::chunked::{chunks_needed, ChunkedVectors};
use crate::vector_storage::element::{
    from_raw_vec, lemma_raw_of_elements, ones, raw_of, to_raw_vec, zeros, PrimitiveVectorElement,
};
use crate::vector_storage::files::{
    file_names, StorageFiles, StorageFilesView, StorageKind, StorageMeta, STORAGE_FORMAT_VERSION,
};
use crate::vector_storage::model::{StorageModel, StorageShape};
use crate::vector_storage::traits::{
    advised_files, cache_request, DenseVectorStorage, VectorStorage,
};
use crate::vector_storage::vectors::{VectorInternal, VectorView};

verus! {

/// Dense vectors of a fixed width with elements of type `T`.
pub struct DenseBacking<T> {
    vectors: ChunkedVectors<T>,
    deleted: DeletionBitmap,
    distance: Distance,
    medium: StorageMedium,
    populated: bool,
    path: String,
}

impl<T: PrimitiveVectorElement> DenseBacking<T> {
    /// Number of elements in every vector.
    pub closed spec fn spec_dim(&self) -> nat {
        self.vectors.spec_dim()
    }

    /// Bytes taken by the vectors that are not flagged as deleted: their
    /// number times their width times the size of an element.
    pub open spec fn spec_available_bytes(&self) -> nat {
        self.model().available_count() * self.spec_dim() * T::spec_datatype().spec_size()
    }

    /// Number of records in a full chunk.
    pub closed spec fn spec_chunk_capacity(&self) -> nat {
        self.vectors.spec_capacity()
    }

    /// Whether a storage of the given width and chunk capacity can be made:
    /// neither is zero, and the bytes of a chunk can be counted.
    pub open spec fn valid_layout(dim: nat, chunk_capacity: nat) -> bool {
        &&& dim > 0
        &&& chunk_capacity > 0
        &&& chunk_capacity * dim * T::spec_datatype().spec_size() <= usize::MAX
    }

    /// An empty storage of vectors of `dim` elements, kept in chunks of
    /// `chunk_capacity` vectors.
    pub fn new(
        medium: StorageMedium,
        path: String,
        dim: usize,
        distance: Distance,
        chunk_capacity: usize,
        populated: bool,
    ) -> (r: OperationResult<Self>)
        ensures
            r is Ok <==> Self::valid_layout(dim as nat, chunk_capacity as nat),
            r matches Err(error) ==> error == OperationError::OutOfRange,
            r matches Ok(storage) ==> {
                &&& storage.wf()
                &&& storage.model() == (StorageModel {
                    shape: StorageShape::Dense { dim: dim as nat },
                    datatype: T::spec_datatype(),
                    distance,
                    vectors: Seq::empty(),
                    deleted: Seq::empty(),
                })
                &&& storage.spec_medium() == medium
                &&& storage.spec_populated() == populated
                &&& storage.spec_path() == path@
                &&& storage.spec_chunk_capacity() == chunk_capacity
                &&& storage.spec_dim() == dim
            },
    {
        let size = T::datatype().size();
        if dim == 0 || chunk_capacity == 0 {
            return Err(OperationError::OutOfRange);
        }
        let elements = match chunk_capacity.checked_mul(dim) {
            Some(elements) => elements,
            None => {
                assert(chunk_capacity * dim * size >= chunk_capacity * dim) by (nonlinear_arith)
                    requires
                        chunk_capacity * dim >= 0,
                        size >= 1,
                ;
                return Err(OperationError::OutOfRange);
            },
        };
        if elements.checked_mul(size).is_none() {
            return Err(OperationError::OutOfRange);
        }
        assert(chunk_capacity * dim <= chunk_capacity * dim * size) by (nonlinear_arith)
            requires
                chunk_capacity * dim >= 0,
                size >= 1,
        ;
        let storage = DenseBacking {
            vectors: ChunkedVectors::new(dim, chunk_capacity),
            deleted: DeletionBitmap::new(),
            distance,
            medium,
            populated,
            path,
        };
        proof {
            assert(dim * size <= chunk_capacity * dim * size) by (nonlinear_arith)
                requires
                    chunk_capacity >= 1,
                    dim >= 0,
                    size >= 0,
            ;
            assert(storage.model().vectors =~= Seq::empty());
            assert(storage.model().deleted =~= Seq::empty());
        }
        Ok(storage)
    }

    /// The storage takes its own placeholder.
    pub proof fn lemma_placeholder(&self)
        requires
            self.wf(),
        ensures
            self.model().refusal(self.model().shape.placeholder(self.model().datatype)) is None,
    {
    }

    /// Whether `files` hold a sound storage of dense vectors with elements
    /// of type `T`.
    pub open spec fn readable(files: StorageFilesView) -> bool {
        &&& files.data.readable(T::spec_datatype().spec_size())
        &&& exists|storage: Self| storage.wf() && #[trigger] storage.spec_held_by(files)
    }

    /// The storage as it goes into its files.
    pub fn snapshot(&self) -> (files: StorageFiles)
        requires
            self.wf(),
        ensures
            self.spec_held_by(files@),
            Self::readable(files@),
    {
        let bits = self.deleted.to_bytes();
        let files = StorageFiles {
            meta: StorageMeta {
                format_version: STORAGE_FORMAT_VERSION,
                kind: StorageKind::Dense,
                element: T::datatype(),
                dim: Some(self.vectors.dim() as u64),
                distance: self.distance,
                total: self.vectors.len() as u64,
                deleted: self.deleted.count() as u64,
                multi_vector_config: None,
            },
            data: self.vectors.to_files(),
            table: None,
            deleted_bits: bits,
        };
        proof {
            assert(self.spec_held_by(files@));
        }
        files
    }

    /// The storage that `files` hold, to live in the directory `path` on the
    /// given medium. Deletion flags for offsets that hold no vector are left
    /// behind: files that were written at different times may carry them.
    /// Files that do not hold a sound storage of this kind are refused.
    pub fn restore(
        path: String,
        files: &StorageFiles,
        medium: StorageMedium,
        populated: bool,
    ) -> (r: OperationResult<Self>)
        ensures
            r is Ok <==> Self::readable(files@),
            r matches Err(error) ==> error == OperationError::FormatMismatch,
            r matches Ok(storage) ==> {
                &&& storage.wf()
                &&& storage.spec_held_by(files@)
                &&& storage.spec_medium() == medium
                &&& storage.spec_populated() == populated
                &&& storage.spec_path() == path@
            },
    {
        let vectors = match ChunkedVectors::<T>::from_files(&files.data) {
            Some(vectors) => vectors,
            None => {
                return Err(OperationError::FormatMismatch);
            },
        };
        let meta = files.meta;
        let element = T::datatype();
        let element_matches = match (meta.element, element) {
            (VectorStorageDatatype::Float32, VectorStorageDatatype::Float32) => true,
            (VectorStorageDatatype::Float16, VectorStorageDatatype::Float16) => true,
            (VectorStorageDatatype::Uint8, VectorStorageDatatype::Uint8) => true,
            _ => false,
        };
        let kind_matches = match meta.kind {
            StorageKind::Dense => true,
            _ => false,
        };
        let dim_matches = match meta.dim {
            Some(dim) => dim == files.data.dim,
            None => false,
        };
        if meta.format_version != STORAGE_FORMAT_VERSION || !kind_matches || !element_matches
            || !dim_matches || meta.total != files.data.len || meta.multi_vector_config.is_some()
            || files.table.is_some() {
            return Err(OperationError::FormatMismatch);
        }
        let mut deleted = match DeletionBitmap::from_bytes(files.deleted_bits.as_slice()) {
            Some(deleted) => deleted,
            None => {
                return Err(OperationError::FormatMismatch);
            },
        };
        deleted.cut_to(vectors.len());
        let storage = DenseBacking {
            vectors,
            deleted,
            distance: meta.distance,
            medium,
            populated,
            path,
        };
        if storage.check() {
            proof {
                assert(storage.spec_held_by(files@));
            }
            Ok(storage)
        } else {
            proof {
                if Self::readable(files@) {
                    let other = choose|other: Self|
                        other.wf() && #[trigger] other.spec_held_by(files@);
                    other.vectors.lemma_held_by(&storage.vectors, files@.data);
                }
            }
            Err(OperationError::FormatMismatch)
        }
    }

    /// Whether the storage is sound.
    fn check(&self) -> (r: bool)
        requires
            self.vectors.wf(),
            self.deleted.wf(),
            forall|key: int|
                key >= self.vectors.spec_len() ==> !#[trigger] bit_is_set(self.deleted@, key),
            self.vectors.spec_capacity() * self.vectors.spec_dim()
                * T::spec_datatype().spec_size() <= usize::MAX,
        ensures
            r == self.wf(),
    {
        let len = self.vectors.len();
        if len > u32::MAX as usize {
            return false;
        }
        let size = T::datatype().size();
        let dim = self.vectors.dim();
        assert(dim * size <= self.vectors.spec_capacity() * dim * size) by (nonlinear_arith)
            requires
                self.vectors.spec_capacity() >= 1,
                dim >= 0,
                size >= 0,
        ;
        self.fits(len)
    }

    /// Whether the bytes of `count` vectors can be counted.
    fn fits(&self, count: usize) -> (r: bool)
        ensures
            r == (count * self.vectors.spec_dim() * T::spec_datatype().spec_size() <= usize::MAX),
    {
        let size = T::datatype().size();
        match count.checked_mul(self.vectors.dim()) {
            Some(elements) => elements.checked_mul(size).is_some(),
            None => {
                assert(count * self.vectors.spec_dim() * size >= count * self.vectors.spec_dim())
                    by (nonlinear_arith)
                    requires
                        count * self.vectors.spec_dim() >= 0,
                        size >= 1,
                ;
                false
            },
        }
    }

    /// Asks for every page of every file to be read in, where the storage
    /// lives in mapped files; a storage held in memory has nothing to read in.
    pub fn populate(&self) -> (r: OperationResult<CacheRequest>)
        requires
            self.wf(),
        ensures
            r matches Ok(request) && request.advice == CacheAdvice::Populate && strings_view(
                request.files@,
            ) == advised_files(self),
    {
        cache_request(self, CacheAdvice::Populate)
    }

    /// Asks for the pages of every file to be dropped from the cache, where
    /// the storage lives in mapped files.
    pub fn clear_cache(&self) -> (r: OperationResult<CacheRequest>)
        requires
            self.wf(),
        ensures
            r matches Ok(request) && request.advice == CacheAdvice::Clear && strings_view(
                request.files@,
            ) == advised_files(self),
    {
        cache_request(self, CacheAdvice::Clear)
    }

    /// A vector of ones, which the storage takes.
    pub fn default_vector(&self) -> (r: VectorInternal)
        requires
            self.wf(),
        ensures
            r@ == self.model().shape.placeholder(self.model().datatype),
            self.model().refusal(r@) is None,
    {
        VectorInternal::Dense(ones(T::datatype(), self.vectors.dim()))
    }

    /// The typed elements of `vector`, or why the storage refuses it.
    fn accept(&self, vector: &VectorInternal) -> (r: OperationResult<Vec<T>>)
        requires
            self.wf(),
        ensures
            match r {
                Ok(elements) => self.model().refusal(vector@) is None && vector@
                    == VectorView::Dense(raw_of(elements@)) && elements@.len()
                    == self.vectors.spec_dim(),
                Err(error) => self.model().refusal(vector@) == Some(error),
            },
    {
        match vector {
            VectorInternal::Dense(raw) => {
                if raw.len() != self.vectors.dim() {
                    return Err(
                        OperationError::DimensionMismatch {
                            expected: self.vectors.dim(),
                            received: raw.len(),
                        },
                    );
                }
                match from_raw_vec::<T>(raw.as_slice()) {
                    Some(elements) => {
                        proof {
                            lemma_raw_of_elements::<T>(elements@, raw@);
                        }
                        Ok(elements)
                    },
                    None => Err(OperationError::WrongVector),
                }
            },
            _ => Err(OperationError::WrongVector),
        }
    }

    /// Writes `elements` at `key`, behind blank vectors where the storage
    /// ends before `key`.
    fn write(&mut self, key: usize, elements: &[T])
        requires
            old(self).wf(),
            elements@.len() == old(self).vectors.spec_dim(),
            key < u32::MAX,
            (key + 1) * old(self).vectors.spec_dim() * T::spec_datatype().spec_size()
                <= usize::MAX,
        ensures
            final(self).wf(),
            final(self).medium == old(self).medium,
            final(self).populated == old(self).populated,
            final(self).path == old(self).path,
            final(self).deleted == old(self).deleted,
            final(self).vectors.spec_capacity() == old(self).vectors.spec_capacity(),
            final(self).vectors.spec_dim() == old(self).vectors.spec_dim(),
            final(self).model() == old(self).model().inserted(
                key as nat,
                VectorView::Dense(raw_of(elements@)),
            ),
    {
        let ghost before = self.vectors;
        let ghost dim = self.vectors.spec_dim();
        proof {
            T::lemma_raw(T::spec_from_raw(0), 0);
            assert(raw_of(zeros::<T>(dim)) =~= Seq::new(dim, |i: int| 0u32));
        }
        if key < self.vectors.len() {
            self.vectors.set_record(key, elements);
            proof {
                assert(self.model().vectors =~= old(self).model().vectors.update(
                    key as int,
                    VectorView::Dense(raw_of(elements@)),
                ));
                assert(self.model().deleted =~= old(self).model().deleted);
            }
        } else {
            self.vectors.grow_to(key);
            let ghost grown = self.vectors;
            proof {
                vstd::arithmetic::div_mod::lemma_mod_bound(
                    key as int,
                    self.vectors.spec_capacity() as int,
                );
            }
            let pushed = self.vectors.push_run(elements, 1);
            proof {
                before.lemma_extended_trans(&grown, &self.vectors);
                let after = self.vectors;
                let total = before.spec_len() as int;
                let expected = old(self).model().inserted(
                    key as nat,
                    VectorView::Dense(raw_of(elements@)),
                );
                assert forall|k: int| 0 <= k < key + 1 implies #[trigger] self.model().vectors[k]
                    == expected.vectors[k] by {
                    vstd::arithmetic::div_mod::lemma_mod_bound(k, before.spec_capacity() as int);
                    if k < total {
                        before.lemma_run_extended(&after, k, 1);
                        assert(after.record(k) == before.record(k));
                        assert(expected.vectors[k] == old(self).model().vectors[k]);
                    } else if k < key {
                        assert(grown.record(k) == zeros::<T>(dim));
                        grown.lemma_run_extended(&after, k, 1);
                        assert(after.record(k) == zeros::<T>(dim));
                        assert(expected.vectors[k] == StorageShape::Dense { dim }.blank());
                    } else {
                        assert(pushed == Ok::<usize, OperationError>(key));
                        assert(after.record(k) == elements@);
                    }
                }
                assert(self.model().vectors =~= expected.vectors);
                assert(self.model().deleted =~= expected.deleted);
                let size = T::spec_datatype().spec_size() as int;
                assert((key + 1) * dim <= (key + 1) * dim * size) by (nonlinear_arith)
                    requires
                        (key + 1) * dim >= 0,
                        size >= 1,
                ;
            }
        }
    }
}

impl<T: PrimitiveVectorElement> VectorStorage for DenseBacking<T> {
    closed spec fn wf(&self) -> bool {
        &&& self.vectors.wf()
        &&& self.deleted.wf()
        &&& self.vectors.spec_len() <= u32::MAX
        &&& self.vectors.spec_len() * self.vectors.spec_dim() * T::spec_datatype().spec_size()
            <= usize::MAX
        &&& self.vectors.spec_dim() * T::spec_datatype().spec_size() <= usize::MAX
        &&& self.vectors.spec_capacity() * self.vectors.spec_dim()
            * T::spec_datatype().spec_size() <= usize::MAX
        &&& forall|key: int|
            key >= self.vectors.spec_len() ==> !#[trigger] bit_is_set(self.deleted@, key)
    }

    closed spec fn model(&self) -> StorageModel {
        StorageModel {
            shape: StorageShape::Dense { dim: self.vectors.spec_dim() },
            datatype: T::spec_datatype(),
            distance: self.distance,
            vectors: Seq::new(
                self.vectors.spec_len(),
                |key: int| VectorView::Dense(raw_of(self.vectors.record(key))),
            ),
            deleted: flags(self.deleted@, self.vectors.spec_len()),
        }
    }

    open spec fn has_room(&self, key: nat, vector: VectorView) -> bool {
        (key + 1) * self.spec_dim() * T::spec_datatype().spec_size() <= usize::MAX
    }

    closed spec fn spec_medium(&self) -> StorageMedium {
        self.medium
    }

    closed spec fn spec_populated(&self) -> bool {
        self.populated
    }

    closed spec fn spec_path(&self) -> Seq<char> {
        self.path@
    }

    closed spec fn spec_chunk_counts(&self) -> (nat, nat) {
        (chunks_needed(self.vectors.spec_len(), self.vectors.spec_capacity()), 0)
    }

    closed spec fn spec_held_by(&self, files: StorageFilesView) -> bool {
        &&& files.meta.format_version == STORAGE_FORMAT_VERSION
        &&& files.meta.kind == StorageKind::Dense
        &&& files.meta.element == T::spec_datatype()
        &&& files.meta.dim == Some(self.vectors.spec_dim() as u64)
        &&& files.meta.distance == self.distance
        &&& files.meta.total == self.vectors.spec_len()
        &&& files.meta.multi_vector_config is None
        &&& files.table is None
        &&& self.vectors.held_by(files.data)
        &&& 8 * files.deleted_bits.len() <= max_bits()
        &&& forall|key: int|
            0 <= key < self.vectors.spec_len() ==> bit_is_set(
                bits_of_bytes(files.deleted_bits),
                key,
            ) == bit_is_set(self.deleted@, key)
    }

    proof fn lemma_meta(&self, files: StorageFilesView) {
    }

    proof fn lemma_held_by(&self, other: &Self, files: StorageFilesView) {
        self.vectors.lemma_held_by(&other.vectors, files.data);
        assert(self.model().vectors =~= other.model().vectors);
        assert(self.model().deleted =~= other.model().deleted);
    }

    proof fn lemma_model_wf(&self) {
    }

    fn distance(&self) -> (r: Distance) {
        self.distance
    }

    fn datatype(&self) -> (r: VectorStorageDatatype) {
        T::datatype()
    }

    fn medium(&self) -> (r: StorageMedium) {
        self.medium
    }

    fn is_on_disk(&self) -> (r: bool) {
        self.medium.is_mapped() && !self.populated
    }

    fn total_vector_count(&self) -> (r: usize) {
        self.vectors.len()
    }

    fn get_vector(&self, key: PointOffsetType) -> (r: VectorInternal) {
        VectorInternal::Dense(to_raw_vec(self.vectors.get(key as usize)))
    }

    fn get_vector_sequential(&self, key: PointOffsetType) -> (r: VectorInternal) {
        self.get_vector(key)
    }

    fn get_vector_opt(&self, key: PointOffsetType) -> (r: Option<VectorInternal>) {
        if (key as usize) < self.vectors.len() {
            Some(self.get_vector(key))
        } else {
            None
        }
    }

    fn insert_vector(
        &mut self,
        key: PointOffsetType,
        vector: &VectorInternal,
        hw_counter: &mut HardwareCounterCell,
    ) -> (r: OperationResult<()>)
        ensures
            final(self).spec_dim() == old(self).spec_dim(),
    {
        let elements = match self.accept(vector) {
            Ok(elements) => elements,
            Err(error) => {
                return Err(error);
            },
        };
        if key == u32::MAX || !self.fits(key as usize + 1) {
            return Err(OperationError::OutOfRange);
        }
        self.write(key as usize, elements.as_slice());
        let bytes = saturating_bytes(elements.len(), T::datatype().size());
        hw_counter.incr_vector_io_write(bytes);
        Ok(())
    }

    fn append_vector(&mut self, vector: &VectorInternal, deleted: bool) -> (r: OperationResult<
        PointOffsetType,
    >)
        ensures
            final(self).spec_dim() == old(self).spec_dim(),
    {
        let elements = match self.accept(vector) {
            Ok(elements) => elements,
            Err(error) => {
                return Err(error);
            },
        };
        let key = self.vectors.len();
        if key >= u32::MAX as usize || !self.fits(key + 1) {
            return Err(OperationError::OutOfRange);
        }
        if deleted && key >= bit_limit() {
            return Err(OperationError::OutOfRange);
        }
        self.write(key, elements.as_slice());
        let ghost written = self.model();
        if deleted {
            self.deleted.mark(key as PointOffsetType);
            proof {
                assert(self.model().deleted =~= written.deleted.update(key as int, true));
            }
        }
        proof {
            let expected = old(self).model().appended(vector@, deleted);
            assert(self.model().vectors =~= expected.vectors);
            assert(self.model().deleted =~= expected.deleted);
        }
        Ok(key as PointOffsetType)
    }

    fn flusher(&self) -> (r: Flusher) {
        if self.medium.is_persisted() {
            Flusher { files: Vec::new(), storage: Some(self.snapshot()) }
        } else {
            Flusher { files: Vec::new(), storage: None }
        }
    }

    fn files(&self) -> (r: Vec<String>) {
        if self.medium.is_persisted() {
            let len = self.vectors.len();
            let chunks: usize = if len == 0 {
                0
            } else {
                (len - 1) / self.vectors.capacity() + 1
            };
            file_names(self.path.as_str(), StorageKind::Dense, chunks, 0)
        } else {
            let names: Vec<String> = Vec::new();
            assert(strings_view(names@) =~= Seq::<Seq<char>>::empty());
            names
        }
    }

    fn delete_vector(&mut self, key: PointOffsetType) -> (r: OperationResult<bool>) {
        if key as usize >= self.vectors.len() {
            return Ok(false);
        }
        if key as usize >= bit_limit() {
            return Err(OperationError::OutOfRange);
        }
        let flipped = self.deleted.mark(key);
        proof {
            assert(self.model().deleted =~= old(self).model().deleted.update(key as int, true));
        }
        Ok(flipped)
    }

    fn is_deleted_vector(&self, key: PointOffsetType) -> (r: bool) {
        self.deleted.is_set(key)
    }

    fn deleted_vector_count(&self) -> (r: usize) {
        proof {
            self.deleted.lemma_count();
            lemma_flags_count(self.deleted@, self.vectors.spec_len());
        }
        self.deleted.count()
    }

    fn deleted_vector_bitslice(&self) -> (r: &DeletionBitmap) {
        &self.deleted
    }
}

impl<T: PrimitiveVectorElement> DenseVectorStorage<T> for DenseBacking<T> {
    closed spec fn spec_dense(&self, key: int) -> Seq<T> {
        self.vectors.record(key)
    }

    open spec fn spec_vector_dim(&self) -> nat {
        self.spec_dim()
    }

    proof fn lemma_dense_model(&self) {
        assert forall|key: int| 0 <= key < self.model().total() implies self.spec_dense(key).len()
            == self.spec_vector_dim() by {
            vstd::arithmetic::div_mod::lemma_mod_bound(key, self.vectors.spec_capacity() as int);
            self.vectors.lemma_run_len(key, 1);
        }
    }

    fn vector_dim(&self) -> (r: usize) {
        self.vectors.dim()
    }

    fn get_dense(&self, key: PointOffsetType) -> (r: &[T]) {
        self.vectors.get(key as usize)
    }

    fn get_dense_sequential(&self, key: PointOffsetType) -> (r: &[T]) {
        self.vectors.get(key as usize)
    }
}

} // verus!
