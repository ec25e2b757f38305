//! Records of varying length: for each offset a run of fixed-width records in
//! an element array, found through a table of `(start, count)` entries.
//!
//! Writing an offset again appends a new run and points the entry at it; the
//! run it pointed at before stays in the element array, out of reach.

use vstd::prelude::*;
use crate::common::{OperationError, OperationResult};
use crate::vector_storage::chunked::{run_start, ArrayFiles, ArrayFilesView, ChunkedVectors};
use crate::vector_storage::element::{zeros, PrimitiveVectorElement};

verus! {

/// Whether a store that keeps `stored` records of `dim` elements of `size`
/// bytes, in chunks of `capacity` records, has room for one more run of
/// `count` records: the offsets of the run can be written down in 32 bits,
/// and the bytes of all records can still be counted.
pub open spec fn runs_have_room(
    stored: nat,
    capacity: nat,
    dim: nat,
    size: nat,
    count: nat,
) -> bool {
    run_start(stored, capacity, count) + count <= u32::MAX && (run_start(stored, capacity, count)
        + count) * dim * size <= usize::MAX
}

/// Number of records a store keeps once a run of `count` records was
/// appended to `stored` records: a run of no records takes no place.
pub open spec fn kept_after(stored: nat, capacity: nat, count: nat) -> nat {
    if count == 0 {
        stored
    } else {
        (run_start(stored, capacity, count) + count) as nat
    }
}

/// For each offset a run of records of type `T`.
pub struct RunStore<T> {
    elements: ChunkedVectors<T>,
    offsets: ChunkedVectors<u32>,
}

impl<T: PrimitiveVectorElement> RunStore<T> {
    /// Number of elements in one record of a run.
    pub closed spec fn spec_dim(&self) -> nat {
        self.elements.spec_dim()
    }

    /// Largest number of records in a run.
    pub closed spec fn spec_capacity(&self) -> nat {
        self.elements.spec_capacity()
    }

    /// Number of offsets in use.
    pub closed spec fn spec_len(&self) -> nat {
        self.offsets.spec_len()
    }

    /// Number of records in the element array, out of reach ones included.
    pub closed spec fn spec_stored(&self) -> nat {
        self.elements.spec_len()
    }

    /// Number of records in the run of `key`.
    pub closed spec fn spec_count(&self, key: int) -> nat {
        self.offsets.record(key)[1] as nat
    }

    /// The elements of the run of `key`, one record after the other.
    pub closed spec fn spec_run(&self, key: int) -> Seq<T> {
        if self.offsets.record(key)[1] == 0 {
            Seq::empty()
        } else {
            self.elements.run(self.offsets.record(key)[0] as int,
                self.offsets.record(key)[1] as int)
        }
    }

    /// Every entry of the table is blank or points at a run that exists.
    pub closed spec fn wf(&self) -> bool {
        &&& self.elements.wf()
        &&& self.offsets.wf()
        &&& self.offsets.spec_dim() == 2
        &&& self.elements.spec_capacity() * self.elements.spec_dim()
            * T::spec_datatype().spec_size() <= usize::MAX
        &&& self.offsets.spec_capacity() * 8 <= usize::MAX
        &&& self.elements.spec_len() * self.elements.spec_dim() * T::spec_datatype().spec_size()
            <= usize::MAX
        &&& forall|key: int|
            0 <= key < self.offsets.spec_len() ==> (#[trigger] self.offsets.record(key)).len() == 2
                && (self.offsets.record(key)[1] == 0 || self.elements.valid_run(
                self.offsets.record(key)[0] as int,
                self.offsets.record(key)[1] as int,
            ))
    }

    /// Whether the machine's limits leave room for one more run of `count`
    /// records.
    pub open spec fn has_room(&self, count: nat) -> bool {
        runs_have_room(
            self.spec_stored(),
            self.spec_capacity(),
            self.spec_dim(),
            T::spec_datatype().spec_size(),
            count,
        )
    }

    /// Every run holds whole records, and no run is longer than a chunk.
    pub proof fn lemma_run_len(&self, key: int)
        requires
            self.wf(),
            0 <= key < self.spec_len(),
        ensures
            self.spec_run(key).len() == self.spec_count(key) * self.spec_dim(),
            self.spec_count(key) <= self.spec_capacity(),
            self.spec_count(key) <= self.spec_stored(),
            self.spec_stored() * self.spec_dim() * T::spec_datatype().spec_size() <= usize::MAX,
    {
        let entry = self.offsets.record(key);
        if entry[1] != 0 {
            self.elements.lemma_run_len(entry[0] as int, entry[1] as int);
            vstd::arithmetic::div_mod::lemma_mod_bound(
                entry[0] as int,
                self.elements.spec_capacity() as int,
            );
        } else {
            assert(0 * self.spec_dim() == 0) by (nonlinear_arith);
        }
    }

    /// The bytes of the element array can be counted.
    pub proof fn lemma_stored_bytes(&self)
        requires
            self.wf(),
        ensures
            self.spec_dim() > 0,
            self.spec_capacity() > 0,
            self.spec_capacity() * self.spec_dim() <= usize::MAX,
            self.spec_stored() * self.spec_dim() * T::spec_datatype().spec_size() <= usize::MAX,
    {
    }

    /// Whether a store of the given layout can be made.
    pub open spec fn valid_layout(dim: nat, capacity: nat, table_capacity: nat) -> bool {
        &&& dim > 0
        &&& capacity > 0
        &&& capacity * dim * T::spec_datatype().spec_size() <= usize::MAX
        &&& table_capacity > 0
        &&& table_capacity * 8 <= usize::MAX
    }

    /// The store without offsets: records of `dim` elements in chunks of
    /// `capacity` records, and a table in chunks of `table_capacity` entries.
    pub fn new(dim: usize, capacity: usize, table_capacity: usize) -> (r: OperationResult<Self>)
        ensures
            r is Ok <==> Self::valid_layout(dim as nat, capacity as nat, table_capacity as nat),
            r matches Err(error) ==> error == OperationError::OutOfRange,
            r matches Ok(store) ==> {
                &&& store.wf()
                &&& store.spec_dim() == dim
                &&& store.spec_capacity() == capacity
                &&& store.spec_len() == 0
                &&& store.spec_stored() == 0
            },
    {
        let size = T::datatype().size();
        if dim == 0 || capacity == 0 || table_capacity == 0 || table_capacity > usize::MAX / 8 {
            return Err(OperationError::OutOfRange);
        }
        let elements = match capacity.checked_mul(dim) {
            Some(elements) => elements,
            None => {
                assert(capacity * dim * size >= capacity * dim) by (nonlinear_arith)
                    requires
                        capacity * dim >= 0,
                        size >= 1,
                ;
                return Err(OperationError::OutOfRange);
            },
        };
        if elements.checked_mul(size).is_none() {
            return Err(OperationError::OutOfRange);
        }
        assert(capacity * dim <= capacity * dim * size) by (nonlinear_arith)
            requires
                capacity * dim >= 0,
                size >= 1,
        ;
        Ok(
            RunStore {
                elements: ChunkedVectors::new(dim, capacity),
                offsets: ChunkedVectors::new(2, table_capacity),
            },
        )
    }

    /// Number of elements in one record of a run.
    pub fn dim(&self) -> (r: usize)
        ensures
            r == self.spec_dim(),
    {
        self.elements.dim()
    }

    /// Largest number of records in a run.
    pub fn capacity(&self) -> (r: usize)
        ensures
            r == self.spec_capacity(),
    {
        self.elements.capacity()
    }

    /// Number of offsets in use.
    pub fn len(&self) -> (r: usize)
        ensures
            r == self.spec_len(),
    {
        self.offsets.len()
    }

    /// Number of records in the element array, out of reach ones included.
    pub fn stored(&self) -> (r: usize)
        ensures
            r == self.spec_stored(),
    {
        self.elements.len()
    }

    /// The elements of the run of `key`.
    pub fn get(&self, key: usize) -> (r: &[T])
        requires
            self.wf(),
            key < self.spec_len(),
        ensures
            r@ == self.spec_run(key as int),
    {
        let entry = self.offsets.get(key);
        assert(entry@ == self.offsets.record(key as int));
        let start = entry[0] as usize;
        let count = entry[1] as usize;
        if count == 0 {
            self.elements_empty()
        } else {
            self.elements.get_run(start, count)
        }
    }

    /// A slice without elements.
    fn elements_empty(&self) -> (r: &[T])
        ensures
            r@ == Seq::<T>::empty(),
    {
        let r: &[T] = &[];
        assert(r@ =~= Seq::<T>::empty());
        r
    }

    /// Whether the machine's limits leave room for one more run of `count` records.
    pub fn check_room(&self, count: usize) -> (r: bool)
        requires
            self.wf(),
            count <= self.spec_capacity(),
        ensures
            r == self.has_room(count as nat),
    {
        let len = self.elements.len();
        let capacity = self.elements.capacity();
        let offset = len % capacity;
        let pad: usize = if offset != 0 && capacity - offset < count {
            capacity - offset
        } else {
            0
        };
        let end = match len.checked_add(pad) {
            Some(start) => match start.checked_add(count) {
                Some(end) => end,
                None => {
                    return false;
                },
            },
            None => {
                return false;
            },
        };
        if end > u32::MAX as usize {
            return false;
        }
        let size = T::datatype().size();
        match end.checked_mul(self.elements.dim()) {
            Some(elements) => elements.checked_mul(size).is_some(),
            None => {
                assert(end * self.elements.spec_dim() * size >= end * self.elements.spec_dim())
                    by (nonlinear_arith)
                    requires
                        end * self.elements.spec_dim() >= 0,
                        size >= 1,
                ;
                false
            },
        }
    }

    /// Appends the `count` records of `source` as a run and points the entry
    /// of `key` at it. Blank entries fill the table where it ends before `key`.
    pub fn insert(&mut self, key: usize, source: &[T], count: usize)
        requires
            old(self).wf(),
            key < u32::MAX,
            count <= old(self).spec_capacity(),
            source@.len() == count * old(self).spec_dim(),
            count > 0 ==> old(self).has_room(count as nat),
        ensures
            final(self).wf(),
            final(self).spec_dim() == old(self).spec_dim(),
            final(self).spec_capacity() == old(self).spec_capacity(),
            final(self).spec_len() == if key < old(self).spec_len() {
                old(self).spec_len()
            } else {
                (key + 1) as nat
            },
            final(self).spec_stored() == kept_after(
                old(self).spec_stored(),
                old(self).spec_capacity(),
                count as nat,
            ),
            final(self).spec_run(key as int) == source@,
            final(self).spec_count(key as int) == count,
            forall|other: int|
                0 <= other < old(self).spec_len() && other != key ==>
                    #[trigger] final(self).spec_run(other) == old(self).spec_run(other)
                        && final(self).spec_count(other)
                    == old(self).spec_count(other),
            forall|other: int|
                old(self).spec_len() <= other < key ==> #[trigger] final(self).spec_run(other)
                    == Seq::<T>::empty() && final(self).spec_count(other) == 0,
    {
        let ghost first = *self;
        let start: usize = if count == 0 {
            proof {
                first.elements.lemma_extended_refl();
                assert(source@ =~= Seq::<T>::empty());
            }
            0
        } else {
            match self.elements.push_run(source, count) {
                Ok(start) => start,
                Err(_) => {
                    proof {
                        assert(false);
                    }
                    0
                },
            }
        };
        let ghost stored = *self;
        let entry: [u32; 2] = [start as u32, count as u32];
        let entry_slice: &[u32] = &entry;
        assert(entry_slice@ =~= seq![start as u32, count as u32]);
        proof {
            u32::lemma_raw(0u32, 0u32);
            assert(zeros::<u32>(2) =~= seq![0u32, 0u32]);
        }
        if key < self.offsets.len() {
            self.offsets.set_record(key, entry_slice);
        } else {
            self.offsets.grow_to(key);
            let ghost grown = self.offsets;
            proof {
                vstd::arithmetic::div_mod::lemma_mod_bound(
                    key as int,
                    self.offsets.spec_capacity() as int,
                );
            }
            let pushed = self.offsets.push_run(entry_slice, 1);
            proof {
                assert(pushed == Ok::<usize, OperationError>(key));
                let after = self.offsets;
                assert forall|other: int| 0 <= other < key implies #[trigger] after.record(other)
                    == if other < first.offsets.spec_len() {
                    first.offsets.record(other)
                } else {
                    seq![0u32, 0u32]
                } by {
                    vstd::arithmetic::div_mod::lemma_mod_bound(
                        other,
                        first.offsets.spec_capacity() as int,
                    );
                    if other < first.offsets.spec_len() {
                        first.offsets.lemma_extended_trans(&grown, &after);
                        first.offsets.lemma_run_extended(&after, other, 1);
                    } else {
                        assert(grown.record(other) == zeros::<u32>(2));
                        grown.lemma_run_extended(&after, other, 1);
                    }
                }
            }
        }
        proof {
            let size = T::spec_datatype().spec_size() as int;
            assert forall|other: int| 0 <= other < self.offsets.spec_len() implies (
            #[trigger] self.offsets.record(other)).len() == 2 && (self.offsets.record(other)[1]
                == 0 || self.elements.valid_run(
                self.offsets.record(other)[0] as int,
                self.offsets.record(other)[1] as int,
            )) by {
                if other != key && other < first.offsets.spec_len() {
                    let old_entry = first.offsets.record(other);
                    assert(self.offsets.record(other) == old_entry);
                    if old_entry[1] != 0 {
                        first.elements.lemma_run_extended(
                            &self.elements,
                            old_entry[0] as int,
                            old_entry[1] as int,
                        );
                    }
                }
            }
            assert forall|other: int|
                0 <= other < first.spec_len() && other != key implies #[trigger] self.spec_run(
                other,
            ) == first.spec_run(other) && self.spec_count(other) == first.spec_count(other) by {
                let old_entry = first.offsets.record(other);
                assert(self.offsets.record(other) == old_entry);
                if old_entry[1] != 0 {
                    first.elements.lemma_run_extended(
                        &self.elements,
                        old_entry[0] as int,
                        old_entry[1] as int,
                    );
                }
            }
            assert forall|other: int| first.spec_len() <= other < key implies
                #[trigger] self.spec_run(
                other,
            ) == Seq::<T>::empty() && self.spec_count(other) == 0 by {
                assert(self.offsets.record(other) == seq![0u32, 0u32]);
            }
        }
    }
    /// Number of chunks of the element array, and of the table.
    pub closed spec fn spec_chunk_counts(&self) -> (nat, nat) {
        (
            crate::vector_storage::chunked::chunks_needed(
                self.elements.spec_len(),
                self.elements.spec_capacity(),
            ),
            crate::vector_storage::chunked::chunks_needed(self.offsets.spec_len(),
                self.offsets.spec_capacity()),
        )
    }

    /// Number of chunks of the element array, and of the table.
    pub fn chunk_counts(&self) -> (r: (usize, usize))
        requires
            self.wf(),
        ensures
            r.0 == self.spec_chunk_counts().0,
            r.1 == self.spec_chunk_counts().1,
    {
        let stored = self.elements.len();
        let len = self.offsets.len();
        let data: usize = if stored == 0 {
            0
        } else {
            (stored - 1) / self.elements.capacity() + 1
        };
        let table: usize = if len == 0 {
            0
        } else {
            (len - 1) / self.offsets.capacity() + 1
        };
        (data, table)
    }

    /// Whether `other` holds the same runs in the same layout.
    pub closed spec fn same_as(&self, other: &Self) -> bool {
        self.elements.same_as(&other.elements) && self.offsets.same_as(&other.offsets)
    }

    /// Stores that hold the same in the same layout give the same runs.
    pub proof fn lemma_same_as(&self, other: &Self)
        requires
            self.same_as(other),
        ensures
            self.spec_dim() == other.spec_dim(),
            self.spec_capacity() == other.spec_capacity(),
            self.spec_len() == other.spec_len(),
            self.spec_stored() == other.spec_stored(),
            self.wf() == other.wf(),
            self.spec_chunk_counts() == other.spec_chunk_counts(),
            forall|key: int| self.spec_run(key) == other.spec_run(key),
            forall|key: int| self.spec_count(key) == other.spec_count(key),
            forall|count: nat| self.has_room(count) == other.has_room(count),
    {
        assert forall|key: int| self.offsets.record(key) == other.offsets.record(key) by {}
        assert forall|key: int| self.spec_run(key) == other.spec_run(key) by {
            assert(self.offsets.record(key) == other.offsets.record(key));
        }
        assert forall|key: int| self.spec_count(key) == other.spec_count(key) by {
            assert(self.offsets.record(key) == other.offsets.record(key));
        }
        if self.wf() {
            assert forall|key: int| 0 <= key < other.offsets.spec_len() implies (
            #[trigger] other.offsets.record(key)).len() == 2 && (other.offsets.record(key)[1] == 0
                || other.elements.valid_run(
                other.offsets.record(key)[0] as int,
                other.offsets.record(key)[1] as int,
            )) by {
                assert(self.offsets.record(key) == other.offsets.record(key));
            }
        }
        if other.wf() {
            assert forall|key: int| 0 <= key < self.offsets.spec_len() implies (
            #[trigger] self.offsets.record(key)).len() == 2 && (self.offsets.record(key)[1] == 0
                || self.elements.valid_run(
                self.offsets.record(key)[0] as int,
                self.offsets.record(key)[1] as int,
            )) by {
                assert(self.offsets.record(key) == other.offsets.record(key));
            }
        }
    }

    /// Whether the store is what the files of the element array and of the
    /// table hold.
    pub closed spec fn held_by(&self, elements: ArrayFilesView, table: ArrayFilesView) -> bool {
        self.elements.held_by(elements) && self.offsets.held_by(table)
    }

    /// Whether the files hold a sound store.
    pub open spec fn readable(elements: ArrayFilesView, table: ArrayFilesView) -> bool {
        &&& elements.readable(T::spec_datatype().spec_size())
        &&& table.readable(4)
        &&& exists|store: Self| store.wf() && #[trigger] store.held_by(elements, table)
    }

    /// A store has the layout that its files name.
    pub proof fn lemma_held_layout(&self, elements: ArrayFilesView, table: ArrayFilesView)
        requires
            self.held_by(elements, table),
        ensures
            self.spec_dim() == elements.dim,
            self.spec_capacity() == elements.capacity,
            self.spec_stored() == elements.len,
            self.spec_len() == table.len,
    {
    }

    /// Two stores that the same files hold are the same.
    pub proof fn lemma_held_by(
        &self,
        other: &Self,
        elements: ArrayFilesView,
        table: ArrayFilesView,
    )
        requires
            self.held_by(elements, table),
            other.held_by(elements, table),
        ensures
            self.same_as(other),
    {
        self.elements.lemma_held_by(&other.elements, elements);
        self.offsets.lemma_held_by(&other.offsets, table);
    }

    /// The store as it goes into its files: those of the element array, and
    /// those of the table.
    pub fn to_files(&self) -> (files: (ArrayFiles, ArrayFiles))
        requires
            self.wf(),
        ensures
            self.held_by(files.0@, files.1@),
            Self::readable(files.0@, files.1@),
    {
        proof {
            self.lemma_chunk_bytes();
        }
        let elements = self.elements.to_files();
        let table = self.offsets.to_files();
        (elements, table)
    }

    /// The store that the files hold, where they hold a sound one.
    pub fn from_files(elements: &ArrayFiles, table: &ArrayFiles) -> (r: Option<Self>)
        ensures
            r is Some <==> Self::readable(elements@, table@),
            r matches Some(store) ==> store.wf() && store.held_by(elements@, table@),
    {
        let element_array = match ChunkedVectors::<T>::from_files(elements) {
            Some(array) => array,
            None => {
                return None;
            },
        };
        let offsets = match ChunkedVectors::<u32>::from_files(table) {
            Some(array) => array,
            None => {
                return None;
            },
        };
        let store = RunStore { elements: element_array, offsets };
        if store.check() {
            Some(store)
        } else {
            proof {
                if Self::readable(elements@, table@) {
                    let other = choose|other: Self|
                        other.wf() && #[trigger] other.held_by(elements@, table@);
                    other.lemma_held_by(&store, elements@, table@);
                    other.lemma_same_as(&store);
                }
            }
            None
        }
    }

    /// The bytes of a chunk of the element array and of the table can be counted.
    proof fn lemma_chunk_bytes(&self)
        requires
            self.wf(),
        ensures
            self.elements.spec_capacity() * self.elements.spec_dim()
                * T::spec_datatype().spec_size() <= usize::MAX,
            self.offsets.spec_capacity() * self.offsets.spec_dim() * 4 <= usize::MAX,
    {
        assert(self.offsets.spec_capacity() * 2 * 4 == self.offsets.spec_capacity() * 8)
            by (nonlinear_arith);
    }

    /// Whether the store is sound.
    fn check(&self) -> (r: bool)
        requires
            self.elements.wf(),
            self.offsets.wf(),
        ensures
            r == self.wf(),
    {
        if self.offsets.dim() != 2 {
            return false;
        }
        let size = T::datatype().size();
        let dim = self.elements.dim();
        let capacity = self.elements.capacity();
        let stored = self.elements.len();
        match capacity.checked_mul(dim) {
            Some(elements) => {
                if elements.checked_mul(size).is_none() {
                    return false;
                }
            },
            None => {
                assert(capacity * dim * size >= capacity * dim) by (nonlinear_arith)
                    requires
                        capacity * dim >= 0,
                        size >= 1,
                ;
                return false;
            },
        }
        match self.offsets.capacity().checked_mul(8) {
            Some(_) => {},
            None => {
                return false;
            },
        }
        match stored.checked_mul(dim) {
            Some(elements) => {
                if elements.checked_mul(size).is_none() {
                    return false;
                }
            },
            None => {
                assert(stored * dim * size >= stored * dim) by (nonlinear_arith)
                    requires
                        stored * dim >= 0,
                        size >= 1,
                ;
                return false;
            },
        }
        let mut key: usize = 0;
        while key < self.offsets.len()
            invariant
                key <= self.offsets.spec_len(),
                self.elements.wf(),
                self.offsets.wf(),
                self.offsets.spec_dim() == 2,
                capacity == self.elements.spec_capacity(),
                stored == self.elements.spec_len(),
                forall|k: int|
                    0 <= k < key ==> (#[trigger] self.offsets.record(k)).len() == 2 && (
                    self.offsets.record(k)[1] == 0 || self.elements.valid_run(
                        self.offsets.record(k)[0] as int,
                        self.offsets.record(k)[1] as int,
                    )),
            decreases self.offsets.spec_len() - key,
        {
            let entry = self.offsets.get(key);
            let start = entry[0] as usize;
            let count = entry[1] as usize;
            if count != 0 {
                if start >= stored || count > stored - start || count > capacity - start
                    % capacity {
                    assert(!self.elements.valid_run(start as int, count as int));
                    return false;
                }
            }
            key += 1;
        }
        true
    }
}

} // verus!
