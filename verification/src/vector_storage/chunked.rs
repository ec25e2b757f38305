//! An append-only array of fixed-width records, held in chunks of a fixed
//! number of records.
//!
//! Every chunk but the last is full. A run of neighbouring records is read as
//! one slice, so a run never crosses from one chunk into the next: where a run
//! does not fit into what is left of the last chunk, blank records fill that
//! chunk and the run opens a new one.

use vstd::prelude::*;
use vstd::slice::slice_subrange;
use crate::bytes::{
    all_within, decode_all, decoded, encode_into, encoded, lemma_decoded_round_trip,
    lemma_encoded_round_trip, max_of_size,
};
use crate::common::{OperationError, OperationResult};
use crate::vector_storage::element::{
    all_fit, elements_of, from_raw_vec, lemma_raw_of_elements, max_raw, raw_of, to_raw_vec, zeros,
    PrimitiveVectorElement,
};

verus! {

/// Number of chunks that hold `len` records.
pub open spec fn chunks_needed(len: nat, capacity: nat) -> nat {
    if len == 0 {
        0
    } else {
        ((len - 1) / (capacity as int) + 1) as nat
    }
}

/// Number of records in chunk `chunk` of an array of `len` records.
pub open spec fn records_in_chunk(len: nat, capacity: nat, chunk: nat) -> nat {
    if (chunk + 1) * capacity <= len {
        capacity
    } else {
        (len - chunk * capacity) as nat
    }
}

/// Offset at which a run of `count` records starts when it is appended to an
/// array of `len` records: the end of the array, or the start of the next
/// chunk where the last one has too little room left.
pub open spec fn run_start(len: nat, capacity: nat, count: nat) -> nat {
    if len % capacity != 0 && capacity - len % capacity < count {
        (len + capacity - len % capacity) as nat
    } else {
        len
    }
}

/// Where a run lies: its chunk exists, and its elements lie within the
/// records the chunk holds.
pub proof fn lemma_run_bounds(len: nat, capacity: nat, dim: nat, start: int, count: int)
    requires
        capacity > 0,
        0 <= start,
        0 <= count,
        start + count <= len,
        start < len,
        start % (capacity as int) + count <= capacity,
    ensures
        0 <= start / (capacity as int) < chunks_needed(len, capacity),
        0 <= start % (capacity as int) < capacity,
        start % (capacity as int) + count <= records_in_chunk(
            len,
            capacity,
            (start / (capacity as int)) as nat,
        ) <= capacity,
        0 <= (start % (capacity as int)) * dim <= (start % (capacity as int) + count) * dim
            <= records_in_chunk(len, capacity, (start / (capacity as int)) as nat) * dim,
        (start % (capacity as int) + count) * dim - (start % (capacity as int)) * dim == count
            * dim,
{
    let cap = capacity as int;
    let c = start / cap;
    let off = start % cap;
    vstd::arithmetic::div_mod::lemma_fundamental_div_mod(start, cap);
    vstd::arithmetic::div_mod::lemma_mod_bound(start, cap);
    vstd::arithmetic::div_mod::lemma_div_is_ordered(start, len - 1, cap);
    vstd::arithmetic::div_mod::lemma_div_pos_is_pos(start, cap);
    assert(start == cap * c + off);
    let held = records_in_chunk(len, capacity, c as nat) as int;
    assert((c + 1) * cap == c * cap + cap) by (nonlinear_arith);
    assert(cap * c == c * cap) by (nonlinear_arith);
    assert(off + count <= held <= cap);
    assert(0 <= off * dim <= (off + count) * dim <= held * dim) by (nonlinear_arith)
        requires
            0 <= off,
            0 <= count,
            off + count <= held,
            0 <= dim,
    ;
    assert((off + count) * dim - off * dim == count * dim) by (nonlinear_arith);
}

/// How the layout changes when `count` records are appended that fit into
/// the room of the last chunk, or open a new chunk behind a full one.
pub proof fn lemma_layout_grow(len: nat, capacity: nat, count: nat)
    requires
        capacity > 0,
        count >= 1,
        len % capacity + count <= capacity,
    ensures
        len % capacity == 0 ==> chunks_needed(len + count, capacity) == chunks_needed(
            len,
            capacity,
        ) + 1,
        len % capacity != 0 ==> chunks_needed(len + count, capacity) == chunks_needed(
            len,
            capacity,
        ),
        (len / capacity) as nat + 1 == chunks_needed(len + count, capacity),
        (len + count) % capacity == 0 <==> len % capacity + count == capacity,
        (len + count) % capacity != 0 ==> (len + count) % capacity == len % capacity + count,
        forall|c: nat|
            c < len / capacity ==> #[trigger] records_in_chunk(len + count, capacity, c)
                == capacity && records_in_chunk(len, capacity, c) == capacity,
        records_in_chunk(len + count, capacity, len / capacity) == len % capacity + count,
        len % capacity != 0 ==> records_in_chunk(len, capacity, len / capacity) == len % capacity,
{
    let cap = capacity as int;
    let l = len as int;
    let q = l / cap;
    let off = l % cap;
    vstd::arithmetic::div_mod::lemma_fundamental_div_mod(l, cap);
    vstd::arithmetic::div_mod::lemma_mod_bound(l, cap);
    vstd::arithmetic::div_mod::lemma_div_pos_is_pos(l, cap);
    assert(l == cap * q + off);
    assert(cap * q == q * cap) by (nonlinear_arith);
    // the last record after growth lies in chunk q
    let last = l + count - 1;
    assert(last == q * cap + (off + count - 1));
    vstd::arithmetic::div_mod::lemma_fundamental_div_mod_converse(last, cap, q, off + count - 1);
    assert(last / cap == q);
    if off == 0 {
        if l > 0 {
            assert(l - 1 == (q - 1) * cap + (cap - 1)) by (nonlinear_arith)
                requires
                    l == q * cap,
            ;
            vstd::arithmetic::div_mod::lemma_fundamental_div_mod_converse(
                l - 1,
                cap,
                q - 1,
                cap - 1,
            );
        }
    } else {
        assert(l - 1 == q * cap + (off - 1));
        vstd::arithmetic::div_mod::lemma_fundamental_div_mod_converse(l - 1, cap, q, off - 1);
    }
    if off + count == cap {
        assert(l + count == (q + 1) * cap + 0) by (nonlinear_arith)
            requires
                l == q * cap + off,
                off + count == cap,
        ;
        vstd::arithmetic::div_mod::lemma_fundamental_div_mod_converse(l + count, cap, q + 1, 0);
    } else {
        assert(l + count == q * cap + (off + count));
        vstd::arithmetic::div_mod::lemma_fundamental_div_mod_converse(
            l + count,
            cap,
            q,
            off + count,
        );
    }
    assert((q + 1) * cap == q * cap + cap) by (nonlinear_arith);
    assert forall|c: nat| c < len / capacity implies #[trigger] records_in_chunk(
        len + count,
        capacity,
        c,
    ) == capacity && records_in_chunk(len, capacity, c) == capacity by {
        assert((c + 1) * cap <= q * cap) by (nonlinear_arith)
            requires
                c + 1 <= q,
                cap > 0,
        ;
    }
}

/// Bytes that a chunk holds at most, where nothing else is asked for.
pub const DEFAULT_CHUNK_BYTES: usize = 33_554_432;

/// Number of records of `record_bytes` bytes in a chunk of the default size:
/// as many as fit, and one where a single record is larger than the chunk.
pub open spec fn spec_default_capacity(record_bytes: nat) -> nat {
    if record_bytes == 0 || record_bytes >= DEFAULT_CHUNK_BYTES {
        1
    } else {
        DEFAULT_CHUNK_BYTES as nat / record_bytes
    }
}

/// Number of records of `dim` elements of `size` bytes in a chunk of the
/// default size.
pub fn default_capacity(dim: usize, size: usize) -> (capacity: usize)
    ensures
        capacity == spec_default_capacity((dim * size) as nat),
        capacity >= 1,
{
    assert(dim * size >= 0) by (nonlinear_arith)
        requires
            dim >= 0,
            size >= 0,
    ;
    match dim.checked_mul(size) {
        Some(record_bytes) => {
            if record_bytes == 0 || record_bytes >= DEFAULT_CHUNK_BYTES {
                1
            } else {
                assert(DEFAULT_CHUNK_BYTES as int / record_bytes as int >= 1) by {
                    vstd::arithmetic::div_mod::lemma_div_non_zero(
                        DEFAULT_CHUNK_BYTES as int,
                        record_bytes as int,
                    );
                }
                DEFAULT_CHUNK_BYTES / record_bytes
            }
        },
        None => 1,
    }
}

/// A chunked array as it lies in its files: one file for each chunk.
#[derive(Clone, Debug, PartialEq, Eq)]
pub struct ArrayFiles {
    /// Number of elements in a record.
    pub dim: u64,
    /// Number of records in a full chunk.
    pub capacity: u64,
    /// Number of records in the array.
    pub len: u64,
    /// The bytes of each chunk: its elements one after the other, each with
    /// its lowest byte first.
    pub chunks: Vec<Vec<u8>>,
}

/// The bytes of each of `chunks`.
pub open spec fn chunk_bytes(chunks: Seq<Vec<u8>>) -> Seq<Seq<u8>> {
    Seq::new(chunks.len(), |c: int| chunks[c]@)
}

/// What the files of a chunked array hold.
pub struct ArrayFilesView {
    pub dim: nat,
    pub capacity: nat,
    pub len: nat,
    pub chunks: Seq<Seq<u8>>,
}

impl View for ArrayFiles {
    type V = ArrayFilesView;

    open spec fn view(&self) -> ArrayFilesView {
        ArrayFilesView {
            dim: self.dim as nat,
            capacity: self.capacity as nat,
            len: self.len as nat,
            chunks: chunk_bytes(self.chunks@),
        }
    }
}

impl ArrayFilesView {
    /// Whether the files hold a chunked array of elements of `size` bytes.
    pub open spec fn readable(self, size: nat) -> bool {
        array_readable(self.dim, self.capacity, self.len, self.chunks, size)
    }
}

/// Whether files hold a chunked array of elements of `size` bytes: the
/// layout can be kept in memory, there is one file for each chunk, and each
/// file is as long as the records of its chunk.
pub open spec fn array_readable(
    dim: nat,
    capacity: nat,
    len: nat,
    chunks: Seq<Seq<u8>>,
    size: nat,
) -> bool {
    &&& dim > 0
    &&& capacity > 0
    &&& capacity * dim * size <= usize::MAX
    &&& len <= usize::MAX
    &&& chunks.len() == chunks_needed(len, capacity)
    &&& forall|c: int|
        0 <= c < chunks.len() ==> (#[trigger] chunks[c]).len() == records_in_chunk(
            len,
            capacity,
            c as nat,
        ) * dim * size
}

/// An append-only array of records of `dim` elements each, kept in chunks of
/// `capacity` records.
pub struct ChunkedVectors<T> {
    dim: usize,
    capacity: usize,
    len: usize,
    chunks: Vec<Vec<T>>,
}

impl<T: PrimitiveVectorElement> ChunkedVectors<T> {
    /// Number of elements in a record.
    pub closed spec fn spec_dim(&self) -> nat {
        self.dim as nat
    }

    /// Number of records in a full chunk.
    pub closed spec fn spec_capacity(&self) -> nat {
        self.capacity as nat
    }

    /// Number of records in the array, blank ones included.
    pub closed spec fn spec_len(&self) -> nat {
        self.len as nat
    }

    /// The elements of each chunk.
    pub closed spec fn spec_chunks(&self) -> Seq<Seq<T>> {
        Seq::new(self.chunks@.len(), |c: int| self.chunks@[c]@)
    }

    /// The chunks hold exactly the records of the array, every chunk but the
    /// last a full one.
    pub open spec fn wf(&self) -> bool {
        &&& self.spec_dim() > 0
        &&& self.spec_capacity() > 0
        &&& self.spec_capacity() * self.spec_dim() <= usize::MAX
        &&& self.spec_chunks().len() == chunks_needed(self.spec_len(), self.spec_capacity())
        &&& forall|c: int|
            0 <= c < self.spec_chunks().len() ==> (#[trigger] self.spec_chunks()[c]).len()
                == records_in_chunk(self.spec_len(), self.spec_capacity(), c as nat)
                * self.spec_dim()
    }

    /// Whether `count` records from `start` on exist and lie in one chunk.
    pub open spec fn valid_run(&self, start: int, count: int) -> bool {
        &&& 0 <= start
        &&& 1 <= count
        &&& start + count <= self.spec_len()
        &&& start % (self.spec_capacity() as int) + count <= self.spec_capacity()
    }

    /// The elements of `count` records from `start` on, one record after the other.
    pub open spec fn run(&self, start: int, count: int) -> Seq<T> {
        self.spec_chunks()[start / (self.spec_capacity() as int)].subrange(
            (start % (self.spec_capacity() as int)) * self.spec_dim(),
            (start % (self.spec_capacity() as int) + count) * self.spec_dim(),
        )
    }

    /// The elements of record `key`.
    pub open spec fn record(&self, key: int) -> Seq<T> {
        self.run(key, 1)
    }

    /// Every chunk of `self` stands unchanged at the start of the chunk of
    /// `later` in the same place.
    pub open spec fn extended_by(&self, later: &Self) -> bool {
        &&& later.spec_dim() == self.spec_dim()
        &&& later.spec_capacity() == self.spec_capacity()
        &&& later.spec_len() >= self.spec_len()
        &&& later.spec_chunks().len() >= self.spec_chunks().len()
        &&& forall|c: int|
            0 <= c < self.spec_chunks().len() ==> (#[trigger] later.spec_chunks()[c]).len()
                >= self.spec_chunks()[c].len() && later.spec_chunks()[c].take(
                self.spec_chunks()[c].len() as int,
            ) == self.spec_chunks()[c]
    }

    /// Every record has `dim` elements and every run `count` times as many.
    pub proof fn lemma_run_len(&self, start: int, count: int)
        requires
            self.wf(),
            self.valid_run(start, count),
        ensures
            self.run(start, count).len() == count * self.spec_dim(),
    {
        lemma_run_bounds(self.spec_len(), self.spec_capacity(), self.spec_dim(), start, count);
    }

    /// A run of an array is the same run of every array that extends it.
    pub proof fn lemma_run_extended(&self, later: &Self, start: int, count: int)
        requires
            self.wf(),
            self.extended_by(later),
            self.valid_run(start, count),
        ensures
            later.valid_run(start, count),
            later.run(start, count) == self.run(start, count),
    {
        lemma_run_bounds(self.spec_len(), self.spec_capacity(), self.spec_dim(), start, count);
        let c = start / (self.spec_capacity() as int);
        let before = self.spec_chunks()[c];
        let after = later.spec_chunks()[c];
        assert(after.take(before.len() as int) == before);
        assert(later.run(start, count) =~= self.run(start, count)) by {
            let lo = (start % (self.spec_capacity() as int)) * self.spec_dim();
            let hi = (start % (self.spec_capacity() as int) + count) * self.spec_dim();
            assert forall|i: int| 0 <= i < hi - lo implies after.subrange(lo, hi)[i]
                == before.subrange(lo, hi)[i] by {
                assert(after.take(before.len() as int)[lo + i] == after[lo + i]);
            }
        }
    }

    /// Every array extends itself.
    pub proof fn lemma_extended_refl(&self)
        ensures
            self.extended_by(self),
    {
        assert forall|c: int| 0 <= c < self.spec_chunks().len() implies (
        #[trigger] self.spec_chunks()[c]).take(self.spec_chunks()[c].len() as int)
            == self.spec_chunks()[c] by {
            assert(self.spec_chunks()[c].take(self.spec_chunks()[c].len() as int)
                =~= self.spec_chunks()[c]);
        }
    }

    /// An array that extends an extension of `self` extends `self`.
    pub proof fn lemma_extended_trans(&self, middle: &Self, later: &Self)
        requires
            self.extended_by(middle),
            middle.extended_by(later),
        ensures
            self.extended_by(later),
    {
        assert forall|c: int| 0 <= c < self.spec_chunks().len() implies (
        #[trigger] later.spec_chunks()[c]).len() >= self.spec_chunks()[c].len()
            && later.spec_chunks()[c].take(self.spec_chunks()[c].len() as int)
            == self.spec_chunks()[c] by {
            let a = self.spec_chunks()[c];
            let b = middle.spec_chunks()[c];
            let d = later.spec_chunks()[c];
            assert(b.take(a.len() as int) == a);
            assert(d.take(b.len() as int) == b);
            assert(d.take(a.len() as int) =~= b.take(a.len() as int)) by {
                assert forall|i: int| 0 <= i < a.len() implies d.take(a.len() as int)[i]
                    == b.take(a.len() as int)[i] by {
                    assert(d.take(b.len() as int)[i] == d[i]);
                }
            }
        }
    }

    /// A record inside a run is the matching part of the run.
    pub proof fn lemma_record_in_run(&self, start: int, count: int, key: int)
        requires
            self.wf(),
            self.valid_run(start, count),
            start <= key < start + count,
        ensures
            self.valid_run(key, 1),
            (key - start) * self.spec_dim() + self.spec_dim() <= self.run(start, count).len(),
            self.record(key) == self.run(start, count).subrange(
                (key - start) * self.spec_dim(),
                (key - start) * self.spec_dim() + self.spec_dim(),
            ),
    {
        let cap = self.spec_capacity() as int;
        let dim = self.spec_dim() as int;
        lemma_run_bounds(self.spec_len(), self.spec_capacity(), self.spec_dim(), start, count);
        vstd::arithmetic::div_mod::lemma_fundamental_div_mod(start, cap);
        let c = start / cap;
        let off = start % cap;
        assert(cap * c == c * cap) by (nonlinear_arith);
        assert(key == c * cap + (off + key - start));
        vstd::arithmetic::div_mod::lemma_fundamental_div_mod_converse(
            key,
            cap,
            c,
            off + key - start,
        );
        lemma_run_bounds(self.spec_len(), self.spec_capacity(), self.spec_dim(), key, 1);
        let d = key - start;
        assert((off + d) * dim == off * dim + d * dim) by (nonlinear_arith);
        assert((off + d + 1) * dim == off * dim + d * dim + dim) by (nonlinear_arith);
        assert((off + count) * dim - off * dim == count * dim) by (nonlinear_arith);
        assert(d * dim + dim <= count * dim) by (nonlinear_arith)
            requires
                d + 1 <= count,
                dim >= 0,
        ;
        assert(self.record(key) =~= self.run(start, count).subrange(d * dim, d * dim + dim));
    }

    /// The array without records.
    pub fn new(dim: usize, capacity: usize) -> (r: Self)
        requires
            dim > 0,
            capacity > 0,
            capacity * dim <= usize::MAX,
        ensures
            r.wf(),
            r.spec_dim() == dim,
            r.spec_capacity() == capacity,
            r.spec_len() == 0,
            r.spec_chunks() == Seq::<Seq<T>>::empty(),
    {
        let r = ChunkedVectors { dim, capacity, len: 0, chunks: Vec::new() };
        assert(r.spec_chunks() =~= Seq::<Seq<T>>::empty());
        r
    }

    /// Number of elements in a record.
    pub fn dim(&self) -> (r: usize)
        ensures
            r == self.spec_dim(),
    {
        self.dim
    }

    /// Number of records in a full chunk.
    pub fn capacity(&self) -> (r: usize)
        ensures
            r == self.spec_capacity(),
    {
        self.capacity
    }

    /// Number of records in the array, blank ones included.
    pub fn len(&self) -> (r: usize)
        ensures
            r == self.spec_len(),
    {
        self.len
    }

    /// The elements of `count` records from `start` on.
    pub fn get_run(&self, start: usize, count: usize) -> (r: &[T])
        requires
            self.wf(),
            self.valid_run(start as int, count as int),
        ensures
            r@ == self.run(start as int, count as int),
            r@.len() == count * self.spec_dim(),
    {
        proof {
            lemma_run_bounds(
                self.spec_len(),
                self.spec_capacity(),
                self.spec_dim(),
                start as int,
                count as int,
            );
        }
        let chunk: usize = start / self.capacity;
        let offset: usize = start % self.capacity;
        assert(self.spec_chunks()[chunk as int] == self.chunks@[chunk as int]@);
        assert(records_in_chunk(self.spec_len(), self.spec_capacity(), chunk as nat)
            * self.spec_dim() <= self.spec_capacity() * self.spec_dim()) by (nonlinear_arith)
            requires
                records_in_chunk(self.spec_len(), self.spec_capacity(), chunk as nat)
                    <= self.spec_capacity(),
        ;
        let low: usize = offset * self.dim;
        let high: usize = (offset + count) * self.dim;
        slice_subrange(self.chunks[chunk].as_slice(), low, high)
    }

    /// The elements of record `key`.
    pub fn get(&self, key: usize) -> (r: &[T])
        requires
            self.wf(),
            key < self.spec_len(),
        ensures
            r@ == self.record(key as int),
            r@.len() == self.spec_dim(),
    {
        proof {
            vstd::arithmetic::div_mod::lemma_mod_bound(key as int, self.spec_capacity() as int);
        }
        self.get_run(key, 1)
    }
    /// Appends the elements of `source` to chunk `chunk`.
    fn extend_chunk(&mut self, chunk: usize, source: &[T])
        requires
            chunk < old(self).chunks@.len(),
        ensures
            final(self).dim == old(self).dim,
            final(self).capacity == old(self).capacity,
            final(self).len == old(self).len,
            final(self).chunks@.len() == old(self).chunks@.len(),
            final(self).chunks@[chunk as int]@ == old(self).chunks@[chunk as int]@ + source@,
            forall|c: int|
                0 <= c < old(self).chunks@.len() && c != chunk ==> final(self).chunks@[c]
                    == old(self).chunks@[c],
    {
        let mut i: usize = 0;
        while i < source.len()
            invariant
                i <= source.len(),
                chunk < self.chunks@.len(),
                self.dim == old(self).dim,
                self.capacity == old(self).capacity,
                self.len == old(self).len,
                self.chunks@.len() == old(self).chunks@.len(),
                self.chunks@[chunk as int]@ == old(self).chunks@[chunk as int]@ + source@.take(
                    i as int,
                ),
                forall|c: int|
                    0 <= c < old(self).chunks@.len() && c != chunk ==> self.chunks@[c]
                        == old(self).chunks@[c],
            decreases source.len() - i,
        {
            let ghost before = self.chunks@[chunk as int]@;
            self.chunks[chunk].push(source[i]);
            i += 1;
            assert(self.chunks@[chunk as int]@ =~= old(self).chunks@[chunk as int]@
                + source@.take(i as int)) by {
                assert(source@.take(i as int) =~= source@.take(i - 1).push(source@[i - 1]));
            }
        }
        assert(source@.take(i as int) =~= source@);
    }

    /// Appends `count` blank elements to chunk `chunk`.
    fn fill_chunk(&mut self, chunk: usize, count: usize)
        requires
            chunk < old(self).chunks@.len(),
        ensures
            final(self).dim == old(self).dim,
            final(self).capacity == old(self).capacity,
            final(self).len == old(self).len,
            final(self).chunks@.len() == old(self).chunks@.len(),
            final(self).chunks@[chunk as int]@ == old(self).chunks@[chunk as int]@ + zeros::<T>(
                count as nat,
            ),
            forall|c: int|
                0 <= c < old(self).chunks@.len() && c != chunk ==> final(self).chunks@[c]
                    == old(self).chunks@[c],
    {
        let blank = match T::from_raw(0) {
            Some(blank) => blank,
            None => {
                return ;
            },
        };
        let mut i: usize = 0;
        while i < count
            invariant
                i <= count,
                blank == T::spec_from_raw(0),
                chunk < self.chunks@.len(),
                self.dim == old(self).dim,
                self.capacity == old(self).capacity,
                self.len == old(self).len,
                self.chunks@.len() == old(self).chunks@.len(),
                self.chunks@[chunk as int]@ == old(self).chunks@[chunk as int]@ + zeros::<T>(
                    i as nat,
                ),
                forall|c: int|
                    0 <= c < old(self).chunks@.len() && c != chunk ==> self.chunks@[c]
                        == old(self).chunks@[c],
            decreases count - i,
        {
            self.chunks[chunk].push(blank);
            i += 1;
            assert(self.chunks@[chunk as int]@ =~= old(self).chunks@[chunk as int]@ + zeros::<T>(
                i as nat,
            ));
        }
    }

    /// Appends `count` records where they fit into the room of the last
    /// chunk, or open a new chunk behind a full one: the records of `source`,
    /// or blank ones where there is no source.
    fn append_in_place(&mut self, source: Option<&[T]>, count: usize)
        requires
            old(self).wf(),
            count >= 1,
            old(self).spec_len() % old(self).spec_capacity() + count <= old(self).spec_capacity(),
            old(self).spec_len() + count <= usize::MAX,
            source matches Some(records) ==> records@.len() == count * old(self).spec_dim(),
        ensures
            final(self).wf(),
            final(self).spec_len() == old(self).spec_len() + count,
            old(self).extended_by(final(self)),
            final(self).valid_run(old(self).spec_len() as int, count as int),
            final(self).run(old(self).spec_len() as int, count as int) == match source {
                Some(records) => records@,
                None => zeros::<T>((count * old(self).spec_dim()) as nat),
            },
    {
        let ghost len = self.spec_len();
        let ghost cap = self.spec_capacity();
        let ghost dim = self.spec_dim();
        let ghost before = self.spec_chunks();
        proof {
            lemma_layout_grow(len, cap, count as nat);
            assert(count * dim <= cap * dim) by (nonlinear_arith)
                requires
                    count <= cap,
                    dim >= 0,
            ;
        }
        if self.len % self.capacity == 0 {
            self.chunks.push(Vec::new());
        }
        let last: usize = self.chunks.len() - 1;
        assert(last == len / cap);
        let ghost held = self.chunks@[last as int]@;
        assert(held.len() == (len % cap) * dim) by {
            if len % cap != 0 {
                assert(held == before[last as int]);
            } else {
                assert((len % cap) * dim == 0) by (nonlinear_arith)
                    requires
                        len % cap == 0,
                ;
            }
        }
        match source {
            Some(records) => {
                self.extend_chunk(last, records);
            },
            None => {
                self.fill_chunk(last, count * self.dim);
            },
        }
        self.len = self.len + count;
        proof {
            let added = match source {
                Some(records) => records@,
                None => zeros::<T>((count * dim) as nat),
            };
            assert(self.spec_chunks()[last as int] == held + added);
            let off = (len % cap) as int;
            assert((off + count) * dim == off * dim + count * dim) by (nonlinear_arith);
            assert forall|c: int| 0 <= c < self.spec_chunks().len() implies (
            #[trigger] self.spec_chunks()[c]).len() == records_in_chunk(
                self.spec_len(),
                self.spec_capacity(),
                c as nat,
            ) * self.spec_dim() by {
                if c < last {
                    assert(self.spec_chunks()[c] == before[c]);
                    assert(records_in_chunk((len + count) as nat, cap, c as nat) == cap);
                    assert(records_in_chunk(len, cap, c as nat) == cap);
                }
            }
            assert forall|c: int| 0 <= c < before.len() implies (
            #[trigger] self.spec_chunks()[c]).len() >= before[c].len()
                && self.spec_chunks()[c].take(before[c].len() as int) == before[c] by {
                if c < last {
                    assert(self.spec_chunks()[c] == before[c]);
                    assert(before[c].take(before[c].len() as int) =~= before[c]);
                } else {
                    assert(before[c] == held);
                    assert((held + added).take(held.len() as int) =~= held);
                }
            }
            vstd::arithmetic::div_mod::lemma_mod_bound(len as int, cap as int);
            assert(self.run(len as int, count as int) =~= added);
        }
    }
    /// Appends the `count` records of `source` as one run and gives the offset
    /// of its first record. Blank records fill the last chunk first where the
    /// run does not fit into it. Nothing changes where the offsets run out.
    pub fn push_run(&mut self, source: &[T], count: usize) -> (r: OperationResult<usize>)
        requires
            old(self).wf(),
            1 <= count <= old(self).spec_capacity(),
            source@.len() == count * old(self).spec_dim(),
        ensures
            final(self).wf(),
            match r {
                Ok(start) => {
                    &&& start == run_start(
                        old(self).spec_len(),
                        old(self).spec_capacity(),
                        count as nat,
                    )
                    &&& final(self).spec_len() == start + count
                    &&& old(self).extended_by(final(self))
                    &&& final(self).valid_run(start as int, count as int)
                    &&& final(self).run(start as int, count as int) == source@
                    &&& start > old(self).spec_len() ==> {
                        &&& final(self).valid_run(
                            old(self).spec_len() as int,
                            start - old(self).spec_len(),
                        )
                        &&& final(self).run(
                            old(self).spec_len() as int,
                            start - old(self).spec_len(),
                        ) == zeros::<T>(((start - old(self).spec_len()) * old(self).spec_dim()) as nat)
                    }
                },
                Err(e) => e == OperationError::OutOfRange && *final(self) == *old(self),
            },
            r is Err <==> run_start(old(self).spec_len(), old(self).spec_capacity(), count as nat)
                + count > usize::MAX,
    {
        let offset: usize = self.len % self.capacity;
        let pad: usize = if offset != 0 && self.capacity - offset < count {
            self.capacity - offset
        } else {
            0
        };
        if pad > usize::MAX - self.len {
            return Err(OperationError::OutOfRange);
        }
        let start: usize = self.len + pad;
        if count > usize::MAX - start {
            return Err(OperationError::OutOfRange);
        }
        let ghost first = *self;
        if pad > 0 {
            proof {
                lemma_layout_grow(self.spec_len(), self.spec_capacity(), pad as nat);
            }
            self.append_in_place(None, pad);
        } else {
            proof {
                first.lemma_extended_refl();
            }
        }
        let ghost middle = *self;
        proof {
            vstd::arithmetic::div_mod::lemma_mod_bound(
                first.spec_len() as int,
                first.spec_capacity() as int,
            );
        }
        self.append_in_place(Some(source), count);
        proof {
            first.lemma_extended_trans(&middle, self);
            if pad > 0 {
                middle.lemma_run_extended(self, first.spec_len() as int, pad as int);
            }
        }
        Ok(start)
    }

    /// Writes `source` over record `key`, leaving every other record as it is.
    pub fn set_record(&mut self, key: usize, source: &[T])
        requires
            old(self).wf(),
            key < old(self).spec_len(),
            source@.len() == old(self).spec_dim(),
        ensures
            final(self).wf(),
            final(self).spec_dim() == old(self).spec_dim(),
            final(self).spec_capacity() == old(self).spec_capacity(),
            final(self).spec_len() == old(self).spec_len(),
            final(self).record(key as int) == source@,
            forall|other: int|
                0 <= other < old(self).spec_len() && other != key ==>
                    #[trigger] final(self).record(other) == old(self).record(other),
    {
        let ghost cap = self.spec_capacity() as int;
        let ghost dim = self.spec_dim() as int;
        let ghost before = self.spec_chunks();
        proof {
            vstd::arithmetic::div_mod::lemma_mod_bound(key as int, cap);
            lemma_run_bounds(self.spec_len(), self.spec_capacity(), self.spec_dim(), key as int, 1);
        }
        let chunk: usize = key / self.capacity;
        let offset: usize = key % self.capacity;
        assert(before[chunk as int] == self.chunks@[chunk as int]@);
        assert(records_in_chunk(self.spec_len(), self.spec_capacity(), chunk as nat) * dim <= cap
            * dim) by (nonlinear_arith)
            requires
                records_in_chunk(self.spec_len(), self.spec_capacity(), chunk as nat) <= cap,
                dim >= 0,
        ;
        assert((offset + 1) * dim == offset * dim + dim) by (nonlinear_arith);
        let base: usize = offset * self.dim;
        let mut j: usize = 0;
        while j < self.dim
            invariant
                j <= self.dim,
                self.dim == old(self).dim,
                self.capacity == old(self).capacity,
                self.len == old(self).len,
                source@.len() == self.dim,
                chunk < self.chunks@.len(),
                self.chunks@.len() == old(self).chunks@.len(),
                self.chunks@[chunk as int]@.len() == before[chunk as int].len(),
                base + self.dim <= before[chunk as int].len(),
                base + self.dim <= usize::MAX,
                before == old(self).spec_chunks(),
                forall|c: int|
                    0 <= c < self.chunks@.len() && c != chunk ==> self.chunks@[c]
                        == old(self).chunks@[c],
                forall|i: int|
                    0 <= i < before[chunk as int].len() ==>
                        #[trigger] self.chunks@[chunk as int]@[i]
                        == if base <= i < base + j {
                        source@[i - base]
                    } else {
                        before[chunk as int][i]
                    },
            decreases self.dim - j,
        {
            self.chunks[chunk].set(base + j, source[j]);
            j += 1;
        }
        proof {
            let after = self.spec_chunks();
            assert forall|c: int| 0 <= c < after.len() implies (#[trigger] after[c]).len()
                == before[c].len() by {}
            assert(self.record(key as int) =~= source@);
            assert forall|other: int|
                0 <= other < old(self).spec_len() && other != key implies #[trigger] self.record(
                other,
            ) == old(self).record(other) by {
                vstd::arithmetic::div_mod::lemma_mod_bound(other, cap);
                lemma_run_bounds(self.spec_len(), self.spec_capacity(), self.spec_dim(), other, 1);
                let c = other / cap;
                let o = other % cap;
                if c == chunk {
                    vstd::arithmetic::div_mod::lemma_fundamental_div_mod(other, cap);
                    vstd::arithmetic::div_mod::lemma_fundamental_div_mod(key as int, cap);
                    assert(o != offset);
                    assert((o + 1) * dim == o * dim + dim) by (nonlinear_arith);
                    if o < offset {
                        assert((o + 1) * dim <= offset * dim) by (nonlinear_arith)
                            requires
                                o + 1 <= offset,
                                dim >= 0,
                        ;
                    } else {
                        assert((offset + 1) * dim <= o * dim) by (nonlinear_arith)
                            requires
                                offset + 1 <= o,
                                dim >= 0,
                        ;
                    }
                    assert(self.record(other) =~= old(self).record(other));
                } else {
                    assert(after[c] == before[c]);
                }
            }
        }
    }

    /// Lengthens the array to `new_len` records with blank records.
    pub fn grow_to(&mut self, new_len: usize)
        requires
            old(self).wf(),
            old(self).spec_len() <= new_len,
        ensures
            final(self).wf(),
            final(self).spec_len() == new_len,
            old(self).extended_by(final(self)),
            forall|key: int|
                old(self).spec_len() <= key < new_len ==> #[trigger] final(self).record(key)
                    == zeros::<T>(old(self).spec_dim()),
    {
        proof {
            self.lemma_extended_refl();
        }
        while self.len < new_len
            invariant
                self.wf(),
                old(self).wf(),
                old(self).extended_by(self),
                old(self).spec_len() <= self.spec_len() <= new_len,
                forall|key: int|
                    old(self).spec_len() <= key < self.spec_len() ==> #[trigger] self.record(key)
                        == zeros::<T>(old(self).spec_dim()),
            decreases new_len - self.len,
        {
            let offset: usize = self.len % self.capacity;
            let room: usize = self.capacity - offset;
            let missing: usize = new_len - self.len;
            let step: usize = if missing < room {
                missing
            } else {
                room
            };
            let ghost before = *self;
            self.append_in_place(None, step);
            proof {
                old(self).lemma_extended_trans(&before, self);
                let dim = self.spec_dim() as int;
                assert forall|key: int|
                    old(self).spec_len() <= key < self.spec_len() implies #[trigger] self.record(
                    key,
                ) == zeros::<T>(old(self).spec_dim()) by {
                    if key < before.spec_len() {
                        vstd::arithmetic::div_mod::lemma_mod_bound(
                            key,
                            before.spec_capacity() as int,
                        );
                        assert(before.valid_run(key, 1));
                        assert(before.record(key) == zeros::<T>(old(self).spec_dim()));
                        before.lemma_run_extended(self, key, 1);
                    } else {
                        self.lemma_record_in_run(before.spec_len() as int, step as int, key);
                        let d = key - before.spec_len();
                        assert(self.run(before.spec_len() as int, step as int) == zeros::<T>(
                            (step * dim) as nat,
                        ));
                        assert(zeros::<T>((step * dim) as nat).subrange(d * dim, d * dim + dim)
                            =~= zeros::<T>(dim as nat));
                    }
                }
            }
        }
    }
    /// Whether `other` holds the same records in the same layout.
    pub open spec fn same_as(&self, other: &Self) -> bool {
        &&& self.spec_dim() == other.spec_dim()
        &&& self.spec_capacity() == other.spec_capacity()
        &&& self.spec_len() == other.spec_len()
        &&& self.spec_chunks() == other.spec_chunks()
    }

    /// The bytes of each chunk, as they go into its file.
    pub open spec fn spec_images(&self) -> Seq<Seq<u8>> {
        Seq::new(
            self.spec_chunks().len(),
            |c: int| encoded(raw_of(self.spec_chunks()[c]), T::spec_datatype().spec_size()),
        )
    }

    /// The files of an array read back as the array, where the bytes of a
    /// chunk can be counted.
    pub proof fn lemma_images_readable(&self)
        requires
            self.wf(),
            self.spec_capacity() * self.spec_dim() * T::spec_datatype().spec_size() <= usize::MAX,
        ensures
            array_readable(
                self.spec_dim(),
                self.spec_capacity(),
                self.spec_len(),
                self.spec_images(),
                T::spec_datatype().spec_size(),
            ),
            forall|c: int|
                0 <= c < self.spec_chunks().len() ==> elements_of::<T>(
                    decoded(#[trigger] self.spec_images()[c], T::spec_datatype().spec_size()),
                ) == self.spec_chunks()[c],
    {
        let size = T::spec_datatype().spec_size();
        assert forall|c: int| 0 <= c < self.spec_chunks().len() implies (
        #[trigger] self.spec_images()[c]).len() == records_in_chunk(
            self.spec_len(),
            self.spec_capacity(),
            c as nat,
        ) * self.spec_dim() * size && elements_of::<T>(decoded(self.spec_images()[c], size))
            == self.spec_chunks()[c] by {
            let chunk = self.spec_chunks()[c];
            lemma_raw_of_elements::<T>(chunk, Seq::empty());
            assert(all_within(raw_of(chunk), size)) by {
                assert forall|i: int| 0 <= i < chunk.len() implies #[trigger] raw_of(chunk)[i]
                    <= max_of_size(size) by {
                    assert(raw_of(chunk)[i] <= max_raw(T::spec_datatype()));
                }
            }
            lemma_encoded_round_trip(raw_of(chunk), size);
        }
    }

    /// Whether the array is what `files` hold.
    pub open spec fn held_by(&self, files: ArrayFilesView) -> bool {
        &&& self.spec_dim() == files.dim
        &&& self.spec_capacity() == files.capacity
        &&& self.spec_len() == files.len
        &&& self.spec_chunks().len() == files.chunks.len()
        &&& forall|c: int|
            0 <= c < files.chunks.len() ==> #[trigger] self.spec_chunks()[c] == elements_of::<T>(
                decoded(files.chunks[c], T::spec_datatype().spec_size()),
            )
    }

    /// Two arrays that the same files hold are the same.
    pub proof fn lemma_held_by(&self, other: &Self, files: ArrayFilesView)
        requires
            self.held_by(files),
            other.held_by(files),
        ensures
            self.same_as(other),
    {
        assert(self.spec_chunks() =~= other.spec_chunks());
    }

    /// The array as it goes into its files.
    pub fn to_files(&self) -> (files: ArrayFiles)
        requires
            self.wf(),
        ensures
            files.dim == self.spec_dim(),
            files.capacity == self.spec_capacity(),
            files.len == self.spec_len(),
            chunk_bytes(files.chunks@) == self.spec_images(),
            self.spec_capacity() * self.spec_dim() * T::spec_datatype().spec_size() <= usize::MAX
                ==> self.held_by(files@) && files@.readable(T::spec_datatype().spec_size()),
    {
        proof {
            if self.spec_capacity() * self.spec_dim() * T::spec_datatype().spec_size()
                <= usize::MAX {
                self.lemma_images_readable();
            }
        }
        let size = T::datatype().size();
        let mut chunks: Vec<Vec<u8>> = Vec::new();
        let mut c: usize = 0;
        while c < self.chunks.len()
            invariant
                c <= self.chunks@.len(),
                size == T::spec_datatype().spec_size(),
                chunks@.len() == c,
                forall|k: int|
                    0 <= k < c ==> (#[trigger] chunks@[k])@ == encoded(
                        raw_of(self.chunks@[k]@),
                        size as nat,
                    ),
            decreases self.chunks.len() - c,
        {
            let raw = to_raw_vec(self.chunks[c].as_slice());
            let mut bytes: Vec<u8> = Vec::new();
            encode_into(&mut bytes, raw.as_slice(), size);
            assert(bytes@ =~= encoded(raw@, size as nat));
            chunks.push(bytes);
            c += 1;
        }
        assert(chunk_bytes(chunks@) =~= self.spec_images());
        ArrayFiles {
            dim: self.dim as u64,
            capacity: self.capacity as u64,
            len: self.len as u64,
            chunks,
        }
    }

    /// The array that `files` hold, where they hold one.
    pub fn from_files(files: &ArrayFiles) -> (r: Option<Self>)
        ensures
            r is Some <==> array_readable(
                files.dim as nat,
                files.capacity as nat,
                files.len as nat,
                chunk_bytes(files.chunks@),
                T::spec_datatype().spec_size(),
            ),
            r matches Some(array) ==> {
                &&& array.wf()
                &&& array.held_by(files@)
                &&& array.spec_dim() == files.dim
                &&& array.spec_capacity() == files.capacity
                &&& array.spec_len() == files.len
                &&& array.spec_capacity() * array.spec_dim() * T::spec_datatype().spec_size()
                    <= usize::MAX
                &&& array.spec_chunks().len() == files.chunks@.len()
                &&& forall|c: int|
                    0 <= c < files.chunks@.len() ==> #[trigger] array.spec_chunks()[c]
                        == elements_of::<T>(
                        decoded(files.chunks@[c]@, T::spec_datatype().spec_size()),
                    )
            },
    {
        let size = T::datatype().size();
        let ghost images = chunk_bytes(files.chunks@);
        if files.dim == 0 || files.capacity == 0 || files.dim > usize::MAX as u64 || files.capacity
            > usize::MAX as u64 || files.len > usize::MAX as u64 {
            proof {
                if files.dim > 0 && files.capacity > 0 && (files.dim > usize::MAX
                    || files.capacity > usize::MAX) {
                    assert(files.capacity * files.dim * size >= files.capacity && files.capacity
                        * files.dim * size >= files.dim) by (nonlinear_arith)
                        requires
                            files.capacity >= 1,
                            files.dim >= 1,
                            size >= 1,
                    ;
                }
            }
            return None;
        }
        let dim = files.dim as usize;
        let capacity = files.capacity as usize;
        let len = files.len as usize;
        let record = match dim.checked_mul(size) {
            Some(record) => record,
            None => {
                assert(capacity * dim * size >= dim * size) by (nonlinear_arith)
                    requires
                        capacity >= 1,
                        dim * size >= 0,
                ;
                return None;
            },
        };
        if capacity.checked_mul(record).is_none() {
            assert(capacity * dim * size == capacity * (dim * size)) by (nonlinear_arith);
            return None;
        }
        assert(capacity * dim * size == capacity * (dim * size)) by (nonlinear_arith);
        assert(capacity * dim <= capacity * dim * size) by (nonlinear_arith)
            requires
                capacity * dim >= 0,
                size >= 1,
        ;
        let needed: usize = if len == 0 {
            0
        } else {
            (len - 1) / capacity + 1
        };
        if files.chunks.len() != needed {
            return None;
        }
        let mut chunks: Vec<Vec<T>> = Vec::new();
        let mut c: usize = 0;
        while c < needed
            invariant
                c <= needed,
                needed == chunks_needed(len as nat, capacity as nat),
                needed == files.chunks@.len(),
                images == chunk_bytes(files.chunks@),
                dim == files.dim,
                capacity == files.capacity,
                len == files.len,
                dim > 0,
                capacity > 0,
                size == T::spec_datatype().spec_size(),
                record == dim * size,
                capacity * record <= usize::MAX,
                chunks@.len() == c,
                forall|k: int|
                    0 <= k < c ==> (#[trigger] images[k]).len() == records_in_chunk(
                        len as nat,
                        capacity as nat,
                        k as nat,
                    ) * dim * size,
                forall|k: int|
                    0 <= k < c ==> (#[trigger] chunks@[k])@ == elements_of::<T>(
                        decoded(files.chunks@[k]@, size as nat),
                    ) && chunks@[k]@.len() == records_in_chunk(
                        len as nat,
                        capacity as nat,
                        k as nat,
                    ) * dim,
            decreases needed - c,
        {
            proof {
                // chunk `c` starts within the array
                vstd::arithmetic::div_mod::lemma_fundamental_div_mod(len - 1, capacity as int);
                vstd::arithmetic::div_mod::lemma_mod_bound(len - 1, capacity as int);
                assert(c * capacity <= (needed - 1) * capacity) by (nonlinear_arith)
                    requires
                        c <= needed - 1,
                        capacity > 0,
                ;
                assert(capacity * ((len - 1) / (capacity as int)) == ((len - 1) / (
                capacity as int)) * capacity) by (nonlinear_arith);
                assert((c + 1) * capacity == c * capacity + capacity) by (nonlinear_arith);
            }
            let start = c * capacity;
            let left = len - start;
            let held: usize = if left < capacity {
                left
            } else {
                capacity
            };
            assert(held == records_in_chunk(len as nat, capacity as nat, c as nat));
            assert(held * record <= capacity * record && held * record == held * dim * size
                && held * dim <= held * dim * size) by (nonlinear_arith)
                requires
                    0 <= held <= capacity,
                    record == dim * size,
                    size >= 1,
                    dim >= 0,
            ;
            let bytes = files.chunks[c].as_slice();
            assert(images[c as int] == files.chunks@[c as int]@);
            if bytes.len() != held * record {
                proof {
                    let held_bytes = records_in_chunk(len as nat, capacity as nat, c as nat) * dim
                        * size;
                    assert(chunk_bytes(files.chunks@)[c as int].len() != held_bytes);
                }
                return None;
            }
            proof {
                vstd::arithmetic::div_mod::lemma_mod_multiples_basic(
                    (held * dim) as int,
                    size as int,
                );
                assert(bytes@.len() == (held * dim) * size);
                lemma_decoded_round_trip(bytes@, size as nat);
                vstd::arithmetic::div_mod::lemma_div_multiples_vanish(
                    (held * dim) as int,
                    size as int,
                );
                assert((held * dim) * size == size * (held * dim)) by (nonlinear_arith);
                assert(bytes@.len() == (held * dim) * size);
                assert(((held * dim) * size) % (size as int) == 0);
                assert(bytes@.len() % (size as nat) == 0);
            }
            let raw = match decode_all(bytes, size) {
                Some(raw) => raw,
                None => {
                    return None;
                },
            };
            proof {
                assert(all_fit(raw@, T::spec_datatype())) by {
                    assert forall|i: int| 0 <= i < raw@.len() implies #[trigger] raw@[i]
                        <= max_raw(T::spec_datatype()) by {
                        assert(raw@[i] <= max_of_size(size as nat));
                    }
                }
            }
            let elements = match from_raw_vec::<T>(raw.as_slice()) {
                Some(elements) => elements,
                None => {
                    return None;
                },
            };
            chunks.push(elements);
            c += 1;
        }
        let array = ChunkedVectors { dim, capacity, len, chunks };
        proof {
            assert forall|k: int| 0 <= k < array.spec_chunks().len() implies (
            #[trigger] array.spec_chunks()[k]).len() == records_in_chunk(
                array.spec_len(),
                array.spec_capacity(),
                k as nat,
            ) * array.spec_dim() by {
                assert(array.spec_chunks()[k] == chunks@[k]@);
            }
            assert forall|k: int| 0 <= k < files.chunks@.len() implies
                #[trigger] array.spec_chunks()[k]
                == elements_of::<T>(decoded(files.chunks@[k]@, T::spec_datatype().spec_size())) by {
                assert(array.spec_chunks()[k] == chunks@[k]@);
            }
        }
        Some(array)
    }
}

} // verus!
