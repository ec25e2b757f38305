//! The vectors that go into and come out of a storage.
//!
//! Elements travel as raw numbers (see the element module), so a vector says
//! nothing about its precision: the storage that takes it does.

use vstd::prelude::*;

verus! {

/// Whether `indices` rise strictly and stand one to one beside `values`.
pub open spec fn sparse_valid(indices: Seq<u32>, values: Seq<u32>) -> bool {
    &&& indices.len() == values.len()
    &&& forall|i: int, j: int| 0 <= i < j < indices.len() ==> indices[i] < indices[j]
}

/// A vector given by the places that are not zero and by what stands there.
#[derive(Clone, Debug, PartialEq, Eq)]
pub struct SparseVector {
    pub indices: Vec<u32>,
    pub values: Vec<u32>,
}

impl SparseVector {
    /// The sparse vector without entries.
    pub fn empty() -> (r: Self)
        ensures
            r.indices@ == Seq::<u32>::empty(),
            r.values@ == Seq::<u32>::empty(),
    {
        SparseVector { indices: Vec::new(), values: Vec::new() }
    }

    /// Each index followed by its value.
    pub fn to_pairs(&self) -> (pairs: Vec<u32>)
        requires
            self.indices@.len() == self.values@.len(),
        ensures
            pairs@ == interleaved(self.indices@, self.values@),
    {
        let mut pairs: Vec<u32> = Vec::new();
        let mut i: usize = 0;
        while i < self.indices.len()
            invariant
                i <= self.indices@.len(),
                self.indices@.len() == self.values@.len(),
                pairs@ == interleaved(self.indices@.take(i as int), self.values@.take(i as int)),
            decreases self.indices.len() - i,
        {
            pairs.push(self.indices[i]);
            pairs.push(self.values[i]);
            i += 1;
            assert(pairs@ =~= interleaved(
                self.indices@.take(i as int),
                self.values@.take(i as int),
            ));
        }
        assert(self.indices@.take(i as int) =~= self.indices@);
        assert(self.values@.take(i as int) =~= self.values@);
        pairs
    }

    /// The sparse vector whose indices and values lie in `pairs`, each index
    /// followed by its value. A last entry without a partner is left out.
    pub fn from_pairs(pairs: &[u32]) -> (r: Self)
        ensures
            r.indices@ == evens(pairs@),
            r.values@ == odds(pairs@),
    {
        let mut indices: Vec<u32> = Vec::new();
        let mut values: Vec<u32> = Vec::new();
        let count = pairs.len() / 2;
        let mut i: usize = 0;
        while i < count
            invariant
                i <= count,
                count == pairs@.len() / 2,
                pairs@.len() <= usize::MAX,
                indices@ == evens(pairs@).take(i as int),
                values@ == odds(pairs@).take(i as int),
            decreases count - i,
        {
            assert(2 * i + 1 < pairs@.len());
            indices.push(pairs[2 * i]);
            values.push(pairs[2 * i + 1]);
            i += 1;
            assert(indices@ =~= evens(pairs@).take(i as int));
            assert(values@ =~= odds(pairs@).take(i as int));
        }
        assert(evens(pairs@).take(i as int) =~= evens(pairs@));
        assert(odds(pairs@).take(i as int) =~= odds(pairs@));
        SparseVector { indices, values }
    }

    /// Whether the indices rise strictly and stand one to one beside the values.
    pub fn is_valid(&self) -> (r: bool)
        ensures
            r == sparse_valid(self.indices@, self.values@),
    {
        if self.indices.len() != self.values.len() {
            return false;
        }
        let mut i: usize = 1;
        while i < self.indices.len()
            invariant
                1 <= i,
                forall|a: int, b: int|
                    0 <= a < b < i && b < self.indices@.len() ==> self.indices@[a]
                        < self.indices@[b],
            decreases self.indices.len() - i,
        {
            if self.indices[i - 1] >= self.indices[i] {
                return false;
            }
            proof {
                let indices = self.indices@;
                assert forall|a: int, b: int| 0 <= a < b < i + 1 && b < indices.len() implies
                    indices[a]
                    < indices[b] by {
                    if b == i && a < i - 1 {
                        assert(indices[a] < indices[i - 1]);
                    }
                }
            }
            i += 1;
        }
        true
    }
}

/// Several vectors of one width, laid one after the other.
#[derive(Clone, Debug, PartialEq, Eq)]
pub struct MultiDenseVectorInternal {
    pub flattened_vectors: Vec<u32>,
    pub dim: usize,
}

/// Several vectors of one width with elements of type `T`, as they lie in a
/// storage.
pub struct TypedMultiDenseVectorRef<'a, T> {
    pub flattened_vectors: &'a [T],
    pub dim: usize,
}

/// The entries of even index of `pairs`.
pub open spec fn evens(pairs: Seq<u32>) -> Seq<u32> {
    Seq::new(pairs.len() / 2, |i: int| pairs[2 * i])
}

/// The entries of odd index of `pairs`.
pub open spec fn odds(pairs: Seq<u32>) -> Seq<u32> {
    Seq::new(pairs.len() / 2, |i: int| pairs[2 * i + 1])
}

/// Each index followed by its value.
pub open spec fn interleaved(indices: Seq<u32>, values: Seq<u32>) -> Seq<u32> {
    Seq::new(
        2 * indices.len(),
        |i: int|
            if i % 2 == 0 {
                indices[i / 2]
            } else {
                values[i / 2]
            },
    )
}

/// Taking pairs apart gives back what was put together.
pub proof fn lemma_interleaved(indices: Seq<u32>, values: Seq<u32>)
    requires
        indices.len() == values.len(),
    ensures
        evens(interleaved(indices, values)) == indices,
        odds(interleaved(indices, values)) == values,
{
    assert(evens(interleaved(indices, values)) =~= indices);
    assert(odds(interleaved(indices, values)) =~= values);
}

/// A vector of any of the three shapes.
#[derive(Clone, Debug, PartialEq, Eq)]
pub enum VectorInternal {
    Dense(Vec<u32>),
    Sparse(SparseVector),
    MultiDense(MultiDenseVectorInternal),
}

/// What a vector holds.
pub enum VectorView {
    Dense(Seq<u32>),
    Sparse { indices: Seq<u32>, values: Seq<u32> },
    MultiDense { flattened: Seq<u32>, dim: nat },
}

impl View for VectorInternal {
    type V = VectorView;

    open spec fn view(&self) -> VectorView {
        match *self {
            VectorInternal::Dense(elements) => VectorView::Dense(elements@),
            VectorInternal::Sparse(sparse) => VectorView::Sparse {
                indices: sparse.indices@,
                values: sparse.values@,
            },
            VectorInternal::MultiDense(multi) => VectorView::MultiDense {
                flattened: multi.flattened_vectors@,
                dim: multi.dim as nat,
            },
        }
    }
}

impl VectorView {
    /// Number of elements the vector holds, over all its parts.
    pub open spec fn element_count(self) -> nat {
        match self {
            VectorView::Dense(elements) => elements.len(),
            VectorView::Sparse { indices, values } => indices.len() + values.len(),
            VectorView::MultiDense { flattened, dim } => flattened.len(),
        }
    }
}

} // verus!
