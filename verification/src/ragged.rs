//! Rows of numbers of varying length, laid one after the other, with a table
//! of the places at which they start.

use vstd::prelude::*;

verus! {

/// Whether `offsets` cut `len` numbers into rows: they start at zero, never
/// fall, and end at `len`.
pub open spec fn valid_offsets(offsets: Seq<u64>, len: nat) -> bool {
    &&& offsets.len() >= 1
    &&& offsets[0] == 0
    &&& offsets.last() == len
    &&& forall|i: int, j: int| 0 <= i <= j < offsets.len() ==> offsets[i] <= offsets[j]
}

/// The rows into which `offsets` cut `data`.
pub open spec fn rows_of(data: Seq<u32>, offsets: Seq<u64>) -> Seq<Seq<u32>> {
    Seq::new(
        (offsets.len() - 1) as nat,
        |i: int| data.subrange(offsets[i] as int, offsets[i + 1] as int),
    )
}

/// Number of numbers in the first `count` of `rows`.
pub open spec fn flat_len(rows: Seq<Seq<u32>>, count: nat) -> nat
    decreases count,
{
    if count == 0 {
        0
    } else {
        flat_len(rows, (count - 1) as nat) + rows[count - 1].len()
    }
}

/// The first `count` rows hold as many numbers in every sequence of rows
/// that starts with them.
pub proof fn lemma_flat_len_prefix(shorter: Seq<Seq<u32>>, longer: Seq<Seq<u32>>, count: nat)
    requires
        count <= shorter.len() <= longer.len(),
        forall|i: int| 0 <= i < shorter.len() ==> shorter[i] == longer[i],
    ensures
        flat_len(shorter, count) == flat_len(longer, count),
    decreases count,
{
    if count > 0 {
        lemma_flat_len_prefix(shorter, longer, (count - 1) as nat);
    }
}

/// Rows of numbers of varying length.
pub struct Ragged {
    data: Vec<u32>,
    offsets: Vec<u64>,
}

impl View for Ragged {
    type V = Seq<Seq<u32>>;

    closed spec fn view(&self) -> Seq<Seq<u32>> {
        rows_of(self.data@, self.offsets@)
    }
}

impl Ragged {
    /// The numbers of all rows, one row after the other.
    pub closed spec fn spec_data(&self) -> Seq<u32> {
        self.data@
    }

    /// The place at which each row starts, and behind them the place at
    /// which the last row ends.
    pub closed spec fn spec_offsets(&self) -> Seq<u64> {
        self.offsets@
    }

    /// The table cuts the numbers into rows.
    pub closed spec fn wf(&self) -> bool {
        valid_offsets(self.offsets@, self.data@.len())
    }

    /// The rows are those into which the table cuts the numbers.
    pub proof fn lemma_parts(&self)
        requires
            self.wf(),
        ensures
            valid_offsets(self.spec_offsets(), self.spec_data().len()),
            self@ == rows_of(self.spec_data(), self.spec_offsets()),
            self@.len() + 1 == self.spec_offsets().len(),
    {
    }

    /// A row starts where the rows before it end.
    pub proof fn lemma_start(&self, index: nat)
        requires
            self.wf(),
            index <= self@.len(),
        ensures
            self.spec_offsets()[index as int] == flat_len(self@, index),
            flat_len(self@, self@.len()) == self.spec_data().len(),
        decreases self@.len() - index,
    {
        self.lemma_start_up_to(index);
        self.lemma_start_up_to(self@.len());
    }

    /// A row starts where the rows before it end.
    proof fn lemma_start_up_to(&self, index: nat)
        requires
            self.wf(),
            index <= self@.len(),
        ensures
            self.offsets@[index as int] == flat_len(self@, index),
        decreases index,
    {
        if index > 0 {
            self.lemma_start_up_to((index - 1) as nat);
            let low = self.offsets@[index - 1];
            let high = self.offsets@[index as int];
            assert(low <= high);
            assert(high <= self.offsets@[self.offsets@.len() - 1]);
            assert(self@[index - 1].len() == high - low);
        }
    }

    /// No rows.
    pub fn new() -> (r: Self)
        ensures
            r.wf(),
            r@ == Seq::<Seq<u32>>::empty(),
    {
        let mut offsets: Vec<u64> = Vec::new();
        offsets.push(0);
        let r = Ragged { data: Vec::new(), offsets };
        assert(r@ =~= Seq::<Seq<u32>>::empty());
        r
    }

    /// Number of rows.
    pub fn rows(&self) -> (r: usize)
        requires
            self.wf(),
        ensures
            r == self@.len(),
    {
        self.offsets.len() - 1
    }

    /// Number of numbers in all rows.
    pub fn total(&self) -> (r: usize)
        ensures
            r == self.spec_data().len(),
    {
        self.data.len()
    }

    /// The numbers of row `index`.
    pub fn row(&self, index: usize) -> (r: &[u32])
        requires
            self.wf(),
            index < self@.len(),
        ensures
            r@ == self@[index as int],
    {
        let places = self.offsets.len();
        let total = self.data.len();
        assert(index + 1 < places);
        assert(self.offsets@[index as int] <= self.offsets@[index + 1]);
        assert(self.offsets@[index + 1] <= self.offsets@[self.offsets@.len() - 1]);
        assert(self.offsets@[self.offsets@.len() - 1] == total);
        let low = self.offsets[index] as usize;
        let high = self.offsets[index + 1] as usize;
        vstd::slice::slice_subrange(self.data.as_slice(), low, high)
    }

    /// The place in the run of all numbers at which row `index` starts; for
    /// the number of rows, the place at which the last row ends.
    pub fn start_of(&self, index: usize) -> (r: u64)
        requires
            self.wf(),
            index <= self@.len(),
        ensures
            r == self.spec_offsets()[index as int],
    {
        self.offsets[index]
    }

    /// Appends `row` as the last row.
    pub fn push_row(&mut self, row: &[u32])
        requires
            old(self).wf(),
        ensures
            final(self).wf(),
            final(self)@ == old(self)@.push(row@),
            final(self).spec_data() == old(self).spec_data() + row@,
    {
        let ghost before = *self;
        let mut i: usize = 0;
        while i < row.len()
            invariant
                i <= row@.len(),
                self.offsets == before.offsets,
                self.data@ == before.data@ + row@.take(i as int),
            decreases row.len() - i,
        {
            self.data.push(row[i]);
            i += 1;
            assert(self.data@ =~= before.data@ + row@.take(i as int));
        }
        assert(row@.take(i as int) =~= row@);
        self.offsets.push(self.data.len() as u64);
        proof {
            let offsets = self.offsets@;
            assert forall|a: int, b: int| 0 <= a <= b < offsets.len() implies offsets[a]
                <= offsets[b] by {
                if b == offsets.len() - 1 {
                    if a < b {
                        assert(before.offsets@[a] <= before.offsets@[before.offsets@.len() - 1]);
                    }
                } else {
                    assert(before.offsets@[a] <= before.offsets@[b]);
                }
            }
            assert forall|k: int| 0 <= k < self@.len() implies #[trigger] self@[k] == before@.push(
                row@,
            )[k] by {
                if k < before@.len() {
                    assert(before.offsets@[k + 1] <= before.offsets@[before.offsets@.len() - 1]);
                    assert(self.data@.subrange(offsets[k] as int, offsets[k + 1] as int)
                        =~= before.data@.subrange(offsets[k] as int, offsets[k + 1] as int));
                } else {
                    assert(self.data@.subrange(offsets[k] as int, offsets[k + 1] as int) =~= row@);
                }
            }
            assert(self@ =~= before@.push(row@));
        }
    }

    /// The rows into which `offsets` cut `data`, where they do.
    pub fn from_parts(data: Vec<u32>, offsets: Vec<u64>) -> (r: Option<Self>)
        ensures
            r is Some <==> valid_offsets(offsets@, data@.len()),
            r matches Some(ragged) ==> ragged.wf() && ragged.spec_data() == data@
                && ragged.spec_offsets() == offsets@ && ragged@ == rows_of(data@, offsets@),
    {
        if offsets.len() == 0 || offsets[0] != 0 {
            return None;
        }
        if offsets[offsets.len() - 1] != data.len() as u64 {
            return None;
        }
        let mut i: usize = 1;
        while i < offsets.len()
            invariant
                1 <= i <= offsets@.len(),
                forall|a: int, b: int| 0 <= a <= b < i ==> offsets@[a] <= offsets@[b],
            decreases offsets.len() - i,
        {
            if offsets[i - 1] > offsets[i] {
                return None;
            }
            proof {
                assert forall|a: int, b: int| 0 <= a <= b < i + 1 implies offsets@[a]
                    <= offsets@[b] by {
                    if b == i && a < i {
                        assert(offsets@[a] <= offsets@[i - 1]);
                    }
                }
            }
            i += 1;
        }
        Some(Ragged { data, offsets })
    }

    /// The numbers of all rows, one row after the other.
    pub fn data(&self) -> (r: &Vec<u32>)
        ensures
            r@ == self.spec_data(),
    {
        &self.data
    }

    /// The place at which each row starts, and the place at which the last ends.
    pub fn offsets(&self) -> (r: &Vec<u64>)
        ensures
            r@ == self.spec_offsets(),
    {
        &self.offsets
    }
}

} // verus!
