//! The deletion bitmap: one bit per point offset, kept in a bit vector.

use vstd::prelude::*;
use bitvec::order::Lsb0;
use bitvec::vec::BitVec;
use crate::common::PointOffsetType;

verus! {

/// A bit vector of the `bitvec` crate. Its type is bounded by traits of
/// that crate, which the verifier does not read; so the vector is held
/// behind this type, and what it holds is known through `bit_contents` alone.
#[verifier::external_body]
pub struct BitBuffer {
    bits: BitVec<usize, Lsb0>,
}

/// The bits that a buffer holds, first bit first.
pub uninterp spec fn bit_contents(buffer: BitBuffer) -> Seq<bool>;

/// Longest bitmap that is kept: a whole number of bytes, and no longer than
/// `bitvec` can describe a bit vector, which is an eighth of the address range.
pub open spec fn max_bits() -> nat {
    ((usize::MAX / 64) * 8) as nat
}

/// Longest bitmap that is kept.
pub fn bit_limit() -> (r: usize)
    ensures
        r == max_bits(),
{
    (usize::MAX / 64) * 8
}

/// Whether bit `place` of `byte` is set, counted from the lowest.
pub open spec fn byte_bit(byte: u8, place: int) -> bool {
    (byte >> (place as u8)) & 1 == 1
}

/// The bits of `bytes`, the lowest bit of each byte first.
pub open spec fn bits_of_bytes(bytes: Seq<u8>) -> Seq<bool> {
    Seq::new(8 * bytes.len(), |i: int| byte_bit(bytes[i / 8], i % 8))
}

/// Setting one bit of a byte leaves the others as they are.
pub proof fn lemma_set_bit(byte: u8, place: u8, other: u8)
    requires
        place < 8,
        other < 8,
    ensures
        byte_bit(byte | (1u8 << place), other as int) == (other == place || byte_bit(
            byte,
            other as int,
        )),
        byte_bit(0u8, other as int) == false,
{
    assert((((byte | (1u8 << place)) >> other) & 1 == 1) == (other == place || ((byte >> other) & 1
        == 1))) by (bit_vector)
        requires
            place < 8,
            other < 8,
    ;
    assert((0u8 >> other) & 1 == 0) by (bit_vector);
}

/// `BitVec::new`: a bit vector without bits.
#[verifier::external_body]
fn buffer_new() -> (buffer: BitBuffer)
    ensures
        bit_contents(buffer) == Seq::<bool>::empty(),
{
    BitBuffer { bits: BitVec::new() }
}

/// `BitVec::len`: the number of bits held.
#[verifier::external_body]
fn buffer_len(buffer: &BitBuffer) -> (len: usize)
    ensures
        len == bit_contents(*buffer).len(),
{
    buffer.bits.len()
}

/// `BitSlice::get` with a single index: the bit at `index`, or nothing when
/// `index` is past the last bit.
#[verifier::external_body]
fn buffer_get(buffer: &BitBuffer, index: usize) -> (bit: Option<bool>)
    ensures
        bit == if index < bit_contents(*buffer).len() {
            Some(bit_contents(*buffer)[index as int])
        } else {
            None
        },
{
    buffer.bits.get(index).map(|bit| *bit)
}

/// `BitSlice::replace`: writes `value` at `index` and hands back the bit that
/// stood there. The call panics on an index past the last bit, which the
/// precondition leaves out.
#[verifier::external_body]
fn buffer_replace(buffer: &mut BitBuffer, index: usize, value: bool) -> (previous: bool)
    requires
        index < bit_contents(*old(buffer)).len(),
    ensures
        bit_contents(*final(buffer)) == bit_contents(*old(buffer)).update(index as int, value),
        previous == bit_contents(*old(buffer))[index as int],
{
    buffer.bits.replace(index, value)
}

/// `BitVec::resize`: cuts the vector to `new_len` bits, or lengthens it to
/// `new_len` bits with `value` in every new place. The call panics on a
/// length past an eighth of the address range, which the vector cannot
/// describe; the precondition leaves such lengths out.
#[verifier::external_body]
fn buffer_resize(buffer: &mut BitBuffer, new_len: usize, value: bool)
    requires
        new_len <= max_bits(),
    ensures
        bit_contents(*final(buffer)).len() == new_len,
        forall|i: int|
            0 <= i < new_len ==> #[trigger] bit_contents(*final(buffer))[i] == if i
                < bit_contents(*old(buffer)).len() {
                bit_contents(*old(buffer))[i]
            } else {
                value
            },
{
    buffer.bits.resize(new_len, value)
}

/// Number of set bits in `bits`.
pub open spec fn count_set(bits: Seq<bool>) -> nat
    decreases bits.len(),
{
    if bits.len() == 0 {
        0
    } else {
        count_set(bits.drop_last()) + if bits.last() {
            1nat
        } else {
            0nat
        }
    }
}

/// Whether `bits` marks `id`: a place past the end counts as not marked.
pub open spec fn bit_is_set(bits: Seq<bool>, id: int) -> bool {
    0 <= id < bits.len() && bits[id]
}

/// Setting a clear bit adds one to the count; writing a bit's own value
/// leaves the count as it is.
pub proof fn lemma_count_set_update(bits: Seq<bool>, id: int)
    requires
        0 <= id < bits.len(),
    ensures
        count_set(bits.update(id, true)) == count_set(bits) + if bits[id] {
            0nat
        } else {
            1nat
        },
    decreases bits.len(),
{
    let after = bits.update(id, true);
    if id == bits.len() - 1 {
        assert(after.drop_last() =~= bits.drop_last());
    } else {
        lemma_count_set_update(bits.drop_last(), id);
        assert(after.drop_last() =~= bits.drop_last().update(id, true));
    }
}

/// Clear bits appended to a sequence do not change its count.
pub proof fn lemma_count_set_extend(bits: Seq<bool>, longer: Seq<bool>)
    requires
        bits.len() <= longer.len(),
        forall|i: int| 0 <= i < bits.len() ==> longer[i] == bits[i],
        forall|i: int| bits.len() <= i < longer.len() ==> !longer[i],
    ensures
        count_set(longer) == count_set(bits),
    decreases longer.len(),
{
    if longer.len() == bits.len() {
        assert(longer =~= bits);
    } else {
        lemma_count_set_extend(bits, longer.drop_last());
    }
}

/// No sequence has more set bits than places.
pub proof fn lemma_count_set_bound(bits: Seq<bool>)
    ensures
        count_set(bits) <= bits.len(),
    decreases bits.len(),
{
    if bits.len() > 0 {
        lemma_count_set_bound(bits.drop_last());
    }
}

/// The deletion flags of the first `total` offsets.
pub open spec fn flags(bits: Seq<bool>, total: nat) -> Seq<bool> {
    Seq::new(total, |key: int| bit_is_set(bits, key))
}

/// Where no bit is set from `total` on, the flags of the first `total`
/// offsets hold every set bit.
pub proof fn lemma_flags_count(bits: Seq<bool>, total: nat)
    requires
        forall|key: int| key >= total ==> !bit_is_set(bits, key),
    ensures
        count_set(flags(bits, total)) == count_set(bits),
{
    if bits.len() <= total {
        lemma_count_set_extend(bits, flags(bits, total));
    } else {
        assert forall|i: int| total <= i < bits.len() implies !bits[i] by {
            assert(!bit_is_set(bits, i));
        }
        lemma_count_set_extend(flags(bits, total), bits);
    }
}

/// A growing bit vector over point offsets, with the number of set bits kept
/// beside it.
pub struct DeletionBitmap {
    bits: BitBuffer,
    count: usize,
}

impl View for DeletionBitmap {
    type V = Seq<bool>;

    closed spec fn view(&self) -> Seq<bool> {
        bit_contents(self.bits)
    }
}

impl DeletionBitmap {
    /// The kept count is the number of set bits, and the vector is no longer
    /// than the bit vector can describe.
    pub closed spec fn wf(&self) -> bool {
        &&& self.count == count_set(self@)
        &&& self@.len() <= max_bits()
    }

    /// Number of set bits.
    pub closed spec fn spec_count(&self) -> nat {
        self.count as nat
    }

    /// Whether the bit of `id` is set.
    pub open spec fn spec_is_set(&self, id: int) -> bool {
        bit_is_set(self@, id)
    }

    /// The kept count is the number of set bits.
    pub proof fn lemma_count(&self)
        requires
            self.wf(),
        ensures
            self.spec_count() == count_set(self@),
            self.spec_count() <= self@.len(),
    {
        lemma_count_set_bound(self@);
    }

    /// Whether the bit at `place` is set; a place past the end is not set.
    pub fn get(&self, place: usize) -> (r: bool)
        ensures
            r == bit_is_set(self@, place as int),
    {
        match buffer_get(&self.bits, place) {
            Some(bit) => bit,
            None => false,
        }
    }

    /// The bitmap without bits.
    pub fn new() -> (r: Self)
        ensures
            r.wf(),
            r@ == Seq::<bool>::empty(),
            r.spec_count() == 0,
    {
        DeletionBitmap { bits: buffer_new(), count: 0 }
    }

    /// Number of places the bitmap holds at present.
    pub fn len(&self) -> (r: usize)
        ensures
            r == self@.len(),
            self.wf() ==> r <= max_bits(),
    {
        buffer_len(&self.bits)
    }

    /// Number of set bits.
    pub fn count(&self) -> (r: usize)
        ensures
            r == self.spec_count(),
    {
        self.count
    }

    /// Whether the bit of `id` is set; a place past the end is not set.
    pub fn is_set(&self, id: PointOffsetType) -> (r: bool)
        ensures
            r == self.spec_is_set(id as int),
    {
        match buffer_get(&self.bits, id as usize) {
            Some(bit) => bit,
            None => false,
        }
    }

    /// Length to which a bitmap of `len` places grows to hold the bit of `id`:
    /// twice its length, or `id + 1` where that is more, and never more than
    /// the bit vector can describe.
    pub open spec fn grown_len(len: nat, id: nat) -> nat {
        if id < len {
            len
        } else if 2 * len > max_bits() {
            max_bits()
        } else if 2 * len > id + 1 {
            2 * len
        } else {
            id + 1
        }
    }

    /// Sets the bit of `id` and tells whether it was clear before. A bitmap
    /// too short for `id` grows first.
    pub fn mark(&mut self, id: PointOffsetType) -> (flipped: bool)
        requires
            old(self).wf(),
            id < max_bits(),
        ensures
            final(self).wf(),
            flipped == !old(self).spec_is_set(id as int),
            final(self)@.len() == Self::grown_len(old(self)@.len(), id as nat),
            forall|other: int|
                0 <= other < final(self)@.len() ==> #[trigger] final(self)@[other] == (other == id
                    || old(self).spec_is_set(other)),
            final(self).spec_count() == old(self).spec_count() + if flipped {
                1nat
            } else {
                0nat
            },
    {
        let len: usize = buffer_len(&self.bits);
        let index: usize = id as usize;
        if index >= len {
            let limit: usize = bit_limit();
            let doubled: usize = 2 * len;
            let new_len: usize = if doubled > limit {
                limit
            } else if doubled > index + 1 {
                doubled
            } else {
                index + 1
            };
            let ghost before = self@;
            buffer_resize(&mut self.bits, new_len, false);
            proof {
                lemma_count_set_extend(before, self@);
            }
        }
        let ghost grown = self@;
        let previous = buffer_replace(&mut self.bits, index, true);
        proof {
            lemma_count_set_update(grown, index as int);
            lemma_count_set_bound(self@);
        }
        if !previous {
            self.count = self.count + 1;
        }
        !previous
    }
    /// The bitmap as bytes, the lowest bit of each byte first. The last byte
    /// is filled up with clear bits.
    pub fn to_bytes(&self) -> (bytes: Vec<u8>)
        requires
            self.wf(),
        ensures
            bytes@.len() == (self@.len() + 7) / 8,
            8 * bytes@.len() <= max_bits(),
            forall|id: int|
                0 <= id < 8 * bytes@.len() ==> #[trigger] bits_of_bytes(bytes@)[id]
                    == self.spec_is_set(id),
            forall|id: int| bit_is_set(bits_of_bytes(bytes@), id) == bit_is_set(self@, id),
    {
        let len = buffer_len(&self.bits);
        let count = (len + 7) / 8;
        let mut bytes: Vec<u8> = Vec::new();
        let mut k: usize = 0;
        while k < count
            invariant
                k <= count,
                count == (len + 7) / 8,
                len == self@.len(),
                len <= max_bits(),
                bytes@.len() == k,
                forall|id: int|
                    0 <= id < 8 * k ==> #[trigger] byte_bit(bytes@[id / 8], id % 8)
                        == self.spec_is_set(id),
            decreases count - k,
        {
            let mut byte: u8 = 0;
            let mut place: u8 = 0;
            proof {
                assert forall|other: u8| other < 8 implies #[trigger] byte_bit(byte, other as int)
                    == false by {
                    lemma_set_bit(0, 0, other);
                }
            }
            while place < 8
                invariant
                    place <= 8,
                    k < count,
                    count == (len + 7) / 8,
                    len == self@.len(),
                    len <= max_bits(),
                    forall|other: u8|
                        other < 8 ==> #[trigger] byte_bit(byte, other as int) == (other < place
                            && self.spec_is_set(8 * k + other)),
                decreases 8 - place,
            {
                let id = 8 * k + place as usize;
                let set = match buffer_get(&self.bits, id) {
                    Some(bit) => bit,
                    None => false,
                };
                let ghost before = byte;
                if set {
                    byte = byte | (1u8 << place);
                }
                proof {
                    assert forall|other: u8| other < 8 implies #[trigger] byte_bit(
                        byte,
                        other as int,
                    ) == (other < place + 1 && self.spec_is_set(8 * k + other)) by {
                        lemma_set_bit(before, place, other);
                    }
                }
                place += 1;
            }
            let ghost held = bytes@;
            bytes.push(byte);
            proof {
                assert forall|id: int| 0 <= id < 8 * (k + 1) implies #[trigger] byte_bit(
                    bytes@[id / 8],
                    id % 8,
                ) == self.spec_is_set(id) by {
                    if id >= 8 * k {
                        let other = (id % 8) as u8;
                        assert(id / 8 == k);
                        assert(byte_bit(byte, other as int) == self.spec_is_set(8 * k + other));
                    } else {
                        assert(bytes@[id / 8] == held[id / 8]);
                        assert(byte_bit(held[id / 8], id % 8) == self.spec_is_set(id));
                    }
                }
            }
            k += 1;
        }
        proof {
            assert forall|id: int| bit_is_set(bits_of_bytes(bytes@), id) == bit_is_set(
                self@,
                id,
            ) by {
                if 0 <= id < 8 * bytes@.len() {
                    assert(byte_bit(bytes@[id / 8], id % 8) == self.spec_is_set(id));
                }
            }
        }
        bytes
    }

    /// Cuts the bitmap to its first `len` places where it has more.
    pub fn cut_to(&mut self, len: usize)
        requires
            old(self).wf(),
        ensures
            final(self).wf(),
            final(self)@ == if len < old(self)@.len() {
                old(self)@.take(len as int)
            } else {
                old(self)@
            },
            forall|place: int|
                bit_is_set(final(self)@, place) == (place < len && bit_is_set(old(self)@, place)),
    {
        let held = buffer_len(&self.bits);
        if len >= held {
            return ;
        }
        let ghost before = self@;
        buffer_resize(&mut self.bits, len, false);
        assert(self@ =~= before.take(len as int));
        let mut count: usize = 0;
        let mut place: usize = 0;
        while place < len
            invariant
                place <= len,
                len == self@.len(),
                count <= place,
                count == count_set(self@.take(place as int)),
            decreases len - place,
        {
            let bit = match buffer_get(&self.bits, place) {
                Some(bit) => bit,
                None => false,
            };
            proof {
                assert(self@.take(place + 1).drop_last() =~= self@.take(place as int));
            }
            if bit {
                count += 1;
            }
            place += 1;
        }
        assert(self@.take(len as int) =~= self@);
        self.count = count;
    }

    /// Whether no bit is set at or past `len`.
    pub fn clear_from(&self, len: usize) -> (r: bool)
        requires
            self.wf(),
        ensures
            r == forall|place: int| place >= len ==> !#[trigger] bit_is_set(self@, place),
    {
        let bits = buffer_len(&self.bits);
        let mut place: usize = len;
        while place < bits
            invariant
                len <= place,
                bits == self@.len(),
                forall|k: int| len <= k < place ==> !#[trigger] bit_is_set(self@, k),
            decreases bits - place,
        {
            if self.get(place) {
                assert(bit_is_set(self@, place as int));
                return false;
            }
            place += 1;
        }
        true
    }

    /// The bitmap that `bytes` hold, the lowest bit of each byte first;
    /// nothing where they hold more bits than a bitmap keeps.
    pub fn from_bytes(bytes: &[u8]) -> (r: Option<Self>)
        ensures
            r is Some <==> 8 * bytes@.len() <= max_bits(),
            r matches Some(bitmap) ==> bitmap.wf() && bitmap@ == bits_of_bytes(bytes@),
    {
        let limit = bit_limit();
        if bytes.len() > limit / 8 {
            return None;
        }
        let len = 8 * bytes.len();
        let mut bits = buffer_new();
        buffer_resize(&mut bits, len, false);
        proof {
            lemma_count_set_extend(Seq::<bool>::empty(), bit_contents(bits));
        }
        let mut count: usize = 0;
        let mut id: usize = 0;
        while id < len
            invariant
                id <= len,
                len == 8 * bytes@.len(),
                len <= max_bits(),
                bit_contents(bits).len() == len,
                count <= id,
                count == count_set(bit_contents(bits)),
                forall|other: int|
                    0 <= other < len ==> #[trigger] bit_contents(bits)[other] == (other < id
                        && byte_bit(bytes@[other / 8], other % 8)),
            decreases len - id,
        {
            let byte = bytes[id / 8];
            let place = (id % 8) as u8;
            let ghost before = bit_contents(bits);
            if (byte >> place) & 1 == 1 {
                buffer_replace(&mut bits, id, true);
                proof {
                    lemma_count_set_update(before, id as int);
                }
                count += 1;
            }
            id += 1;
        }
        let bitmap = DeletionBitmap { bits, count };
        assert(bitmap@ =~= bits_of_bytes(bytes@));
        Some(bitmap)
    }
}

} // verus!
