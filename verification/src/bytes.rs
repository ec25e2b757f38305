//! Numbers as little-endian bytes, and back.

use vstd::prelude::*;

verus! {

/// The four bytes of `word`, lowest first.
pub open spec fn word_bytes(word: u32) -> Seq<u8> {
    seq![
        (word & 0xff) as u8,
        ((word >> 8) & 0xff) as u8,
        ((word >> 16) & 0xff) as u8,
        ((word >> 24) & 0xff) as u8,
    ]
}

/// The number whose lowest bytes are `bytes`; bytes past the fourth do not count.
pub open spec fn bytes_word(bytes: Seq<u8>) -> u32 {
    let b0: u32 = if bytes.len() > 0 {
        bytes[0] as u32
    } else {
        0
    };
    let b1: u32 = if bytes.len() > 1 {
        bytes[1] as u32
    } else {
        0
    };
    let b2: u32 = if bytes.len() > 2 {
        bytes[2] as u32
    } else {
        0
    };
    let b3: u32 = if bytes.len() > 3 {
        bytes[3] as u32
    } else {
        0
    };
    b0 | (b1 << 8) | (b2 << 16) | (b3 << 24)
}

/// Largest number that `size` bytes can hold.
pub open spec fn max_of_size(size: nat) -> u32 {
    if size == 1 {
        0xff
    } else if size == 2 {
        0xffff
    } else {
        0xffff_ffff
    }
}

/// Whether `size` is the size of an element: one, two or four bytes.
pub open spec fn valid_size(size: nat) -> bool {
    size == 1 || size == 2 || size == 4
}

/// The lowest `size` bytes of a number read back give the number, where the
/// number needs no more bytes than that.
pub proof fn lemma_word_round_trip(word: u32, size: nat)
    requires
        valid_size(size),
        word <= max_of_size(size),
    ensures
        word_bytes(word).len() == 4,
        bytes_word(word_bytes(word).take(size as int)) == word,
{
    let b0 = (word & 0xff) as u8;
    let b1 = ((word >> 8) & 0xff) as u8;
    let b2 = ((word >> 16) & 0xff) as u8;
    let b3 = ((word >> 24) & 0xff) as u8;
    assert(word & 0xff < 256 && (word >> 8) & 0xff < 256 && (word >> 16) & 0xff < 256 && (word
        >> 24) & 0xff < 256) by (bit_vector);
    assert(word == (word & 0xff) | (((word >> 8) & 0xff) << 8) | (((word >> 16) & 0xff) << 16) | (((
    word >> 24) & 0xff) << 24)) by (bit_vector);
    let taken = word_bytes(word).take(size as int);
    if size == 1 {
        assert(word <= 0xff ==> word == ((word & 0xff) | (0u32 << 8) | (0u32 << 16) | (0u32
            << 24))) by (bit_vector);
    } else if size == 2 {
        assert(word <= 0xffff ==> word == ((word & 0xff) | (((word >> 8) & 0xff) << 8) | (0u32
            << 16) | (0u32 << 24))) by (bit_vector);
    }
}

/// Reading bytes as a number and writing the number out gives the bytes.
pub proof fn lemma_bytes_round_trip(bytes: Seq<u8>)
    requires
        valid_size(bytes.len()),
    ensures
        bytes_word(bytes) <= max_of_size(bytes.len()),
        word_bytes(bytes_word(bytes)).take(bytes.len() as int) == bytes,
{
    let b0: u32 = bytes[0] as u32;
    let b1: u32 = if bytes.len() > 1 {
        bytes[1] as u32
    } else {
        0
    };
    let b2: u32 = if bytes.len() > 2 {
        bytes[2] as u32
    } else {
        0
    };
    let b3: u32 = if bytes.len() > 3 {
        bytes[3] as u32
    } else {
        0
    };
    let word = b0 | (b1 << 8) | (b2 << 16) | (b3 << 24);
    assert(b0 < 256 && b1 < 256 && b2 < 256 && b3 < 256 && word == b0 | (b1 << 8) | (b2 << 16) | (
    b3 << 24) ==> (word & 0xff) == b0 && ((word >> 8) & 0xff) == b1 && ((word >> 16) & 0xff) == b2
        && ((word >> 24) & 0xff) == b3) by (bit_vector);
    assert(b0 < 256 && b1 == 0 && b2 == 0 && b3 == 0 && word == b0 | (b1 << 8) | (b2 << 16) | (b3
        << 24) ==> word <= 0xff) by (bit_vector);
    assert(b0 < 256 && b1 < 256 && b2 == 0 && b3 == 0 && word == b0 | (b1 << 8) | (b2 << 16) | (b3
        << 24) ==> word <= 0xffff) by (bit_vector);
    assert(word_bytes(bytes_word(bytes)).take(bytes.len() as int) =~= bytes);
}

/// The numbers of `raw` as bytes, `size` bytes for each.
pub open spec fn encoded(raw: Seq<u32>, size: nat) -> Seq<u8> {
    Seq::new(raw.len() * size, |i: int| word_bytes(raw[i / (size as int)])[i % (size as int)])
}

/// The numbers that `bytes` hold, `size` bytes for each. Bytes left over at
/// the end are not read.
pub open spec fn decoded(bytes: Seq<u8>, size: nat) -> Seq<u32> {
    Seq::new(
        bytes.len() / size,
        |i: int| bytes_word(bytes.subrange(i * size, i * size + size)),
    )
}

/// Whether each number of `raw` fits into `size` bytes.
pub open spec fn all_within(raw: Seq<u32>, size: nat) -> bool {
    forall|i: int| 0 <= i < raw.len() ==> #[trigger] raw[i] <= max_of_size(size)
}

/// Numbers written out and read back are the same numbers.
pub proof fn lemma_encoded_round_trip(raw: Seq<u32>, size: nat)
    requires
        valid_size(size),
        all_within(raw, size),
    ensures
        encoded(raw, size).len() == raw.len() * size,
        decoded(encoded(raw, size), size) == raw,
{
    let bytes = encoded(raw, size);
    let s = size as int;
    vstd::arithmetic::div_mod::lemma_div_multiples_vanish(raw.len() as int, s);
    assert(raw.len() * size == s * raw.len()) by (nonlinear_arith)
        requires
            s == size,
    ;
    assert(bytes.len() / size == raw.len());
    assert forall|i: int| 0 <= i < raw.len() implies #[trigger] decoded(bytes, size)[i]
        == raw[i] by {
        assert(0 <= i * s && i * s + s <= raw.len() * s) by (nonlinear_arith)
            requires
                0 <= i,
                i + 1 <= raw.len(),
                s > 0,
        ;
        let part = bytes.subrange(i * s, i * s + s);
        assert forall|j: int| 0 <= j < s implies part[j] == word_bytes(raw[i])[j] by {
            vstd::arithmetic::div_mod::lemma_fundamental_div_mod_converse(i * s + j, s, i, j);
        }
        assert(part =~= word_bytes(raw[i]).take(s));
        lemma_word_round_trip(raw[i], size);
    }
    assert(decoded(bytes, size) =~= raw);
}

/// Bytes read as numbers and written out again are the same bytes, where
/// none is left over.
pub proof fn lemma_decoded_round_trip(bytes: Seq<u8>, size: nat)
    requires
        valid_size(size),
        bytes.len() % size == 0,
    ensures
        all_within(decoded(bytes, size), size),
        encoded(decoded(bytes, size), size) == bytes,
{
    let raw = decoded(bytes, size);
    let s = size as int;
    vstd::arithmetic::div_mod::lemma_fundamental_div_mod(bytes.len() as int, s);
    assert(raw.len() * size == s * raw.len()) by (nonlinear_arith)
        requires
            s == size,
    ;
    assert forall|i: int| 0 <= i < raw.len() implies #[trigger] raw[i] <= max_of_size(size) by {
        assert(0 <= i * s && i * s + s <= raw.len() * s) by (nonlinear_arith)
            requires
                0 <= i,
                i + 1 <= raw.len(),
                s > 0,
        ;
        lemma_bytes_round_trip(bytes.subrange(i * s, i * s + s));
    }
    assert forall|k: int| 0 <= k < bytes.len() implies encoded(raw, size)[k] == bytes[k] by {
        let i = k / s;
        let j = k % s;
        vstd::arithmetic::div_mod::lemma_fundamental_div_mod(k, s);
        vstd::arithmetic::div_mod::lemma_mod_bound(k, s);
        vstd::arithmetic::div_mod::lemma_div_is_ordered(k, bytes.len() as int - 1, s);
        vstd::arithmetic::div_mod::lemma_div_pos_is_pos(k, s);
        assert(s * i == i * s) by (nonlinear_arith);
        assert(i < raw.len()) by {
            if i >= raw.len() {
                assert(i * s >= raw.len() * s) by (nonlinear_arith)
                    requires
                        i >= raw.len(),
                        s > 0,
                ;
            }
        }
        assert(0 <= i * s && i * s + s <= raw.len() * s) by (nonlinear_arith)
            requires
                0 <= i,
                i + 1 <= raw.len(),
                s > 0,
        ;
        let part = bytes.subrange(i * s, i * s + s);
        lemma_bytes_round_trip(part);
        assert(word_bytes(bytes_word(part)).take(s)[j] == part[j]);
    }
    assert(encoded(raw, size) =~= bytes);
}

/// Appends the lowest `size` bytes of `word` to `out`.
pub fn push_word(out: &mut Vec<u8>, word: u32, size: usize)
    requires
        valid_size(size as nat),
    ensures
        final(out)@ == old(out)@ + word_bytes(word).take(size as int),
{
    assert(word & 0xff < 256 && (word >> 8) & 0xff < 256 && (word >> 16) & 0xff < 256 && (word
        >> 24) & 0xff < 256) by (bit_vector);
    out.push((word & 0xff) as u8);
    if size > 1 {
        out.push(((word >> 8) & 0xff) as u8);
    }
    if size > 2 {
        out.push(((word >> 16) & 0xff) as u8);
        out.push(((word >> 24) & 0xff) as u8);
    }
    assert(out@ =~= old(out)@ + word_bytes(word).take(size as int));
}

/// The number held by `size` bytes of `bytes` from `at` on.
pub fn read_word(bytes: &[u8], at: usize, size: usize) -> (word: u32)
    requires
        valid_size(size as nat),
        at + size <= bytes@.len(),
    ensures
        word == bytes_word(bytes@.subrange(at as int, at + size)),
{
    let b0: u32 = bytes[at] as u32;
    let b1: u32 = if size > 1 {
        bytes[at + 1] as u32
    } else {
        0
    };
    let b2: u32 = if size > 2 {
        bytes[at + 2] as u32
    } else {
        0
    };
    let b3: u32 = if size > 2 {
        bytes[at + 3] as u32
    } else {
        0
    };
    b0 | (b1 << 8) | (b2 << 16) | (b3 << 24)
}

/// Appends the numbers of `raw` to `out`, `size` bytes for each.
pub fn encode_into(out: &mut Vec<u8>, raw: &[u32], size: usize)
    requires
        valid_size(size as nat),
    ensures
        final(out)@ == old(out)@ + encoded(raw@, size as nat),
{
    let mut i: usize = 0;
    assert(old(out)@ + encoded(raw@.take(0), size as nat) =~= old(out)@);
    while i < raw.len()
        invariant
            i <= raw@.len(),
            valid_size(size as nat),
            out@ == old(out)@ + encoded(raw@.take(i as int), size as nat),
        decreases raw.len() - i,
    {
        let ghost before = out@;
        push_word(out, raw[i], size);
        proof {
            let s = size as int;
            let shorter = encoded(raw@.take(i as int), size as nat);
            let longer = encoded(raw@.take(i + 1), size as nat);
            assert(i * s + s == (i + 1) * s) by (nonlinear_arith);
            assert forall|k: int| 0 <= k < longer.len() implies longer[k] == (shorter + word_bytes(
                raw@[i as int],
            ).take(s))[k] by {
                vstd::arithmetic::div_mod::lemma_fundamental_div_mod(k, s);
                vstd::arithmetic::div_mod::lemma_mod_bound(k, s);
                vstd::arithmetic::div_mod::lemma_div_pos_is_pos(k, s);
                let q = k / s;
                assert(s * q == q * s) by (nonlinear_arith);
                if k >= i * s {
                    assert(q == i) by (nonlinear_arith)
                        requires
                            k == q * s + k % s,
                            0 <= k % s < s,
                            i * s <= k < (i + 1) * s,
                    ;
                } else {
                    assert(q < i) by (nonlinear_arith)
                        requires
                            k == q * s + k % s,
                            0 <= k % s < s,
                            k < i * s,
                    ;
                }
            }
            assert(longer =~= shorter + word_bytes(raw@[i as int]).take(s));
        }
        i += 1;
    }
    assert(raw@.take(i as int) =~= raw@);
}

/// The numbers that `bytes` hold, `size` bytes for each; nothing where bytes
/// are left over.
pub fn decode_all(bytes: &[u8], size: usize) -> (raw: Option<Vec<u32>>)
    requires
        valid_size(size as nat),
    ensures
        raw is Some <==> bytes@.len() % (size as nat) == 0,
        raw matches Some(numbers) ==> numbers@ == decoded(bytes@, size as nat),
{
    if bytes.len() % size != 0 {
        return None;
    }
    let count = bytes.len() / size;
    proof {
        vstd::arithmetic::div_mod::lemma_fundamental_div_mod(bytes@.len() as int, size as int);
        assert(size * count == count * size) by (nonlinear_arith);
    }
    let mut numbers: Vec<u32> = Vec::new();
    let mut i: usize = 0;
    while i < count
        invariant
            i <= count,
            valid_size(size as nat),
            count * size == bytes@.len(),
            bytes@.len() <= usize::MAX,
            count == bytes@.len() / (size as nat),
            numbers@ == decoded(bytes@, size as nat).take(i as int),
        decreases count - i,
    {
        assert(0 <= i * size && i * size + size <= count * size) by (nonlinear_arith)
            requires
                0 <= i,
                i + 1 <= count,
                size > 0,
        ;
        numbers.push(read_word(bytes, i * size, size));
        i += 1;
        assert(numbers@ =~= decoded(bytes@, size as nat).take(i as int));
    }
    assert(decoded(bytes@, size as nat).take(i as int) =~= decoded(bytes@, size as nat));
    Some(numbers)
}

/// The low and the high half of each number of `values`, low half first.
pub open spec fn halves(values: Seq<u64>) -> Seq<u32> {
    Seq::new(
        2 * values.len(),
        |i: int|
            if i % 2 == 0 {
                (values[i / 2] & 0xffff_ffff) as u32
            } else {
                (values[i / 2] >> 32) as u32
            },
    )
}

/// The numbers whose halves are `words`, low half first. A last half without
/// a partner is left out.
pub open spec fn wholes(words: Seq<u32>) -> Seq<u64> {
    Seq::new(words.len() / 2, |i: int| (words[2 * i] as u64) | ((words[2 * i + 1] as u64) << 32))
}

/// Numbers cut into halves and put together again are the same numbers.
pub proof fn lemma_halves_round_trip(values: Seq<u64>)
    ensures
        halves(values).len() == 2 * values.len(),
        wholes(halves(values)) == values,
{
    assert forall|i: int| 0 <= i < values.len() implies wholes(halves(values))[i]
        == values[i] by {
        let value = values[i];
        let low = (value & 0xffff_ffff) as u32;
        let high = (value >> 32) as u32;
        assert(halves(values)[2 * i] == low);
        assert(halves(values)[2 * i + 1] == high);
        assert(value & 0xffff_ffff <= 0xffff_ffff && value >> 32 <= 0xffff_ffff) by (bit_vector);
        assert(value == (value & 0xffff_ffff) | ((value >> 32) << 32)) by (bit_vector);
    }
    assert(wholes(halves(values)) =~= values);
}

/// The low and the high half of each number of `values`, low half first.
pub fn to_halves(values: &Vec<u64>) -> (words: Vec<u32>)
    ensures
        words@ == halves(values@),
{
    let mut words: Vec<u32> = Vec::new();
    let mut i: usize = 0;
    while i < values.len()
        invariant
            i <= values@.len(),
            words@ == halves(values@.take(i as int)),
        decreases values.len() - i,
    {
        let value = values[i];
        assert(value & 0xffff_ffff <= 0xffff_ffff && value >> 32 <= 0xffff_ffff) by (bit_vector);
        words.push((value & 0xffff_ffff) as u32);
        words.push((value >> 32) as u32);
        i += 1;
        assert(words@ =~= halves(values@.take(i as int)));
    }
    assert(values@.take(i as int) =~= values@);
    words
}

/// The numbers whose halves are `words`, low half first.
pub fn to_wholes(words: &Vec<u32>) -> (values: Vec<u64>)
    ensures
        values@ == wholes(words@),
{
    let mut values: Vec<u64> = Vec::new();
    let count = words.len() / 2;
    let mut i: usize = 0;
    while i < count
        invariant
            i <= count,
            count == words@.len() / 2,
            words@.len() <= usize::MAX,
            values@ == wholes(words@).take(i as int),
        decreases count - i,
    {
        assert(2 * i + 1 < words@.len());
        let low = words[2 * i] as u64;
        let high = words[2 * i + 1] as u64;
        values.push(low | (high << 32));
        i += 1;
        assert(values@ =~= wholes(words@).take(i as int));
    }
    assert(wholes(words@).take(i as int) =~= wholes(words@));
    values
}

} // verus!
