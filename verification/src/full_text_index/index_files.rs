//! The files of a text index: rows of numbers as bytes, and back.
//!
//! A data file starts with an eight-byte tag, the letters `FTXT` and four
//! letters that name its content, and goes on with its numbers, four bytes
//! each, lowest byte first. An index file holds the place at which each row
//! starts, eight bytes each, lowest byte first.

use vstd::prelude::*;
use crate::bytes::{
    bytes_word, decode_all, decoded, encode_into, encoded, halves, lemma_encoded_round_trip,
    lemma_halves_round_trip, lemma_word_round_trip, push_word, read_word, to_halves, to_wholes,
    wholes, word_bytes,
};
use crate::ragged::{rows_of, valid_offsets, Ragged};

verus! {

/// The letters `FTXT`, which open every data file.
pub const MAGIC: u32 = 0x5458_5446;

/// The letters `VOCB`, which name the file of the vocabulary.
pub const VOCAB_TAG: u32 = 0x4243_4f56;

/// The letters `POST`, which name the file of the postings.
pub const POSTINGS_TAG: u32 = 0x5453_4f50;

/// The letters `POSN`, which name the file of the positions.
pub const POSITIONS_TAG: u32 = 0x4e53_4f50;

/// The bytes of a data file with the given tag and numbers.
pub open spec fn dat_image(tag: u32, data: Seq<u32>) -> Seq<u8> {
    word_bytes(MAGIC) + word_bytes(tag) + encoded(data, 4)
}

/// The bytes of an index file with the given places.
pub open spec fn idx_image(offsets: Seq<u64>) -> Seq<u8> {
    encoded(halves(offsets), 4)
}

/// The numbers of a data file, where it starts with the tag it is to have
/// and holds whole numbers behind it.
pub open spec fn parse_dat(tag: u32, bytes: Seq<u8>) -> Option<Seq<u32>> {
    if bytes.len() >= 8 && bytes_word(bytes.subrange(0, 4)) == MAGIC && bytes_word(
        bytes.subrange(4, 8),
    ) == tag && (bytes.len() - 8) % 4 == 0 {
        Some(decoded(bytes.skip(8), 4))
    } else {
        None
    }
}

/// The places of an index file, where it holds whole places.
pub open spec fn parse_idx(bytes: Seq<u8>) -> Option<Seq<u64>> {
    if bytes.len() % 8 == 0 {
        Some(wholes(decoded(bytes, 4)))
    } else {
        None
    }
}

/// The rows that a data file and its index file hold, where both can be
/// read and the places cut the numbers into rows.
pub open spec fn parse_rows(tag: u32, dat: Seq<u8>, idx: Seq<u8>) -> Option<Seq<Seq<u32>>> {
    match (parse_dat(tag, dat), parse_idx(idx)) {
        (Some(data), Some(offsets)) => if valid_offsets(offsets, data.len()) {
            Some(rows_of(data, offsets))
        } else {
            None
        },
        _ => None,
    }
}

/// Files written from rows read back as the same rows.
pub proof fn lemma_rows_round_trip(tag: u32, data: Seq<u32>, offsets: Seq<u64>)
    requires
        valid_offsets(offsets, data.len()),
    ensures
        parse_dat(tag, dat_image(tag, data)) == Some(data),
        parse_idx(idx_image(offsets)) == Some(offsets),
        parse_rows(tag, dat_image(tag, data), idx_image(offsets)) == Some(rows_of(data, offsets)),
{
    let dat = dat_image(tag, data);
    lemma_encoded_round_trip(data, 4);
    lemma_word_round_trip(MAGIC, 4);
    lemma_word_round_trip(tag, 4);
    assert(dat.subrange(0, 4) =~= word_bytes(MAGIC).take(4));
    assert(dat.subrange(4, 8) =~= word_bytes(tag).take(4));
    assert(dat.skip(8) =~= encoded(data, 4));
    assert((dat.len() - 8) % 4 == 0) by {
        assert(dat.len() - 8 == data.len() * 4);
        vstd::arithmetic::div_mod::lemma_mod_multiples_basic(data.len() as int, 4);
    }
    let idx = idx_image(offsets);
    lemma_halves_round_trip(offsets);
    lemma_encoded_round_trip(halves(offsets), 4);
    assert(idx.len() % 8 == 0) by {
        assert(idx.len() == halves(offsets).len() * 4);
        assert(idx.len() == offsets.len() * 8);
        vstd::arithmetic::div_mod::lemma_mod_multiples_basic(offsets.len() as int, 8);
    }
}

/// The bytes of the data file of `rows`.
pub fn encode_dat(tag: u32, rows: &Ragged) -> (bytes: Vec<u8>)
    ensures
        bytes@ == dat_image(tag, rows.spec_data()),
{
    let mut bytes: Vec<u8> = Vec::new();
    push_word(&mut bytes, MAGIC, 4);
    push_word(&mut bytes, tag, 4);
    encode_into(&mut bytes, rows.data().as_slice(), 4);
    proof {
        lemma_word_round_trip(MAGIC, 4);
        lemma_word_round_trip(tag, 4);
        assert(word_bytes(MAGIC).take(4) =~= word_bytes(MAGIC));
        assert(word_bytes(tag).take(4) =~= word_bytes(tag));
    }
    bytes
}

/// The bytes of the index file of `rows`.
pub fn encode_idx(rows: &Ragged) -> (bytes: Vec<u8>)
    ensures
        bytes@ == idx_image(rows.spec_offsets()),
{
    let mut bytes: Vec<u8> = Vec::new();
    let words = to_halves(rows.offsets());
    encode_into(&mut bytes, words.as_slice(), 4);
    assert(bytes@ =~= idx_image(rows.spec_offsets()));
    bytes
}

/// The data file and the index file of `rows`: files that read back as `rows`.
pub fn encode_rows(tag: u32, rows: &Ragged) -> (files: (Vec<u8>, Vec<u8>))
    requires
        rows.wf(),
    ensures
        files.0@ == dat_image(tag, rows.spec_data()),
        files.1@ == idx_image(rows.spec_offsets()),
        parse_rows(tag, files.0@, files.1@) == Some(rows@),
{
    proof {
        rows.lemma_parts();
        lemma_rows_round_trip(tag, rows.spec_data(), rows.spec_offsets());
    }
    (encode_dat(tag, rows), encode_idx(rows))
}

/// The rows that a data file and its index file hold.
pub fn decode_rows(tag: u32, dat: &[u8], idx: &[u8]) -> (r: Option<Ragged>)
    ensures
        match r {
            Some(rows) => rows.wf() && parse_rows(tag, dat@, idx@) == Some(rows@),
            None => parse_rows(tag, dat@, idx@) is None,
        },
{
    if dat.len() < 8 {
        return None;
    }
    if read_word(dat, 0, 4) != MAGIC || read_word(dat, 4, 4) != tag {
        return None;
    }
    let body = vstd::slice::slice_subrange(dat, 8, dat.len());
    assert(body@ =~= dat@.skip(8));
    let data = match decode_all(body, 4) {
        Some(data) => data,
        None => {
            return None;
        },
    };
    if idx.len() % 8 != 0 {
        return None;
    }
    let words = match decode_all(idx, 4) {
        Some(words) => words,
        None => {
            return None;
        },
    };
    let offsets = to_wholes(&words);
    Ragged::from_parts(data, offsets)
}

} // verus!
