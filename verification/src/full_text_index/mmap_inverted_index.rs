//! The inverted index as it lies in its files, and as it is read from them.

use vstd::prelude::*;
use crate::bitmap::{bit_limit, bits_of_bytes, max_bits, DeletionBitmap};
use crate::common::{OperationError, OperationResult, PointOffsetType};
use crate::full_text_index::immutable_inverted_index::{
    rows_chars, rows_scalar, ImmutableInvertedIndex, ImmutableView,
};
use crate::full_text_index::index_files::{
    decode_rows, encode_rows, parse_rows, POSITIONS_TAG, POSTINGS_TAG, VOCAB_TAG,
};
use crate::paths::{join, joined, CacheAdvice, CacheRequest, FileImage, Flusher};
use crate::ragged::{flat_len, Ragged};
use crate::text::strings_view;

verus! {

/// The version of the file format that is written and read.
pub const INDEX_FORMAT_VERSION: u32 = 1;

/// What the file `meta.json` of a text index says.
#[derive(Clone, Copy, Debug, PartialEq, Eq, Structural)]
pub struct IndexMeta {
    pub version: u32,
    pub has_positions: bool,
    pub num_tokens: u32,
    pub num_points: u32,
}

/// The files of a text index, each with its bytes.
#[derive(Clone, Debug, PartialEq, Eq)]
pub struct IndexFiles {
    pub meta: IndexMeta,
    pub vocab_dat: Vec<u8>,
    pub vocab_idx: Vec<u8>,
    pub postings_dat: Vec<u8>,
    pub postings_idx: Vec<u8>,
    pub positions_dat: Option<Vec<u8>>,
    pub positions_idx: Option<Vec<u8>>,
    pub deleted_bits: Vec<u8>,
}

/// The rows of the positions that `files` hold, where the meta data asks
/// for them and they can be read.
pub open spec fn read_positions(files: IndexFiles) -> Option<Option<Seq<Seq<u32>>>> {
    if !files.meta.has_positions {
        Some(None)
    } else {
        match (files.positions_dat, files.positions_idx) {
            (Some(dat), Some(idx)) => match parse_rows(POSITIONS_TAG, dat@, idx@) {
                Some(rows) => Some(Some(rows)),
                None => None,
            },
            _ => None,
        }
    }
}

/// The index that `files` hold, where every file can be read and they fit
/// together: as many postings as tokens, as many tokens as the meta data
/// says, a vocabulary made of characters, and positions for every entry of
/// the postings.
pub open spec fn read_content(files: IndexFiles) -> Option<ImmutableView> {
    match (
        parse_rows(VOCAB_TAG, files.vocab_dat@, files.vocab_idx@),
        parse_rows(POSTINGS_TAG, files.postings_dat@, files.postings_idx@),
        read_positions(files),
    ) {
        (Some(vocab), Some(postings), Some(positions)) => if vocab.len() == postings.len()
            && vocab.len() == files.meta.num_tokens && rows_scalar(vocab) && (
        positions matches Some(rows) ==> rows.len() == flat_len(postings, postings.len())) {
            Some(
                ImmutableView {
                    vocab: rows_chars(vocab),
                    postings,
                    positions,
                    points_count: files.meta.num_points as nat,
                },
            )
        } else {
            None
        },
        _ => None,
    }
}

/// Why `files` cannot be opened as an index with or without positions, if
/// they cannot: the meta data names another version or says otherwise about
/// positions, or the deletion flags are more than a bitmap keeps.
pub open spec fn open_refused(files: IndexFiles, has_positions: bool) -> bool {
    ||| files.meta.version != INDEX_FORMAT_VERSION
    ||| files.meta.has_positions != has_positions
    ||| 8 * files.deleted_bits@.len() > max_bits()
}

/// The content without tokens, postings and points.
pub open spec fn empty_content(has_positions: bool) -> ImmutableView {
    ImmutableView {
        vocab: Seq::empty(),
        postings: Seq::empty(),
        positions: if has_positions {
            Some(Seq::empty())
        } else {
            None
        },
        points_count: 0,
    }
}

/// The names of the files of an index in the directory `path`.
pub open spec fn index_file_names(path: Seq<char>, has_positions: bool) -> Seq<Seq<char>> {
    immutable_file_names(path, has_positions).push(joined(path, "deleted.bits"@))
}

/// The names of those files of an index in the directory `path` that never
/// change once they are written.
pub open spec fn immutable_file_names(path: Seq<char>, has_positions: bool) -> Seq<Seq<char>> {
    let fixed = seq![
        joined(path, "vocab.dat"@),
        joined(path, "vocab.idx"@),
        joined(path, "postings.dat"@),
        joined(path, "postings.idx"@),
    ];
    let positions = if has_positions {
        seq![joined(path, "positions.dat"@), joined(path, "positions.idx"@)]
    } else {
        Seq::empty()
    };
    (fixed + positions).push(joined(path, "meta.json"@))
}

/// What an index read from its files holds.
pub struct MmapIndexView {
    pub path: Seq<char>,
    pub content: ImmutableView,
    pub deleted: Seq<bool>,
    pub is_on_disk: bool,
    pub intact: bool,
}

/// The inverted index read from its files. Its postings never change; a
/// point that is removed is flagged in a bitmap beside them.
pub struct MmapInvertedIndex {
    path: String,
    index: ImmutableInvertedIndex,
    deleted: DeletionBitmap,
    is_on_disk: bool,
    intact: bool,
}

impl View for MmapInvertedIndex {
    type V = MmapIndexView;

    closed spec fn view(&self) -> MmapIndexView {
        MmapIndexView {
            path: self.path@,
            content: self.index@,
            deleted: self.deleted@,
            is_on_disk: self.is_on_disk,
            intact: self.intact,
        }
    }
}

impl MmapInvertedIndex {
    /// The index is sound.
    pub closed spec fn wf(&self) -> bool {
        &&& self.index.wf()
        &&& self.deleted.wf()
    }

    /// A sound index holds a sound content.
    pub proof fn lemma_view_wf(&self)
        requires
            self.wf(),
        ensures
            self@.content.wf(),
    {
        self.index.lemma_view_wf();
    }

    /// The files of `index` as they are to lie in its directory: files that
    /// read back as `index`, with no point flagged as removed.
    pub fn create(index: &ImmutableInvertedIndex) -> (files: IndexFiles)
        requires
            index.wf(),
        ensures
            read_content(files) == Some(index@),
            files.meta.version == INDEX_FORMAT_VERSION,
            files.meta.has_positions == index@.positions is Some,
            files.meta.num_tokens == index@.vocab.len(),
            files.meta.num_points == index@.points_count,
            files.positions_dat is Some <==> index@.positions is Some,
            files.positions_idx is Some <==> index@.positions is Some,
            files.deleted_bits@ == Seq::<u8>::empty(),
    {
        proof {
            index.lemma_view_wf();
        }
        let (vocab_dat, vocab_idx) = encode_rows(VOCAB_TAG, index.vocab_rows());
        let (postings_dat, postings_idx) = encode_rows(POSTINGS_TAG, index.postings_rows());
        let (positions_dat, positions_idx) = match index.positions_rows() {
            Some(rows) => {
                let (dat, idx) = encode_rows(POSITIONS_TAG, rows);
                (Some(dat), Some(idx))
            },
            None => (None, None),
        };
        let meta = IndexMeta {
            version: INDEX_FORMAT_VERSION,
            has_positions: index.has_positions(),
            num_tokens: index.vocab_len() as u32,
            num_points: index.points_count(),
        };
        let files = IndexFiles {
            meta,
            vocab_dat,
            vocab_idx,
            postings_dat,
            postings_idx,
            positions_dat,
            positions_idx,
            deleted_bits: Vec::new(),
        };
        proof {
            assert(parse_rows(VOCAB_TAG, files.vocab_dat@, files.vocab_idx@) == Some(
                index.spec_vocab_rows(),
            ));
            assert(parse_rows(POSTINGS_TAG, files.postings_dat@, files.postings_idx@) == Some(
                index@.postings,
            ));
            assert(read_positions(files) == Some(index@.positions));
        }
        files
    }

    /// The content that `files` hold, where they hold one.
    fn decode(files: &IndexFiles) -> (r: Option<ImmutableInvertedIndex>)
        ensures
            match r {
                Some(index) => index.wf() && read_content(*files) == Some(index@),
                None => read_content(*files) is None,
            },
    {
        let vocab = match decode_rows(
            VOCAB_TAG,
            files.vocab_dat.as_slice(),
            files.vocab_idx.as_slice(),
        ) {
            Some(vocab) => vocab,
            None => {
                return None;
            },
        };
        let postings = match decode_rows(
            POSTINGS_TAG,
            files.postings_dat.as_slice(),
            files.postings_idx.as_slice(),
        ) {
            Some(postings) => postings,
            None => {
                return None;
            },
        };
        let positions = if files.meta.has_positions {
            match (&files.positions_dat, &files.positions_idx) {
                (Some(dat), Some(idx)) => match decode_rows(
                    POSITIONS_TAG,
                    dat.as_slice(),
                    idx.as_slice(),
                ) {
                    Some(rows) => Some(rows),
                    None => {
                        return None;
                    },
                },
                _ => {
                    return None;
                },
            }
        } else {
            None
        };
        if vocab.rows() > u32::MAX as usize || vocab.rows() as u32 != files.meta.num_tokens {
            return None;
        }
        let ghost vocab_rows = vocab@;
        let ghost postings_rows = postings@;
        let ghost positions_rows: Option<Seq<Seq<u32>>> = if positions is Some {
            Some(positions->0@)
        } else {
            None
        };
        assert(read_positions(*files) == Some(positions_rows));
        let found = ImmutableInvertedIndex::from_rows(
            vocab,
            postings,
            positions,
            files.meta.num_points,
        );
        proof {
            if found is Some {
                found->0.lemma_view_wf();
            }
        }
        found
    }

    /// The index that lies in `files`, found in the directory `path`. The
    /// meta data has to name the version that is read and to agree with
    /// `has_positions`. Where the other files cannot be read or do not fit
    /// together, the index is opened without content and `load` says so.
    pub fn open(
        path: String,
        files: &IndexFiles,
        populate: bool,
        has_positions: bool,
    ) -> (r: OperationResult<Self>)
        ensures
            r is Ok <==> !open_refused(*files, has_positions),
            r matches Err(error) ==> error == OperationError::FormatMismatch,
            r matches Ok(index) ==> {
                &&& index.wf()
                &&& index@.path == path@
                &&& index@.is_on_disk == !populate
                &&& index@.deleted == bits_of_bytes(files.deleted_bits@)
                &&& index@.intact == read_content(*files) is Some
                &&& index@.content == match read_content(*files) {
                    Some(content) => content,
                    None => empty_content(has_positions),
                }
            },
    {
        if files.meta.version != INDEX_FORMAT_VERSION || files.meta.has_positions
            != has_positions {
            return Err(OperationError::FormatMismatch);
        }
        let deleted = match DeletionBitmap::from_bytes(files.deleted_bits.as_slice()) {
            Some(deleted) => deleted,
            None => {
                return Err(OperationError::FormatMismatch);
            },
        };
        let (index, intact) = match Self::decode(files) {
            Some(index) => (index, true),
            None => {
                let empty = ImmutableInvertedIndex::from_rows(
                    Ragged::new(),
                    Ragged::new(),
                    if has_positions {
                        Some(Ragged::new())
                    } else {
                        None
                    },
                    0,
                );
                match empty {
                    Some(index) => {
                        proof {
                            index.lemma_view_wf();
                            assert(index@.vocab =~= Seq::<Seq<char>>::empty());
                        }
                        (index, false)
                    },
                    None => {
                        return Err(OperationError::FormatMismatch);
                    },
                }
            },
        };
        Ok(MmapInvertedIndex { path, index, deleted, is_on_disk: !populate, intact })
    }

    /// Whether the files held an index that could be read.
    pub fn load(&self) -> (r: bool)
        ensures
            r == self@.intact,
    {
        self.intact
    }

    /// The directory of the index.
    pub fn path(&self) -> (r: &String)
        ensures
            r@ == self@.path,
    {
        &self.path
    }

    /// The content of the index.
    pub fn content(&self) -> (r: &ImmutableInvertedIndex)
        ensures
            r@ == self@.content,
            self.wf() ==> r.wf(),
    {
        &self.index
    }

    /// Whether the index is read from its files rather than held in memory.
    pub fn is_on_disk(&self) -> (r: bool)
        ensures
            r == self@.is_on_disk,
    {
        self.is_on_disk
    }

    /// The files that never change once written: all but the deletion flags.
    pub fn immutable_files(&self) -> (r: Vec<String>)
        ensures
            strings_view(r@) == immutable_file_names(self@.path, self@.content.positions is Some),
    {
        let path = self.path.as_str();
        let mut files: Vec<String> = Vec::new();
        files.push(join(path, "vocab.dat"));
        files.push(join(path, "vocab.idx"));
        files.push(join(path, "postings.dat"));
        files.push(join(path, "postings.idx"));
        if self.index.has_positions() {
            files.push(join(path, "positions.dat"));
            files.push(join(path, "positions.idx"));
        }
        files.push(join(path, "meta.json"));
        assert(strings_view(files@) =~= immutable_file_names(
            self@.path,
            self@.content.positions is Some,
        ));
        files
    }

    /// All files of the index.
    pub fn files(&self) -> (r: Vec<String>)
        ensures
            strings_view(r@) == index_file_names(self@.path, self@.content.positions is Some),
    {
        let mut files = self.immutable_files();
        let ghost fixed = strings_view(files@);
        files.push(join(self.path.as_str(), "deleted.bits"));
        assert(strings_view(files@) =~= fixed.push(joined(self@.path, "deleted.bits"@)));
        files
    }

    /// Flags `point` as removed and tells whether it was not flagged before.
    /// The postings stay as they are. A point that the bitmap has no room
    /// for cannot be flagged.
    pub fn remove(&mut self, point: PointOffsetType) -> (removed: bool)
        requires
            old(self).wf(),
        ensures
            final(self).wf(),
            final(self)@.path == old(self)@.path,
            final(self)@.content == old(self)@.content,
            final(self)@.is_on_disk == old(self)@.is_on_disk,
            final(self)@.intact == old(self)@.intact,
            removed == (point < max_bits() && !crate::bitmap::bit_is_set(
                old(self)@.deleted,
                point as int,
            )),
            forall|other: int|
                crate::bitmap::bit_is_set(final(self)@.deleted, other) == (
                crate::bitmap::bit_is_set(old(self)@.deleted, other) || (other == point && point
                    < max_bits())),
    {
        if point as usize >= bit_limit() {
            return false;
        }
        self.deleted.mark(point)
    }

    /// Whether `point` is flagged as removed.
    pub fn is_removed(&self, point: PointOffsetType) -> (r: bool)
        ensures
            r == crate::bitmap::bit_is_set(self@.deleted, point as int),
    {
        self.deleted.is_set(point)
    }

    /// The file that a flush is to write: the deletion flags, the one file
    /// that changes.
    pub fn flusher(&self) -> (r: Flusher)
        requires
            self.wf(),
        ensures
            r.storage is None,
            r.files@.len() == 1,
            r.files@[0].path@ == joined(self@.path, "deleted.bits"@),
            r.files@[0].bytes@.len() == (self@.deleted.len() + 7) / 8,
            forall|point: int|
                0 <= point < 8 * r.files@[0].bytes@.len() ==> #[trigger] bits_of_bytes(
                    r.files@[0].bytes@,
                )[point] == crate::bitmap::bit_is_set(self@.deleted, point),
    {
        let mut files: Vec<FileImage> = Vec::new();
        files.push(
            FileImage {
                path: join(self.path.as_str(), "deleted.bits"),
                bytes: self.deleted.to_bytes(),
            },
        );
        Flusher { files, storage: None }
    }

    /// Asks for every page of every file to be read in.
    pub fn populate(&self) -> (r: OperationResult<CacheRequest>)
        ensures
            r matches Ok(request) && request.advice == CacheAdvice::Populate && strings_view(
                request.files@,
            ) == index_file_names(self@.path, self@.content.positions is Some),
    {
        Ok(CacheRequest { advice: CacheAdvice::Populate, files: self.files() })
    }

    /// Asks for the pages of every file to be dropped from the cache.
    pub fn clear_cache(&self) -> (r: OperationResult<CacheRequest>)
        ensures
            r matches Ok(request) && request.advice == CacheAdvice::Clear && strings_view(
                request.files@,
            ) == index_file_names(self@.path, self@.content.positions is Some),
    {
        Ok(CacheRequest { advice: CacheAdvice::Clear, files: self.files() })
    }
}

} // verus!
