//! The full-text index of a payload field: built point by point in memory,
//! then written to its files and read from them.

use vstd::prelude::*;
use serde_json::Value;
use crate::bitmap::{bit_is_set, bits_of_bytes, max_bits};
use crate::common::{
    counter_sum, HardwareCounterCell, OperationError, OperationResult, PointOffsetType, TokenId,
};
use crate::full_text_index::immutable_inverted_index::{ImmutableInvertedIndex, ImmutableView};
use crate::full_text_index::mmap_inverted_index::{
    empty_content, immutable_file_names, index_file_names, open_refused, read_content, IndexFiles,
    MmapIndexView, MmapInvertedIndex,
};
use crate::full_text_index::mutable_inverted_index::{
    lemma_registered_all, registered_all, Document, InvertedIndexView, MutableInvertedIndex,
    TokenSet,
};
use crate::full_text_index::payload::{json_text, texts_among, texts_of_payload};
use crate::full_text_index::tokenizer::{TextIndexParams, Tokenizer, TokenizerView};
use crate::paths::{joined, CacheAdvice, CacheRequest, Flusher};
use crate::sorted::strictly_ascending;
use crate::text::strings_view;

verus! {

/// Whether `config` asks for phrases to be matched.
pub open spec fn wants_positions(config: TextIndexParams) -> bool {
    config.phrase_matching == Some(true)
}

/// The tokenizer that `config` describes.
pub open spec fn tokenizer_of(config: TextIndexParams) -> TokenizerView {
    TokenizerView {
        kind: config.tokenizer,
        min_token_len: config.min_token_len,
        max_token_len: config.max_token_len,
        lowercase: match config.lowercase {
            Some(lowercase) => lowercase,
            None => true,
        },
        stopwords: strings_view(config.stopwords@),
    }
}

/// The tokens of the first `count` of `values`, in their order.
pub open spec fn tokens_of_values(
    tokenizer: TokenizerView,
    values: Seq<Seq<char>>,
    count: nat,
) -> Seq<Seq<char>>
    decreases count,
{
    if count == 0 {
        Seq::empty()
    } else {
        tokens_of_values(tokenizer, values, (count - 1) as nat) + tokenizer.tokens_of(
            values[count - 1],
        )
    }
}

/// What a text index read from its files holds.
pub struct MmapFullTextIndexView {
    pub inverted_index: MmapIndexView,
    pub tokenizer: TokenizerView,
}

/// The files of an index that is given up, and the directory they lie in.
#[derive(Clone, Debug, PartialEq, Eq)]
pub struct WipePlan {
    pub files: Vec<String>,
    pub directory: String,
}

/// The full-text index read from its files.
pub struct MmapFullTextIndex {
    inverted_index: MmapInvertedIndex,
    tokenizer: Tokenizer,
}

impl View for MmapFullTextIndex {
    type V = MmapFullTextIndexView;

    closed spec fn view(&self) -> MmapFullTextIndexView {
        MmapFullTextIndexView { inverted_index: self.inverted_index@, tokenizer: self.tokenizer@ }
    }
}

impl MmapFullTextIndex {
    /// The index is sound.
    pub closed spec fn wf(&self) -> bool {
        self.inverted_index.wf()
    }

    /// A sound index holds a sound content.
    pub proof fn lemma_view_wf(&self)
        requires
            self.wf(),
        ensures
            self@.inverted_index.content.wf(),
    {
        self.inverted_index.lemma_view_wf();
    }

    /// The index that lies in `files`, found in the directory `path`. It is
    /// made resident unless it is to stay on disk. The meta data of the
    /// files has to name the version that is read and to say of positions
    /// what `config` says of phrases. Where the other files cannot be read
    /// or do not fit together, the index is opened without content and
    /// `load` says so.
    pub fn open(
        path: String,
        files: &IndexFiles,
        config: TextIndexParams,
        is_on_disk: bool,
    ) -> (r: OperationResult<Self>)
        ensures
            r is Ok <==> !open_refused(*files, wants_positions(config)),
            r matches Err(error) ==> error == OperationError::FormatMismatch,
            r matches Ok(index) ==> {
                &&& index.wf()
                &&& index@.tokenizer == tokenizer_of(config)
                &&& index@.inverted_index.path == path@
                &&& index@.inverted_index.is_on_disk == is_on_disk
                &&& index@.inverted_index.deleted == bits_of_bytes(files.deleted_bits@)
                &&& index@.inverted_index.intact == read_content(*files) is Some
                &&& index@.inverted_index.content == match read_content(*files) {
                    Some(content) => content,
                    None => empty_content(wants_positions(config)),
                }
            },
    {
        let populate = !is_on_disk;
        let has_positions = match config.phrase_matching {
            Some(phrase_matching) => phrase_matching,
            None => false,
        };
        let tokenizer = Tokenizer::new(&config);
        let inverted_index = match MmapInvertedIndex::open(path, files, populate, has_positions) {
            Ok(inverted_index) => inverted_index,
            Err(error) => {
                return Err(error);
            },
        };
        Ok(MmapFullTextIndex { inverted_index, tokenizer })
    }

    /// Whether the files held an index that could be read.
    pub fn load(&self) -> (r: bool)
        ensures
            r == self@.inverted_index.intact,
    {
        self.inverted_index.load()
    }

    /// All files of the index.
    pub fn files(&self) -> (r: Vec<String>)
        ensures
            strings_view(r@) == index_file_names(
                self@.inverted_index.path,
                self@.inverted_index.content.positions is Some,
            ),
    {
        self.inverted_index.files()
    }

    /// The files that never change once written: all but the deletion flags.
    pub fn immutable_files(&self) -> (r: Vec<String>)
        ensures
            strings_view(r@) == immutable_file_names(
                self@.inverted_index.path,
                self@.inverted_index.content.positions is Some,
            ),
    {
        self.inverted_index.immutable_files()
    }

    /// The directory of the index.
    pub fn path(&self) -> (r: &String)
        ensures
            r@ == self@.inverted_index.path,
    {
        self.inverted_index.path()
    }

    /// Gives the index up: the files to delete, and the directory to delete
    /// once it is empty.
    pub fn wipe(self) -> (r: OperationResult<WipePlan>)
        ensures
            r matches Ok(plan) && strings_view(plan.files@) == index_file_names(
                self@.inverted_index.path,
                self@.inverted_index.content.positions is Some,
            ) && plan.directory@ == self@.inverted_index.path,
    {
        let files = self.files();
        let directory = self.path().clone();
        Ok(WipePlan { files, directory })
    }

    /// Flags `id` as removed. The postings stay as they are.
    pub fn remove_point(&mut self, id: PointOffsetType)
        requires
            old(self).wf(),
        ensures
            final(self).wf(),
            final(self)@.tokenizer == old(self)@.tokenizer,
            final(self)@.inverted_index.path == old(self)@.inverted_index.path,
            final(self)@.inverted_index.content == old(self)@.inverted_index.content,
            final(self)@.inverted_index.is_on_disk == old(self)@.inverted_index.is_on_disk,
            final(self)@.inverted_index.intact == old(self)@.inverted_index.intact,
            forall|other: int|
                bit_is_set(final(self)@.inverted_index.deleted, other) == (bit_is_set(
                    old(self)@.inverted_index.deleted,
                    other,
                ) || (other == id && id < max_bits())),
    {
        self.inverted_index.remove(id);
    }

    /// Whether `id` is flagged as removed.
    pub fn is_removed(&self, id: PointOffsetType) -> (r: bool)
        ensures
            r == bit_is_set(self@.inverted_index.deleted, id as int),
    {
        self.inverted_index.is_removed(id)
    }

    /// The file that a flush is to write: the deletion flags.
    pub fn flusher(&self) -> (r: Flusher)
        requires
            self.wf(),
        ensures
            r.storage is None,
            r.files@.len() == 1,
            r.files@[0].path@ == joined(self@.inverted_index.path, "deleted.bits"@),
            r.files@[0].bytes@.len() == (self@.inverted_index.deleted.len() + 7) / 8,
            forall|point: int|
                0 <= point < 8 * r.files@[0].bytes@.len() ==> #[trigger] bits_of_bytes(
                    r.files@[0].bytes@,
                )[point] == bit_is_set(self@.inverted_index.deleted, point),
    {
        self.inverted_index.flusher()
    }

    /// Whether the index is read from its files rather than held in memory.
    pub fn is_on_disk(&self) -> (r: bool)
        ensures
            r == self@.inverted_index.is_on_disk,
    {
        self.inverted_index.is_on_disk()
    }

    /// Asks for every page of every file to be read in.
    pub fn populate(&self) -> (r: OperationResult<CacheRequest>)
        ensures
            r matches Ok(request) && request.advice == CacheAdvice::Populate && strings_view(
                request.files@,
            ) == index_file_names(
                self@.inverted_index.path,
                self@.inverted_index.content.positions is Some,
            ),
    {
        self.inverted_index.populate()
    }

    /// Asks for the pages of every file to be dropped from the cache.
    pub fn clear_cache(&self) -> (r: OperationResult<CacheRequest>)
        ensures
            r matches Ok(request) && request.advice == CacheAdvice::Clear && strings_view(
                request.files@,
            ) == index_file_names(
                self@.inverted_index.path,
                self@.inverted_index.content.positions is Some,
            ),
    {
        self.inverted_index.clear_cache()
    }

    /// The tokenizer of the index.
    pub fn tokenizer(&self) -> (r: &Tokenizer)
        ensures
            r@ == self@.tokenizer,
    {
        &self.tokenizer
    }

    /// The inverted index behind the text index.
    pub fn inverted_index(&self) -> (r: &MmapInvertedIndex)
        ensures
            r@ == self@.inverted_index,
            self.wf() ==> r.wf(),
    {
        &self.inverted_index
    }
}

/// The in-memory form of a text index, with the files it was written to.
pub struct ImmutableFullTextIndex {
    pub inverted_index: ImmutableInvertedIndex,
    pub tokenizer: Tokenizer,
    pub storage: MmapFullTextIndex,
}

/// A text index that is ready to be read.
pub enum FullTextIndex {
    /// Read from its files.
    Mmap(MmapFullTextIndex),
    /// Held in memory, with its files beside it.
    Immutable(ImmutableFullTextIndex),
}

impl FullTextIndex {
    /// The index is sound.
    pub open spec fn wf(&self) -> bool {
        match *self {
            FullTextIndex::Mmap(index) => index.wf(),
            FullTextIndex::Immutable(index) => index.inverted_index.wf() && index.storage.wf()
                && index.storage@.inverted_index.content == index.inverted_index@,
        }
    }

    /// What the index holds.
    pub open spec fn content(&self) -> ImmutableView {
        match *self {
            FullTextIndex::Mmap(index) => index@.inverted_index.content,
            FullTextIndex::Immutable(index) => index.inverted_index@,
        }
    }

    /// The files of the index as they were read.
    pub open spec fn storage(&self) -> MmapFullTextIndexView {
        match *self {
            FullTextIndex::Mmap(index) => index@,
            FullTextIndex::Immutable(index) => index.storage@,
        }
    }
}

/// What a builder holds.
pub struct BuilderView {
    pub path: Seq<char>,
    pub index: InvertedIndexView,
    pub tokenizer: TokenizerView,
    pub is_on_disk: bool,
}

/// Whether `after` is `before` with the point `id` indexed under `tokens`:
/// the tokens are registered in their order, the token set of the point is
/// the set of their identifiers, the point stands in the postings of each
/// of them, and, where phrases are matched, the identifiers in the order of
/// the tokens are kept as the text of the point. Nothing else changes.
pub open spec fn indexed_with(
    before: InvertedIndexView,
    after: InvertedIndexView,
    id: u32,
    tokens: Seq<Seq<char>>,
) -> bool {
    &&& after.vocab == registered_all(before.vocab, tokens, tokens.len())
    &&& after.token_sets.len() == if id < before.token_sets.len() {
        before.token_sets.len()
    } else {
        (id + 1) as nat
    }
    &&& forall|other: int|
        0 <= other < after.token_sets.len() && other != id ==> #[trigger] after.token_sets[other]
            == if other < before.token_sets.len() {
            before.token_sets[other]
        } else {
            None
        }
    &&& after.token_sets[id as int] matches Some(set) && strictly_ascending(set) && forall|
        token: u32,
    | #[trigger]
        set.contains(token) <==> token < after.vocab.len() && tokens.contains(
            after.vocab[token as int],
        )
    &&& forall|token: int, point: u32| #[trigger]
        after.posted(token, point) <==> before.posted(token, point) || (point == id && 0 <= token
            < after.vocab.len() && tokens.contains(after.vocab[token]))
    &&& before.documents is Some <==> after.documents is Some
    &&& after.documents matches Some(documents) ==> {
        &&& documents.len() == if id < before.documents->0.len() {
            before.documents->0.len()
        } else {
            (id + 1) as nat
        }
        &&& forall|other: int|
            0 <= other < documents.len() && other != id ==> #[trigger] documents[other] == if other
                < before.documents->0.len() {
                before.documents->0[other]
            } else {
                None
            }
        &&& documents[id as int] matches Some(document) && document.len() == tokens.len()
            && forall|i: int|
            0 <= i < document.len() ==> #[trigger] document[i] < after.vocab.len()
                && after.vocab[document[i] as int] == tokens[i]
    }
}

/// A copy of `ids`.
pub fn copy_ids(ids: &Vec<TokenId>) -> (copy: Vec<TokenId>)
    ensures
        copy@ == ids@,
{
    let mut copy: Vec<TokenId> = Vec::new();
    let mut i: usize = 0;
    while i < ids.len()
        invariant
            i <= ids@.len(),
            copy@ == ids@.take(i as int),
        decreases ids.len() - i,
    {
        copy.push(ids[i]);
        i += 1;
        assert(copy@ =~= ids@.take(i as int));
    }
    assert(ids@.take(i as int) =~= ids@);
    copy
}

/// Builds a text index point by point and writes it to its files.
pub struct FullTextMmapIndexBuilder {
    path: String,
    mutable_index: MutableInvertedIndex,
    config: TextIndexParams,
    is_on_disk: bool,
    tokenizer: Tokenizer,
}

impl View for FullTextMmapIndexBuilder {
    type V = BuilderView;

    closed spec fn view(&self) -> BuilderView {
        BuilderView {
            path: self.path@,
            index: self.mutable_index@,
            tokenizer: self.tokenizer@,
            is_on_disk: self.is_on_disk,
        }
    }
}

impl FullTextMmapIndexBuilder {
    /// The builder is sound.
    pub closed spec fn wf(&self) -> bool {
        &&& self.mutable_index.wf()
        &&& self.mutable_index@.documents is Some <==> wants_positions(self.config)
        &&& self.tokenizer@ == tokenizer_of(self.config)
    }

    /// The configuration the builder was made with.
    pub closed spec fn spec_config(&self) -> TextIndexParams {
        self.config
    }

    /// A sound builder holds a sound index, which matches phrases where the
    /// configuration asks for it.
    pub proof fn lemma_view_wf(&self)
        requires
            self.wf(),
        ensures
            self@.index.wf(),
            self@.index.documents is Some <==> wants_positions(self.spec_config()),
            self@.tokenizer == tokenizer_of(self.spec_config()),
    {
        self.mutable_index.lemma_view_wf();
    }

    /// A builder without points for an index in the directory `path`.
    pub fn new(path: String, config: TextIndexParams, is_on_disk: bool) -> (r: Self)
        ensures
            r.wf(),
            r.spec_config() == config,
            r@.index.consistent(),
            r@ == (BuilderView {
                path: path@,
                index: InvertedIndexView {
                    vocab: Seq::empty(),
                    postings: Seq::empty(),
                    token_sets: Seq::empty(),
                    documents: if wants_positions(config) {
                        Some(Seq::empty())
                    } else {
                        None
                    },
                },
                tokenizer: tokenizer_of(config),
                is_on_disk,
            }),
    {
        let with_positions = match config.phrase_matching {
            Some(phrase_matching) => phrase_matching,
            None => false,
        };
        let tokenizer = Tokenizer::new(&config);
        FullTextMmapIndexBuilder {
            path,
            mutable_index: MutableInvertedIndex::new(with_positions),
            config,
            is_on_disk,
            tokenizer,
        }
    }

    /// The text of `value`, where it is a string.
    pub fn get_value(value: &Value) -> (r: Option<String>)
        ensures
            match r {
                Some(text) => json_text(*value) == Some(text@),
                None => json_text(*value) is None,
            },
    {
        match value.as_str() {
            Some(text) => Some(text.to_owned()),
            None => None,
        }
    }

    /// Nothing is to be done before the first point.
    pub fn init(&mut self) -> (r: OperationResult<()>)
        ensures
            r is Ok,
            *final(self) == *old(self),
    {
        Ok(())
    }

    /// Indexes `id` under the tokens of `values`: see `indexed_with`. No
    /// values change nothing. The largest offset, which is never used, and
    /// tokens for which no identifier is left are refused and change nothing.
    pub fn add_many(
        &mut self,
        id: PointOffsetType,
        values: Vec<String>,
        hw_counter: &mut HardwareCounterCell,
    ) -> (r: OperationResult<()>)
        requires
            old(self).wf(),
        ensures
            final(self).wf(),
            final(self).spec_config() == old(self).spec_config(),
            final(self)@.path == old(self)@.path,
            final(self)@.tokenizer == old(self)@.tokenizer,
            final(self)@.is_on_disk == old(self)@.is_on_disk,
            r == if values@.len() > 0 && (id == u32::MAX || old(self)@.index.vocab.len()
                + tokens_of_values(
                old(self)@.tokenizer,
                strings_view(values@),
                values@.len(),
            ).len() > u32::MAX) {
                Err::<(), OperationError>(OperationError::OutOfRange)
            } else {
                Ok::<(), OperationError>(())
            },
            r is Err || values@.len() == 0 ==> final(self)@ == old(self)@ && *final(hw_counter)
                == *old(hw_counter),
            r is Ok && values@.len() > 0 ==> {
                &&& indexed_with(
                    old(self)@.index,
                    final(self)@.index,
                    id,
                    tokens_of_values(
                        old(self)@.tokenizer,
                        strings_view(values@),
                        values@.len(),
                    ),
                )
                &&& old(self)@.index.consistent() && !old(self)@.index.has_point(id as int)
                    ==> final(self)@.index.consistent()
                &&& final(hw_counter).vector_io_read == old(hw_counter).vector_io_read
                &&& final(hw_counter).vector_io_write == old(hw_counter).vector_io_write
                &&& final(hw_counter).payload_index_io_write == counter_sum(
                    counter_sum(
                        old(hw_counter).payload_index_io_write,
                        if final(self)@.index.documents is Some {
                            tokens_of_values(
                                old(self)@.tokenizer,
                                strings_view(values@),
                                values@.len(),
                            ).len() * 4
                        } else {
                            0
                        },
                    ),
                    final(self)@.index.token_sets[id as int]->0.len() * 4,
                )
            },
    {
        if values.len() == 0 {
            return Ok(());
        }
        let ghost texts = strings_view(values@);
        let ghost tokenizer = self.tokenizer@;
        let mut str_tokens: Vec<String> = Vec::new();
        let mut i: usize = 0;
        assert(strings_view(str_tokens@) =~= Seq::<Seq<char>>::empty());
        while i < values.len()
            invariant
                i <= values@.len(),
                texts == strings_view(values@),
                tokenizer == self.tokenizer@,
                *self == *old(self),
                strings_view(str_tokens@) == tokens_of_values(tokenizer, texts, i as nat),
            decreases values.len() - i,
        {
            self.tokenizer.tokenize_doc(values[i].as_str(), &mut str_tokens);
            i += 1;
        }
        let ghost tokens = strings_view(str_tokens@);
        proof {
            self.mutable_index.lemma_view_wf();
        }
        if id == u32::MAX || str_tokens.len() > u32::MAX as usize
            - self.mutable_index.vocab_len() {
            return Err(OperationError::OutOfRange);
        }
        let ghost before = self.mutable_index@;
        let ids = self.mutable_index.register_tokens(&str_tokens);
        let ghost registered = self.mutable_index@;
        proof {
            self.mutable_index.lemma_view_wf();
            lemma_registered_all(before.vocab, tokens, tokens.len());
        }
        if self.mutable_index.has_positions() {
            let document = Document::new(copy_ids(&ids));
            let indexed = self.mutable_index.index_document(id, document, hw_counter);
            assert(indexed is Ok);
        }
        let ghost documented = self.mutable_index@;
        let token_set = TokenSet::from_tokens(&ids);
        let ghost set = token_set@;
        proof {
            assert forall|token: u32| #[trigger]
                set.contains(token) <==> token < registered.vocab.len() && tokens.contains(
                    registered.vocab[token as int],
                ) by {
                if set.contains(token) {
                    assert(ids@.contains(token));
                    let k = choose|k: int| 0 <= k < ids@.len() && ids@[k] == token;
                    assert(registered.vocab[ids@[k] as int] == tokens[k]);
                }
                if token < registered.vocab.len() && tokens.contains(
                    registered.vocab[token as int],
                ) {
                    let k = choose|k: int|
                        0 <= k < tokens.len() && tokens[k] == registered.vocab[token as int];
                    assert(registered.vocab[ids@[k] as int] == tokens[k]);
                    assert(ids@[k] == token);
                    assert(ids@.contains(token));
                }
            }
            assert(documented.known(set)) by {
                assert forall|k: int| 0 <= k < set.len() implies #[trigger] set[k]
                    < documented.vocab.len() by {
                    assert(set.contains(set[k]));
                }
            }
        }
        let indexed = self.mutable_index.index_tokens(id, token_set, hw_counter);
        proof {
            assert(indexed is Ok);
            self.mutable_index.lemma_view_wf();
            let after = self.mutable_index@;
            assert(documented.postings == registered.postings);
            assert(after.postings.len() == registered.postings.len());
            assert forall|token: int, point: u32| #[trigger]
                after.posted(token, point) <==> before.posted(token, point) || (point == id && 0
                    <= token < after.vocab.len() && tokens.contains(after.vocab[token])) by {
                if 0 <= token < after.postings.len() {
                    assert(documented.postings[token] == registered.postings[token]);
                    assert(after.posted(token, point) <==> documented.posted(token, point) || (
                    point == id && 0 <= token < documented.vocab.len() && set.contains(
                        token as u32,
                    )));
                    if token >= before.postings.len() {
                        assert(registered.postings[token] == Seq::<u32>::empty());
                    } else {
                        assert(registered.postings[token] == before.postings[token]);
                    }
                }
            }
            if before.consistent() && !before.has_point(id as int) {
                assert(registered.consistent());
                assert(!registered.has_point(id as int));
                assert(documented.consistent());
                assert(!documented.has_point(id as int));
                if documented.documents is Some {
                    let document = documented.documents->0[id as int]->0;
                    assert(document == ids@);
                    assert forall|token: u32|
                        set.contains(token) <==> document.contains(token) by {}
                }
                assert(documented.documented_as(id as int, set));
                assert(after.consistent());
            }
            assert(indexed_with(before, after, id, tokens));
        }
        Ok(())
    }

    /// Takes `id` out of the index.
    pub fn remove_point(&mut self, id: PointOffsetType) -> (r: OperationResult<()>)
        requires
            old(self).wf(),
        ensures
            r is Ok,
            final(self).wf(),
            final(self).spec_config() == old(self).spec_config(),
            final(self)@.path == old(self)@.path,
            final(self)@.tokenizer == old(self)@.tokenizer,
            final(self)@.is_on_disk == old(self)@.is_on_disk,
            final(self)@.index.vocab == old(self)@.index.vocab,
            !final(self)@.index.has_point(id as int),
            final(self)@.index.token_sets.len() == old(self)@.index.token_sets.len(),
            forall|other: int|
                0 <= other < final(self)@.index.token_sets.len() && other != id ==>
                    #[trigger] final(self)@.index.token_sets[other]
                        == old(self)@.index.token_sets[other],
            forall|token: int, other: u32| #[trigger]
                final(self)@.index.posted(token, other) <==> old(self)@.index.posted(token, other)
                    && !(other == id && old(self)@.index.point_has_token(id as int, token as u32)),
            old(self)@.index.consistent() ==> final(self)@.index.consistent() && forall|token: int|
                !final(self)@.index.posted(token, id),
    {
        self.mutable_index.remove(id);
        Ok(())
    }

    /// The texts that `payload` gives: see `texts_of_payload`.
    fn flatten(payload: &[&Value]) -> (texts: Vec<String>)
        ensures
            strings_view(texts@) == texts_of_payload(payload@, payload@.len()),
    {
        let mut texts: Vec<String> = Vec::new();
        let mut i: usize = 0;
        assert(strings_view(texts@) =~= Seq::<Seq<char>>::empty());
        while i < payload.len()
            invariant
                i <= payload@.len(),
                strings_view(texts@) == texts_of_payload(payload@, i as nat),
            decreases payload.len() - i,
        {
            let value: &Value = payload[i];
            let ghost held = strings_view(texts@);
            match value.as_array() {
                Some(items) => {
                    let mut k: usize = 0;
                    assert(held + texts_among(items@, 0) =~= held);
                    while k < items.len()
                        invariant
                            k <= items@.len(),
                            strings_view(texts@) == held + texts_among(items@, k as nat),
                        decreases items.len() - k,
                    {
                        match Self::get_value(&items[k]) {
                            Some(text) => {
                                let ghost before = strings_view(texts@);
                                let ghost added = text@;
                                texts.push(text);
                                assert(strings_view(texts@) =~= before.push(added));
                                assert(held + texts_among(items@, (k + 1) as nat) =~= (held
                                    + texts_among(items@, k as nat)).push(added));
                            },
                            None => {},
                        }
                        k += 1;
                    }
                },
                None => {
                    match Self::get_value(value) {
                        Some(text) => {
                            let ghost added = text@;
                            texts.push(text);
                            assert(strings_view(texts@) =~= held + seq![added]);
                        },
                        None => {
                            assert(held + Seq::<Seq<char>>::empty() =~= held);
                        },
                    }
                },
            }
            i += 1;
        }
        texts
    }

    /// Indexes `id` anew under the texts of `payload`: the point is taken
    /// out of the index, and then indexed under the tokens of the texts as
    /// `add_many` does it.
    pub fn add_point(
        &mut self,
        id: PointOffsetType,
        payload: &[&Value],
        hw_counter: &mut HardwareCounterCell,
    ) -> (r: OperationResult<()>)
        requires
            old(self).wf(),
        ensures
            final(self).wf(),
            final(self).spec_config() == old(self).spec_config(),
            final(self)@.path == old(self)@.path,
            final(self)@.tokenizer == old(self)@.tokenizer,
            final(self)@.is_on_disk == old(self)@.is_on_disk,
            r is Err ==> r == Err::<(), OperationError>(OperationError::OutOfRange),
            r is Ok <==> texts_of_payload(payload@, payload@.len()).len() == 0 || !(id == u32::MAX
                || old(self)@.index.vocab.len() + tokens_of_values(
                old(self)@.tokenizer,
                texts_of_payload(payload@, payload@.len()),
                texts_of_payload(payload@, payload@.len()).len(),
            ).len() > u32::MAX),
            r is Err || texts_of_payload(payload@, payload@.len()).len() == 0 ==>
                !final(self)@.index.has_point(id as int) && final(self)@.index.vocab
                    == old(self)@.index.vocab,
            r is Ok && texts_of_payload(payload@, payload@.len()).len() > 0 ==> {
                &&& final(self)@.index.vocab == registered_all(
                    old(self)@.index.vocab,
                    tokens_of_values(
                        old(self)@.tokenizer,
                        texts_of_payload(payload@, payload@.len()),
                        texts_of_payload(payload@, payload@.len()).len(),
                    ),
                    tokens_of_values(
                        old(self)@.tokenizer,
                        texts_of_payload(payload@, payload@.len()),
                        texts_of_payload(payload@, payload@.len()).len(),
                    ).len(),
                )
                &&& final(self)@.index.token_sets[id as int] matches Some(set) && forall|
                    token: u32,
                | #[trigger]
                    set.contains(token) <==> token < final(self)@.index.vocab.len()
                        && tokens_of_values(
                        old(self)@.tokenizer,
                        texts_of_payload(payload@, payload@.len()),
                        texts_of_payload(payload@, payload@.len()).len(),
                    ).contains(final(self)@.index.vocab[token as int])
            },
            old(self)@.index.consistent() ==> final(self)@.index.consistent(),
    {
        let removed = self.remove_point(id);
        let texts = Self::flatten(payload);
        self.add_many(id, texts, hw_counter)
    }

    /// Ends the build. The index is brought into its compact form and
    /// written out as files; the files are read back as the index that is
    /// handed over: the index read from its files where it is to stay on
    /// disk, else the compact form in memory with the files beside it. The
    /// caller writes the files into the directory of the index.
    pub fn finalize(self) -> (r: OperationResult<(FullTextIndex, IndexFiles)>)
        requires
            self.wf(),
        ensures
            r matches Ok((index, files)) && {
                &&& index.wf()
                &&& index is Mmap <==> self@.is_on_disk
                &&& read_content(files) == Some(index.content())
                &&& !open_refused(files, wants_positions(self.spec_config()))
                &&& files.deleted_bits@ == Seq::<u8>::empty()
                &&& index.content().vocab == self@.index.vocab
                &&& index.content().postings == self@.index.postings
                &&& index.content().positions is Some <==> self@.index.documents is Some
                &&& forall|token: int, place: int|
                    0 <= token < self@.index.postings.len() && 0 <= place
                        < self@.index.postings[token].len() ==>
                            #[trigger] index.content().position_list(
                        token,
                        place,
                    ) == self@.index.positions(
                        self@.index.postings[token][place] as int,
                        token as u32,
                    )
                &&& index.storage().tokenizer == self@.tokenizer
                &&& index.storage().inverted_index.path == self@.path
                &&& index.storage().inverted_index.is_on_disk == self@.is_on_disk
                &&& index.storage().inverted_index.intact
                &&& index.storage().inverted_index.content == index.content()
                &&& index.storage().inverted_index.deleted == Seq::<bool>::empty()
            },
    {
        let FullTextMmapIndexBuilder { path, mutable_index, config, is_on_disk, tokenizer } = self;
        let immutable = ImmutableInvertedIndex::from_mutable(&mutable_index);
        let files = MmapInvertedIndex::create(&immutable);
        let populate = !is_on_disk;
        let has_positions = match config.phrase_matching {
            Some(phrase_matching) => phrase_matching,
            None => false,
        };
        let inverted_index = match MmapInvertedIndex::open(path, &files, populate, has_positions) {
            Ok(inverted_index) => inverted_index,
            Err(error) => {
                return Err(error);
            },
        };
        assert(bits_of_bytes(files.deleted_bits@) =~= Seq::<bool>::empty());
        let mmap_index = MmapFullTextIndex {
            inverted_index,
            tokenizer: tokenizer.duplicate(),
        };
        let text_index = if is_on_disk {
            FullTextIndex::Mmap(mmap_index)
        } else {
            FullTextIndex::Immutable(
                ImmutableFullTextIndex { inverted_index: immutable, tokenizer,
                    storage: mmap_index },
            )
        };
        Ok((text_index, files))
    }
}

} // verus!
