//! The inverted index in its compact form: vocabulary, postings and
//! positions each as rows of numbers, with nothing left to change.

use vstd::hash_map::StringHashMap;
use vstd::prelude::*;
use crate::common::{PointOffsetType, TokenId};
use crate::full_text_index::mutable_inverted_index::{indexed_count, MutableInvertedIndex};
use crate::ragged::{flat_len, Ragged};
use crate::text::{all_scalar, chars_with, from_codes, lemma_codes_round_trip, to_codes};

verus! {

/// What a compact inverted index holds.
pub struct ImmutableView {
    /// The tokens, each at the place of its identifier.
    pub vocab: Seq<Seq<char>>,
    /// For each token the points that hold it.
    pub postings: Seq<Seq<u32>>,
    /// Where phrases are matched: for each entry of the postings, counted
    /// through all tokens, the places of the token in the text of the point.
    pub positions: Option<Seq<Seq<u32>>>,
    /// Number of points that were indexed when the index was built.
    pub points_count: nat,
}

impl ImmutableView {
    /// The places at which token `token` stands in the text of the point at
    /// place `place` of its postings; none where phrases are not matched.
    pub open spec fn position_list(self, token: int, place: int) -> Seq<u32> {
        match self.positions {
            Some(rows) => rows[flat_len(self.postings, token as nat) + place],
            None => Seq::empty(),
        }
    }

    /// Postings stand for every token, and positions for every entry of them.
    pub open spec fn wf(self) -> bool {
        &&& self.vocab.len() == self.postings.len()
        &&& self.vocab.len() <= u32::MAX
        &&& self.positions matches Some(rows) ==> rows.len() == flat_len(
            self.postings,
            self.postings.len(),
        )
    }
}

/// The characters of each row of `rows`.
pub open spec fn rows_chars(rows: Seq<Seq<u32>>) -> Seq<Seq<char>> {
    Seq::new(rows.len(), |i: int| chars_with(rows[i]))
}

/// Whether each number in each row of `rows` is the number of a character.
pub open spec fn rows_scalar(rows: Seq<Seq<u32>>) -> bool {
    forall|i: int| 0 <= i < rows.len() ==> all_scalar(#[trigger] rows[i])
}

/// Whether `lookup` finds each of the first `count` tokens of `vocab` at the
/// first place at which it stands, and finds nothing else.
pub open spec fn lookup_agrees(
    lookup: Map<Seq<char>, TokenId>,
    vocab: Seq<Seq<char>>,
    count: nat,
) -> bool {
    &&& forall|token: Seq<char>| #[trigger]
        lookup.contains_key(token) ==> lookup[token] < count && vocab[lookup[token] as int]
            == token && forall|other: int| 0 <= other < lookup[token] ==> vocab[other] != token
    &&& forall|id: int| 0 <= id < count ==> lookup.contains_key(#[trigger] vocab[id])
}

/// The inverted index in its compact form.
pub struct ImmutableInvertedIndex {
    vocab: Ragged,
    lookup: StringHashMap<TokenId>,
    postings: Ragged,
    positions: Option<Ragged>,
    points_count: u32,
}

impl View for ImmutableInvertedIndex {
    type V = ImmutableView;

    closed spec fn view(&self) -> ImmutableView {
        ImmutableView {
            vocab: rows_chars(self.vocab@),
            postings: self.postings@,
            positions: match self.positions {
                Some(rows) => Some(rows@),
                None => None,
            },
            points_count: self.points_count as nat,
        }
    }
}

impl ImmutableInvertedIndex {
    /// The index is sound.
    pub closed spec fn wf(&self) -> bool {
        &&& self.vocab.wf()
        &&& self.postings.wf()
        &&& rows_scalar(self.vocab@)
        &&& self.positions matches Some(rows) ==> rows.wf()
        &&& self@.wf()
        &&& lookup_agrees(self.lookup@, rows_chars(self.vocab@), self.vocab@.len())
    }

    /// The rows of numbers behind the vocabulary.
    pub closed spec fn spec_vocab_rows(&self) -> Seq<Seq<u32>> {
        self.vocab@
    }

    /// A sound index holds a sound content, and its vocabulary is made of
    /// characters.
    pub proof fn lemma_view_wf(&self)
        requires
            self.wf(),
        ensures
            self@.wf(),
            rows_scalar(self.spec_vocab_rows()),
            self@.vocab == rows_chars(self.spec_vocab_rows()),
    {
    }

    /// The compact form of `index`: the same vocabulary and postings, and,
    /// where `index` matches phrases, for each entry of the postings the
    /// places of the token in the text kept for the point.
    pub fn from_mutable(index: &MutableInvertedIndex) -> (r: Self)
        requires
            index.wf(),
        ensures
            r.wf(),
            r@.vocab == index@.vocab,
            r@.postings == index@.postings,
            r@.positions is Some <==> index@.documents is Some,
            r@.points_count == indexed_count(index@.token_sets, index@.token_sets.len()),
            forall|token: int, place: int|
                0 <= token < index@.postings.len() && 0 <= place < index@.postings[token].len()
                    ==> #[trigger] r@.position_list(token, place) == index@.positions(
                    index@.postings[token][place] as int,
                    token as u32,
                ),
    {
        proof {
            index.lemma_view_wf();
        }
        let ghost source = index@;
        let count = index.vocab_len();
        let mut vocab = Ragged::new();
        let mut postings = Ragged::new();
        let mut token: usize = 0;
        while token < count
            invariant
                token <= count,
                count == source.vocab.len(),
                source == index@,
                source.wf(),
                vocab.wf(),
                postings.wf(),
                vocab@.len() == token,
                postings@.len() == token,
                rows_scalar(vocab@),
                forall|t: int| 0 <= t < token ==> chars_with(#[trigger] vocab@[t])
                    == source.vocab[t],
                forall|t: int| 0 <= t < token ==> #[trigger] postings@[t] == source.postings[t],
            decreases count - token,
        {
            let codes = to_codes(index.token(token as TokenId).as_str());
            proof {
                lemma_codes_round_trip(source.vocab[token as int]);
            }
            vocab.push_row(codes.as_slice());
            postings.push_row(index.posting(token as TokenId).as_slice());
            token += 1;
        }
        assert(rows_chars(vocab@) =~= source.vocab);
        assert(postings@ =~= source.postings);
        let positions = if index.has_positions() {
            Some(Self::build_positions(index, &postings))
        } else {
            None
        };
        let points_count = index.points_count() as u32;
        let lookup = Self::build_lookup(&vocab);
        ImmutableInvertedIndex { vocab, lookup, postings, positions, points_count }
    }

    /// For each entry of `postings`, counted through all tokens, the places
    /// of the token in the text that `index` keeps for the point.
    fn build_positions(index: &MutableInvertedIndex, postings: &Ragged) -> (rows: Ragged)
        requires
            index.wf(),
            postings.wf(),
            postings@ == index@.postings,
        ensures
            rows.wf(),
            rows@.len() == flat_len(postings@, postings@.len()),
            forall|token: int, place: int|
                0 <= token < postings@.len() && 0 <= place < postings@[token].len()
                    ==> #[trigger] rows@[flat_len(postings@, token as nat) + place]
                    == index@.positions(postings@[token][place] as int, token as u32),
    {
        proof {
            index.lemma_view_wf();
        }
        let ghost source = index@;
        let ghost lists = postings@;
        let count = postings.rows();
        let mut rows = Ragged::new();
        let mut token: usize = 0;
        while token < count
            invariant
                token <= count,
                count == lists.len(),
                count <= u32::MAX,
                lists == postings@,
                lists == source.postings,
                source == index@,
                source.wf(),
                index.wf(),
                postings.wf(),
                rows.wf(),
                rows@.len() == flat_len(lists, token as nat),
                forall|t: int, place: int|
                    0 <= t < token && 0 <= place < lists[t].len() ==> #[trigger] rows@[flat_len(
                        lists,
                        t as nat,
                    ) + place] == source.positions(lists[t][place] as int, t as u32),
            decreases count - token,
        {
            let list = postings.row(token);
            let ghost base = flat_len(lists, token as nat);
            let ghost held = rows@;
            let mut place: usize = 0;
            while place < list.len()
                invariant
                    place <= list@.len(),
                    list@ == lists[token as int],
                    token < count,
                    count <= u32::MAX,
                    source == index@,
                    source.wf(),
                    index.wf(),
                    rows.wf(),
                    rows@.len() == base + place,
                    forall|e: int| 0 <= e < base ==> rows@[e] == held[e],
                    held.len() == base,
                    forall|p: int|
                        0 <= p < place ==> #[trigger] rows@[base + p] == source.positions(
                            list@[p] as int,
                            token as u32,
                        ),
                decreases list.len() - place,
            {
                let point: PointOffsetType = list[place];
                let ghost before = rows@;
                let places = index.positions(point, token as TokenId);
                rows.push_row(places.as_slice());
                assert(rows@[base + place] == source.positions(point as int, token as u32));
                assert forall|p: int| 0 <= p < place + 1 implies #[trigger] rows@[base + p]
                    == source.positions(list@[p] as int, token as u32) by {
                    if p < place {
                        assert(before[base + p] == source.positions(list@[p] as int, token as u32));
                    }
                }
                place += 1;
            }
            proof {
                assert forall|t: int, p: int|
                    0 <= t < token + 1 && 0 <= p < lists[t].len() implies #[trigger] rows@[flat_len(
                    lists,
                    t as nat,
                ) + p] == source.positions(lists[t][p] as int, t as u32) by {
                    if t < token {
                        lemma_flat_len_step(lists, t as nat, token as nat);
                        assert(held[flat_len(lists, t as nat) + p] == source.positions(
                            lists[t][p] as int,
                            t as u32,
                        ));
                    }
                }
            }
            token += 1;
        }
        rows
    }

    /// Whether the index matches phrases.
    pub fn has_positions(&self) -> (r: bool)
        ensures
            r == self@.positions is Some,
    {
        self.positions.is_some()
    }

    /// Number of tokens in the vocabulary.
    pub fn vocab_len(&self) -> (r: usize)
        requires
            self.wf(),
        ensures
            r == self@.vocab.len(),
    {
        self.vocab.rows()
    }

    /// Number of points that were indexed when the index was built.
    pub fn points_count(&self) -> (r: u32)
        ensures
            r == self@.points_count,
    {
        self.points_count
    }

    /// The token with the identifier `id`.
    pub fn token(&self, id: TokenId) -> (r: String)
        requires
            self.wf(),
            id < self@.vocab.len(),
        ensures
            r@ == self@.vocab[id as int],
    {
        let codes = self.vocab.row(id as usize);
        assert(all_scalar(self.vocab@[id as int]));
        match from_codes(codes) {
            Some(token) => token,
            None => String::new(),
        }
    }

    /// The identifier of `token`, where the vocabulary holds it; the
    /// smallest one where it holds the token more than once.
    pub fn get_token_id(&self, token: &str) -> (r: Option<TokenId>)
        requires
            self.wf(),
        ensures
            match r {
                Some(id) => id < self@.vocab.len() && self@.vocab[id as int] == token@
                    && forall|other: int| 0 <= other < id ==> self@.vocab[other] != token@,
                None => !self@.vocab.contains(token@),
            },
    {
        match self.lookup.get(token) {
            Some(id) => Some(*id),
            None => {
                assert forall|id: int| 0 <= id < self@.vocab.len() implies self@.vocab[id]
                    != token@ by {
                    assert(self.lookup@.contains_key(self@.vocab[id]));
                }
                None
            },
        }
    }

    /// The map that finds each token of `vocab` at the first place at which
    /// it stands.
    fn build_lookup(vocab: &Ragged) -> (lookup: StringHashMap<TokenId>)
        requires
            vocab.wf(),
            rows_scalar(vocab@),
            vocab@.len() <= u32::MAX,
        ensures
            lookup_agrees(lookup@, rows_chars(vocab@), vocab@.len()),
    {
        let ghost tokens = rows_chars(vocab@);
        let count = vocab.rows();
        let mut lookup: StringHashMap<TokenId> = StringHashMap::new();
        let mut id: usize = 0;
        while id < count
            invariant
                id <= count,
                count == vocab@.len(),
                count <= u32::MAX,
                vocab.wf(),
                rows_scalar(vocab@),
                tokens == rows_chars(vocab@),
                lookup_agrees(lookup@, tokens, id as nat),
            decreases count - id,
        {
            let row = vocab.row(id);
            assert(all_scalar(vocab@[id as int]));
            match from_codes(row) {
                Some(token) => {
                    assert(token@ == tokens[id as int]);
                    let ghost before = lookup@;
                    if !lookup.contains_key(token.as_str()) {
                        lookup.insert(token, id as TokenId);
                        proof {
                            let added = tokens[id as int];
                            assert forall|key: Seq<char>| #[trigger]
                                lookup@.contains_key(key) implies lookup@[key] < id + 1
                                && tokens[lookup@[key] as int] == key && forall|other: int|
                                0 <= other < lookup@[key] ==> tokens[other] != key by {
                                if key == added {
                                    assert forall|other: int| 0 <= other < id implies tokens[other]
                                        != key by {
                                        assert(before.contains_key(tokens[other]));
                                    }
                                } else {
                                    assert(before.contains_key(key));
                                }
                            }
                            assert forall|j: int| 0 <= j < id + 1 implies lookup@.contains_key(
                                #[trigger] tokens[j],
                            ) by {
                                if j < id {
                                    assert(before.contains_key(tokens[j]));
                                }
                            }
                        }
                    }
                },
                None => {},
            }
            id += 1;
        }
        lookup
    }

    /// The points that hold the token `id`.
    pub fn postings(&self, id: TokenId) -> (r: &[PointOffsetType])
        requires
            self.wf(),
            id < self@.postings.len(),
        ensures
            r@ == self@.postings[id as int],
    {
        self.postings.row(id as usize)
    }

    /// The places at which token `id` stands in the text of the point at
    /// place `place` of its postings; none where phrases are not matched.
    pub fn positions(&self, id: TokenId, place: usize) -> (r: Vec<u32>)
        requires
            self.wf(),
            id < self@.postings.len(),
            place < self@.postings[id as int].len(),
        ensures
            r@ == self@.position_list(id as int, place as int),
    {
        match &self.positions {
            Some(rows) => {
                proof {
                    self.postings.lemma_start(id as nat);
                    self.postings.lemma_start(self.postings@.len());
                    lemma_flat_len_step(self.postings@, id as nat, self.postings@.len());
                    self.postings.lemma_parts();
                }
                let total = self.postings.total();
                assert(flat_len(self.postings@, id as nat) + place < total);
                let start = self.postings.start_of(id as usize) as usize;
                let row = rows.row(start + place);
                let mut copy: Vec<u32> = Vec::new();
                let mut i: usize = 0;
                while i < row.len()
                    invariant
                        i <= row@.len(),
                        copy@ == row@.take(i as int),
                    decreases row.len() - i,
                {
                    copy.push(row[i]);
                    i += 1;
                    assert(copy@ =~= row@.take(i as int));
                }
                assert(row@.take(i as int) =~= row@);
                copy
            },
            None => Vec::new(),
        }
    }

    /// The rows behind the vocabulary: the numbers of the characters of each token.
    pub fn vocab_rows(&self) -> (r: &Ragged)
        ensures
            r@ == self.spec_vocab_rows(),
            self.wf() ==> r.wf(),
    {
        &self.vocab
    }

    /// The rows behind the postings.
    pub fn postings_rows(&self) -> (r: &Ragged)
        ensures
            r@ == self@.postings,
            self.wf() ==> r.wf(),
    {
        &self.postings
    }

    /// The rows behind the positions, where phrases are matched.
    pub fn positions_rows(&self) -> (r: Option<&Ragged>)
        ensures
            match r {
                Some(rows) => self@.positions == Some(rows@) && (self.wf() ==> rows.wf()),
                None => self@.positions is None,
            },
    {
        self.positions.as_ref()
    }

    /// The index that holds the given rows, where they make a sound index:
    /// as many postings as tokens, every number of the vocabulary the number
    /// of a character, and positions, where there are any, for every entry
    /// of the postings.
    pub fn from_rows(
        vocab: Ragged,
        postings: Ragged,
        positions: Option<Ragged>,
        points_count: u32,
    ) -> (r: Option<Self>)
        requires
            vocab.wf(),
            postings.wf(),
            positions matches Some(rows) ==> rows.wf(),
        ensures
            r is Some <==> vocab@.len() == postings@.len() && vocab@.len() <= u32::MAX
                && rows_scalar(vocab@) && (positions matches Some(rows) ==> rows@.len()
                == flat_len(postings@, postings@.len())),
            r matches Some(index) ==> index.wf() && index.spec_vocab_rows() == vocab@
                && index@.postings == postings@ && index@.positions == (match positions {
                Some(rows) => Some(rows@),
                None => None,
            }) && index@.points_count == points_count,
    {
        if vocab.rows() != postings.rows() || vocab.rows() > u32::MAX as usize {
            return None;
        }
        let mut token: usize = 0;
        while token < vocab.rows()
            invariant
                vocab.wf(),
                token <= vocab@.len(),
                forall|t: int| 0 <= t < token ==> all_scalar(#[trigger] vocab@[t]),
            decreases vocab@.len() - token,
        {
            let row = vocab.row(token);
            let mut i: usize = 0;
            while i < row.len()
                invariant
                    i <= row@.len(),
                    token < vocab@.len(),
                    row@ == vocab@[token as int],
                    forall|k: int| 0 <= k < i ==> crate::text::is_scalar(#[trigger] row@[k]),
                decreases row.len() - i,
            {
                let code = row[i];
                if !(code <= 0xD7FF || (0xE000 <= code && code <= 0x10FFFF)) {
                    assert(!crate::text::is_scalar(vocab@[token as int][i as int]));
                    return None;
                }
                i += 1;
            }
            token += 1;
        }
        match &positions {
            Some(rows) => {
                proof {
                    postings.lemma_start(postings@.len());
                }
                if rows.rows() != postings.total() {
                    return None;
                }
            },
            None => {},
        }
        let lookup = Self::build_lookup(&vocab);
        Some(ImmutableInvertedIndex { vocab, lookup, postings, positions, points_count })
    }
}

/// More rows hold no fewer numbers.
pub proof fn lemma_flat_len_step(rows: Seq<Seq<u32>>, fewer: nat, more: nat)
    requires
        fewer < more <= rows.len(),
    ensures
        flat_len(rows, fewer) + rows[fewer as int].len() <= flat_len(rows, more),
    decreases more,
{
    if more - 1 > fewer {
        lemma_flat_len_step(rows, fewer, (more - 1) as nat);
    }
}

} // verus!
