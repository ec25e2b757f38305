//! The inverted index while it is built: which points hold which tokens.

use vstd::hash_map::StringHashMap;
use vstd::prelude::*;
use crate::common::{
    counter_sum, saturating_bytes, HardwareCounterCell, OperationError, OperationResult,
    PointOffsetType, TokenId,
};
use crate::sorted::{contains_sorted, insert_sorted, remove_sorted, sorted_set, strictly_ascending};
use crate::text::strings_view;

verus! {

/// The tokens of a point, each once, in rising order.
#[derive(Clone, Debug, PartialEq, Eq)]
pub struct TokenSet {
    tokens: Vec<TokenId>,
}

impl View for TokenSet {
    type V = Seq<u32>;

    closed spec fn view(&self) -> Seq<u32> {
        self.tokens@
    }
}

impl TokenSet {
    /// The tokens rise strictly.
    pub open spec fn wf(&self) -> bool {
        strictly_ascending(self@)
    }

    /// The set of the tokens in `tokens`.
    pub fn from_tokens(tokens: &Vec<TokenId>) -> (r: Self)
        ensures
            r.wf(),
            forall|token: u32| r@.contains(token) <==> tokens@.contains(token),
    {
        TokenSet { tokens: sorted_set(tokens) }
    }

    /// The tokens, in rising order.
    pub fn tokens(&self) -> (r: &Vec<TokenId>)
        ensures
            r@ == self@,
    {
        &self.tokens
    }

    /// Whether the set holds `token`.
    pub fn contains(&self, token: TokenId) -> (r: bool)
        requires
            self.wf(),
        ensures
            r == self@.contains(token),
    {
        contains_sorted(&self.tokens, token)
    }
}

/// The tokens of a point in the order of its text.
#[derive(Clone, Debug, PartialEq, Eq)]
pub struct Document {
    tokens: Vec<TokenId>,
}

impl View for Document {
    type V = Seq<u32>;

    closed spec fn view(&self) -> Seq<u32> {
        self.tokens@
    }
}

impl Document {
    /// The text made of `tokens` in their order.
    pub fn new(tokens: Vec<TokenId>) -> (r: Self)
        ensures
            r@ == tokens@,
    {
        Document { tokens }
    }

    /// The tokens, in the order of the text.
    pub fn tokens(&self) -> (r: &Vec<TokenId>)
        ensures
            r@ == self@,
    {
        &self.tokens
    }
}

/// The places at which `token` stands among the first `count` tokens of
/// `document`, in rising order.
pub open spec fn positions_of(document: Seq<u32>, token: u32, count: nat) -> Seq<u32>
    decreases count,
{
    if count == 0 {
        Seq::empty()
    } else if document[count - 1] == token {
        positions_of(document, token, (count - 1) as nat).push((count - 1) as u32)
    } else {
        positions_of(document, token, (count - 1) as nat)
    }
}

/// The places that `positions_of` gives rise strictly, and they are the
/// places at which the token stands.
pub proof fn lemma_positions_of(document: Seq<u32>, token: u32, count: nat)
    requires
        count <= document.len(),
        count <= u32::MAX + 1,
    ensures
        crate::sorted::strictly_ascending(positions_of(document, token, count)),
        forall|place: u32| #[trigger]
            positions_of(document, token, count).contains(place) <==> place < count
                && document[place as int] == token,
        positions_of(document, token, count).len() <= count,
    decreases count,
{
    if count > 0 {
        let shorter = positions_of(document, token, (count - 1) as nat);
        let longer = positions_of(document, token, count);
        lemma_positions_of(document, token, (count - 1) as nat);
        if document[count - 1] == token {
            let last = (count - 1) as u32;
            assert(longer == shorter.push(last));
            assert(longer.len() == shorter.len() + 1);
            assert(longer[shorter.len() as int] == last);
            assert forall|i: int| 0 <= i < shorter.len() implies shorter[i] < last by {
                let place = shorter[i];
                assert(shorter.contains(place));
                assert(place < count - 1);
            }
            assert forall|i: int, j: int| 0 <= i < j < longer.len() implies longer[i]
                < longer[j] by {
                if j == longer.len() - 1 {
                    assert(shorter.contains(shorter[i]));
                } else {
                    assert(shorter[i] < shorter[j]);
                }
            }
            assert forall|place: u32| #[trigger]
                longer.contains(place) <==> place < count && document[place as int] == token by {
                if longer.contains(place) {
                    let i = choose|i: int| 0 <= i < longer.len() && longer[i] == place;
                    if i < shorter.len() {
                        assert(longer[i] == shorter[i]);
                        assert(shorter.contains(shorter[i]));
                    }
                }
                if place < count && document[place as int] == token {
                    if place == last {
                        assert(longer[shorter.len() as int] == place);
                    } else {
                        assert(place < count - 1);
                        assert(shorter.contains(place));
                        let i = choose|i: int| 0 <= i < shorter.len() && shorter[i] == place;
                        assert(longer[i] == place);
                    }
                }
            }
        }
    }
}

/// The vocabulary after `token` was registered: unchanged where it holds the
/// token, else longer by the token.
pub open spec fn registered(vocab: Seq<Seq<char>>, token: Seq<char>) -> Seq<Seq<char>> {
    if vocab.contains(token) {
        vocab
    } else {
        vocab.push(token)
    }
}

/// The vocabulary after the first `count` of `tokens` were registered in order.
pub open spec fn registered_all(
    vocab: Seq<Seq<char>>,
    tokens: Seq<Seq<char>>,
    count: nat,
) -> Seq<Seq<char>>
    decreases count,
{
    if count == 0 {
        vocab
    } else {
        registered(registered_all(vocab, tokens, (count - 1) as nat), tokens[count - 1])
    }
}

/// Whether no token stands twice in `vocab`.
pub open spec fn distinct(vocab: Seq<Seq<char>>) -> bool {
    forall|i: int, j: int| 0 <= i < j < vocab.len() ==> vocab[i] != vocab[j]
}

/// What an inverted index holds.
pub struct InvertedIndexView {
    /// The tokens, each at the place of its identifier.
    pub vocab: Seq<Seq<char>>,
    /// For each token the points that hold it, in rising order.
    pub postings: Seq<Seq<u32>>,
    /// For each point its tokens, where the point is indexed.
    pub token_sets: Seq<Option<Seq<u32>>>,
    /// For each point its tokens in the order of its text, where phrases are
    /// matched and the point is indexed.
    pub documents: Option<Seq<Option<Seq<u32>>>>,
}

impl InvertedIndexView {
    /// Whether `point` is indexed.
    pub open spec fn has_point(self, point: int) -> bool {
        0 <= point < self.token_sets.len() && self.token_sets[point] is Some
    }

    /// Whether `point` is indexed with `token` among its tokens.
    pub open spec fn point_has_token(self, point: int, token: u32) -> bool {
        self.has_point(point) && self.token_sets[point]->0.contains(token)
    }

    /// Whether the postings of `token` hold `point`.
    pub open spec fn posted(self, token: int, point: u32) -> bool {
        0 <= token < self.postings.len() && self.postings[token].contains(point)
    }

    /// The tokens of the text kept for `point`, where there is one.
    pub open spec fn document_of(self, point: int) -> Option<Seq<u32>> {
        match self.documents {
            Some(documents) => if 0 <= point < documents.len() {
                documents[point]
            } else {
                None
            },
            None => None,
        }
    }

    /// The places at which `token` stands in the text kept for `point`, in
    /// rising order; none where no text is kept.
    pub open spec fn positions(self, point: int, token: u32) -> Seq<u32> {
        match self.document_of(point) {
            Some(document) => positions_of(document, token, document.len()),
            None => Seq::empty(),
        }
    }

    /// Whether `tokens` are the tokens of the text kept for `point`, where
    /// the index matches phrases; an index that does not keeps no text.
    pub open spec fn documented_as(self, point: int, tokens: Seq<u32>) -> bool {
        match self.documents {
            Some(documents) => 0 <= point < documents.len() && documents[point] is Some
                && forall|token: u32|
                tokens.contains(token) <==> documents[point]->0.contains(token),
            None => true,
        }
    }

    /// Whether every token of `tokens` is in the vocabulary.
    pub open spec fn known(self, tokens: Seq<u32>) -> bool {
        forall|i: int| 0 <= i < tokens.len() ==> #[trigger] tokens[i] < self.vocab.len()
    }

    /// The index is sound: identifiers are dense and name one token each,
    /// every list rises strictly, and every indexed point stands in the
    /// postings of each of its tokens.
    pub open spec fn wf(self) -> bool {
        &&& distinct(self.vocab)
        &&& self.vocab.len() <= u32::MAX
        &&& self.token_sets.len() <= u32::MAX
        &&& self.postings.len() == self.vocab.len()
        &&& forall|token: int|
            0 <= token < self.postings.len() ==> strictly_ascending(#[trigger] self.postings[token])
        &&& forall|point: int|
            0 <= point < self.token_sets.len() ==> (#[trigger] self.token_sets[point] matches Some(
                tokens,
            ) ==> strictly_ascending(tokens) && self.known(tokens))
        &&& forall|point: u32, token: u32| #[trigger]
            self.point_has_token(point as int, token) ==> self.posted(token as int, point)
        &&& self.documents matches Some(documents) ==> forall|point: int|
            0 <= point < documents.len() ==> (#[trigger] documents[point] matches Some(tokens)
                ==> self.known(tokens) && tokens.len() <= u32::MAX)
    }

    /// A point stands in the postings of a token only where the token is
    /// among the tokens of the point; and where phrases are matched, the
    /// tokens of an indexed point are those of its text.
    pub open spec fn consistent(self) -> bool {
        &&& forall|token: int, point: u32| #[trigger]
            self.posted(token, point) ==> self.point_has_token(point as int, token as u32)
        &&& self.documents matches Some(documents) ==> forall|point: int| #[trigger]
            self.has_point(point) ==> point < documents.len() && documents[point] is Some
                && forall|token: u32|
                self.token_sets[point]->0.contains(token) <==> documents[point]->0.contains(token)
    }
}

/// Registering a token keeps the tokens there were at their places, and
/// keeps the vocabulary free of doubles.
pub proof fn lemma_registered(vocab: Seq<Seq<char>>, token: Seq<char>)
    requires
        distinct(vocab),
    ensures
        distinct(registered(vocab, token)),
        registered(vocab, token).contains(token),
        vocab.len() <= registered(vocab, token).len() <= vocab.len() + 1,
        forall|i: int| 0 <= i < vocab.len() ==> registered(vocab, token)[i] == vocab[i],
{
    if vocab.contains(token) {
    } else {
        let longer = vocab.push(token);
        assert(longer[vocab.len() as int] == token);
        assert forall|i: int, j: int| 0 <= i < j < longer.len() implies longer[i] != longer[j] by {
            if j == vocab.len() {
                assert(vocab.contains(vocab[i]));
            }
        }
    }
}

/// Registering tokens keeps the tokens there were at their places: no
/// identifier ever changes.
pub proof fn lemma_registered_all(vocab: Seq<Seq<char>>, tokens: Seq<Seq<char>>, count: nat)
    requires
        distinct(vocab),
        count <= tokens.len(),
    ensures
        distinct(registered_all(vocab, tokens, count)),
        vocab.len() <= registered_all(vocab, tokens, count).len() <= vocab.len() + count,
        forall|i: int|
            0 <= i < vocab.len() ==> registered_all(vocab, tokens, count)[i] == vocab[i],
        forall|k: int|
            0 <= k < count ==> registered_all(vocab, tokens, count).contains(#[trigger] tokens[k]),
    decreases count,
{
    if count > 0 {
        let before = registered_all(vocab, tokens, (count - 1) as nat);
        lemma_registered_all(vocab, tokens, (count - 1) as nat);
        lemma_registered(before, tokens[count - 1]);
        let after = registered(before, tokens[count - 1]);
        assert forall|k: int| 0 <= k < count implies after.contains(#[trigger] tokens[k]) by {
            if k < count - 1 {
                let at = choose|at: int| 0 <= at < before.len() && before[at] == tokens[k];
                assert(after[at] == tokens[k]);
            }
        }
    }
}

/// Tokens that the vocabulary holds already change nothing when they are
/// registered again.
pub proof fn lemma_registered_again(vocab: Seq<Seq<char>>, tokens: Seq<Seq<char>>, count: nat)
    requires
        count <= tokens.len(),
        forall|k: int| 0 <= k < tokens.len() ==> vocab.contains(#[trigger] tokens[k]),
    ensures
        registered_all(vocab, tokens, count) == vocab,
    decreases count,
{
    if count > 0 {
        lemma_registered_again(vocab, tokens, (count - 1) as nat);
    }
}

/// The inverted index in the form that takes points in and gives them up again.
pub struct MutableInvertedIndex {
    vocab: StringHashMap<TokenId>,
    tokens: Vec<String>,
    postings: Vec<Vec<PointOffsetType>>,
    point_to_tokens: Vec<Option<Vec<TokenId>>>,
    point_to_doc: Option<Vec<Option<Vec<TokenId>>>>,
}

/// What a list of optional lists holds.
pub open spec fn lists_view(lists: Seq<Option<Vec<u32>>>) -> Seq<Option<Seq<u32>>> {
    Seq::new(
        lists.len(),
        |i: int|
            match lists[i] {
                Some(list) => Some(list@),
                None => None,
            },
    )
}

/// Number of points that are indexed among the first `count`.
pub open spec fn indexed_count(token_sets: Seq<Option<Seq<u32>>>, count: nat) -> nat
    decreases count,
{
    if count == 0 {
        0
    } else {
        indexed_count(token_sets, (count - 1) as nat) + if token_sets[count - 1] is Some {
            1nat
        } else {
            0nat
        }
    }
}

impl View for MutableInvertedIndex {
    type V = InvertedIndexView;

    closed spec fn view(&self) -> InvertedIndexView {
        InvertedIndexView {
            vocab: strings_view(self.tokens@),
            postings: Seq::new(self.postings@.len(), |token: int| self.postings@[token]@),
            token_sets: lists_view(self.point_to_tokens@),
            documents: match self.point_to_doc {
                Some(documents) => Some(lists_view(documents@)),
                None => None,
            },
        }
    }
}

impl MutableInvertedIndex {
    /// The map from tokens to identifiers and the list of tokens say the same.
    closed spec fn vocab_agrees(&self) -> bool {
        &&& forall|id: int|
            0 <= id < self.tokens@.len() ==> self.vocab@.contains_key(#[trigger] self.tokens@[id]@)
                && self.vocab@[self.tokens@[id]@] == id
        &&& forall|token: Seq<char>| #[trigger]
            self.vocab@.contains_key(token) ==> self.vocab@[token] < self.tokens@.len()
                && self.tokens@[self.vocab@[token] as int]@ == token
    }

    /// The index is sound.
    pub closed spec fn wf(&self) -> bool {
        &&& self@.wf()
        &&& self.vocab_agrees()
        &&& self.point_to_tokens@.len() <= u32::MAX
        &&& self.point_to_doc matches Some(documents) ==> documents@.len() <= u32::MAX
    }

    /// A sound index holds a sound content.
    pub proof fn lemma_view_wf(&self)
        requires
            self.wf(),
        ensures
            self@.wf(),
    {
    }

    /// An index without tokens and points. With `with_positions` it keeps
    /// the tokens of each point in the order of its text.
    pub fn new(with_positions: bool) -> (r: Self)
        ensures
            r.wf(),
            r@.consistent(),
            r@ == (InvertedIndexView {
                vocab: Seq::empty(),
                postings: Seq::empty(),
                token_sets: Seq::empty(),
                documents: if with_positions {
                    Some(Seq::empty())
                } else {
                    None
                },
            }),
    {
        let r = MutableInvertedIndex {
            vocab: StringHashMap::new(),
            tokens: Vec::new(),
            postings: Vec::new(),
            point_to_tokens: Vec::new(),
            point_to_doc: if with_positions {
                Some(Vec::new())
            } else {
                None
            },
        };
        assert(r@.vocab =~= Seq::empty());
        assert(r@.postings =~= Seq::empty());
        assert(r@.token_sets =~= Seq::empty());
        assert(with_positions ==> r@.documents->0 =~= Seq::empty());
        r
    }

    /// Whether the index keeps the tokens of each point in the order of its text.
    pub fn has_positions(&self) -> (r: bool)
        ensures
            r == self@.documents is Some,
    {
        self.point_to_doc.is_some()
    }

    /// Number of tokens in the vocabulary.
    pub fn vocab_len(&self) -> (r: usize)
        ensures
            r == self@.vocab.len(),
    {
        self.tokens.len()
    }

    /// The identifier of `token`, where the vocabulary holds it.
    pub fn get_token_id(&self, token: &str) -> (r: Option<TokenId>)
        requires
            self.wf(),
        ensures
            match r {
                Some(id) => id < self@.vocab.len() && self@.vocab[id as int] == token@,
                None => !self@.vocab.contains(token@),
            },
    {
        match self.vocab.get(token) {
            Some(id) => Some(*id),
            None => {
                assert forall|i: int| 0 <= i < self@.vocab.len() implies self@.vocab[i]
                    != token@ by {
                    assert(self.vocab@.contains_key(self.tokens@[i]@));
                }
                None
            },
        }
    }

    /// The identifier of `token`, which is given the next free one where the
    /// vocabulary does not hold it yet.
    fn register_token(&mut self, token: &String) -> (id: TokenId)
        requires
            old(self).wf(),
            old(self)@.vocab.len() < u32::MAX,
        ensures
            final(self).wf(),
            final(self)@.vocab == registered(old(self)@.vocab, token@),
            id < final(self)@.vocab.len(),
            final(self)@.vocab[id as int] == token@,
            final(self)@.token_sets == old(self)@.token_sets,
            final(self)@.documents == old(self)@.documents,
            final(self)@.postings.len() == final(self)@.vocab.len(),
            forall|t: int|
                0 <= t < final(self)@.postings.len() ==> #[trigger] final(self)@.postings[t] == if t
                    < old(self)@.postings.len() {
                    old(self)@.postings[t]
                } else {
                    Seq::<u32>::empty()
                },
    {
        let found = self.get_token_id(token.as_str());
        match found {
            Some(id) => {
                assert(self@.vocab.contains(token@));
                id
            },
            None => {
                let id = self.tokens.len() as TokenId;
                let ghost before = *self;
                self.vocab.insert(token.clone(), id);
                self.tokens.push(token.clone());
                self.postings.push(Vec::new());
                proof {
                    assert(self@.vocab =~= before@.vocab.push(token@));
                    assert(self@.token_sets == before@.token_sets);
                    assert(self@.documents == before@.documents);
                    lemma_registered(before@.vocab, token@);
                    assert forall|t: int| 0 <= t < self@.postings.len() implies
                        #[trigger] self@.postings[t]
                        == if t < before@.postings.len() {
                        before@.postings[t]
                    } else {
                        Seq::<u32>::empty()
                    } by {}
                    assert forall|point: u32, t: u32| #[trigger]
                        self@.point_has_token(point as int, t) implies self@.posted(
                        t as int,
                        point,
                    ) by {
                        assert(before@.point_has_token(point as int, t));
                        assert(before@.posted(t as int, point));
                    }
                    assert forall|i: int|
                        0 <= i < self.tokens@.len() implies self.vocab@.contains_key(
                        #[trigger] self.tokens@[i]@,
                    ) && self.vocab@[self.tokens@[i]@] == i by {
                        if i < before.tokens@.len() {
                            assert(before.vocab@.contains_key(before.tokens@[i]@));
                            assert(before@.vocab[i] == before.tokens@[i]@);
                            assert(before@.vocab.contains(before.tokens@[i]@));
                        }
                    }
                    assert forall|key: Seq<char>| #[trigger]
                        self.vocab@.contains_key(key) implies self.vocab@[key] < self.tokens@.len()
                        && self.tokens@[self.vocab@[key] as int]@ == key by {
                        if key != token@ {
                            assert(before.vocab@.contains_key(key));
                        }
                    }
                }
                id
            },
        }
    }

    /// The identifiers of `str_tokens`, in their order and with their
    /// repetitions. A token that the vocabulary does not hold yet is given
    /// the next free identifier; no token that it holds changes its own.
    pub fn register_tokens(&mut self, str_tokens: &Vec<String>) -> (ids: Vec<TokenId>)
        requires
            old(self).wf(),
            old(self)@.vocab.len() + str_tokens@.len() <= u32::MAX,
        ensures
            final(self).wf(),
            final(self)@.vocab == registered_all(
                old(self)@.vocab,
                strings_view(str_tokens@),
                str_tokens@.len(),
            ),
            forall|i: int|
                0 <= i < old(self)@.vocab.len() ==> final(self)@.vocab[i] == old(self)@.vocab[i],
            ids@.len() == str_tokens@.len(),
            forall|i: int|
                0 <= i < ids@.len() ==> #[trigger] ids@[i] < final(self)@.vocab.len()
                    && final(self)@.vocab[ids@[i] as int] == str_tokens@[i]@,
            final(self)@.token_sets == old(self)@.token_sets,
            final(self)@.documents == old(self)@.documents,
            forall|t: int|
                0 <= t < final(self)@.postings.len() ==> #[trigger] final(self)@.postings[t] == if t
                    < old(self)@.postings.len() {
                    old(self)@.postings[t]
                } else {
                    Seq::<u32>::empty()
                },
            old(self)@.consistent() ==> final(self)@.consistent(),
    {
        let mut ids: Vec<TokenId> = Vec::new();
        let ghost strings = strings_view(str_tokens@);
        let mut i: usize = 0;
        while i < str_tokens.len()
            invariant
                i <= str_tokens@.len(),
                strings == strings_view(str_tokens@),
                self.wf(),
                old(self).wf(),
                old(self)@.vocab.len() + str_tokens@.len() <= u32::MAX,
                self@.vocab == registered_all(old(self)@.vocab, strings, i as nat),
                self@.vocab.len() <= old(self)@.vocab.len() + i,
                ids@.len() == i,
                forall|k: int|
                    0 <= k < i ==> #[trigger] ids@[k] < self@.vocab.len()
                        && self@.vocab[ids@[k] as int]
                        == str_tokens@[k]@,
                self@.token_sets == old(self)@.token_sets,
                self@.documents == old(self)@.documents,
                self@.postings.len() >= old(self)@.postings.len(),
                forall|t: int|
                    0 <= t < self@.postings.len() ==> #[trigger] self@.postings[t]
                        == if t < old(self)@.postings.len() {
                        old(self)@.postings[t]
                    } else {
                        Seq::<u32>::empty()
                    },
            decreases str_tokens.len() - i,
        {
            let ghost before = self@;
            proof {
                lemma_registered_all(old(self)@.vocab, strings, i as nat);
                lemma_registered(before.vocab, str_tokens@[i as int]@);
            }
            let id = self.register_token(&str_tokens[i]);
            ids.push(id);
            i += 1;
        }
        proof {
            lemma_registered_all(old(self)@.vocab, strings, str_tokens@.len());
            if old(self)@.consistent() {
                let before = old(self)@;
                let after = self@;
                assert forall|token: int, point: u32| #[trigger]
                    after.posted(token, point) implies after.point_has_token(
                    point as int,
                    token as u32,
                ) by {
                    assert(after.postings[token].contains(point));
                    assert(token < before.postings.len());
                    assert(before.posted(token, point));
                }
                if after.documents is Some {
                    assert forall|point: int| #[trigger]
                        after.has_point(point) implies point < after.documents->0.len()
                        && after.documents->0[point] is Some && forall|token: u32|
                        after.token_sets[point]->0.contains(token)
                            <==> after.documents->0[point]->0.contains(token) by {
                        assert(before.has_point(point));
                    }
                }
            }
        }
        ids
    }
    /// The token with the identifier `id`.
    pub fn token(&self, id: TokenId) -> (r: &String)
        requires
            id < self@.vocab.len(),
        ensures
            r@ == self@.vocab[id as int],
    {
        &self.tokens[id as usize]
    }

    /// The points that hold the token `id`, in rising order.
    pub fn posting(&self, id: TokenId) -> (r: &Vec<PointOffsetType>)
        requires
            id < self@.postings.len(),
        ensures
            r@ == self@.postings[id as int],
    {
        &self.postings[id as usize]
    }

    /// The tokens of `point`, where it is indexed.
    pub fn token_set(&self, point: PointOffsetType) -> (r: Option<&Vec<TokenId>>)
        ensures
            match r {
                Some(tokens) => self@.has_point(point as int) && self@.token_sets[point as int]
                    == Some(tokens@),
                None => !self@.has_point(point as int),
            },
    {
        if (point as usize) < self.point_to_tokens.len() {
            self.point_to_tokens[point as usize].as_ref()
        } else {
            None
        }
    }

    /// The tokens of the text kept for `point`, where there is one.
    pub fn document(&self, point: PointOffsetType) -> (r: Option<&Vec<TokenId>>)
        ensures
            match r {
                Some(tokens) => self@.document_of(point as int) == Some(tokens@),
                None => self@.document_of(point as int) is None,
            },
    {
        match &self.point_to_doc {
            Some(documents) => {
                if (point as usize) < documents.len() {
                    documents[point as usize].as_ref()
                } else {
                    None
                }
            },
            None => None,
        }
    }

    /// The places at which `token` stands in the text kept for `point`, in
    /// rising order; none where no text is kept.
    pub fn positions(&self, point: PointOffsetType, token: TokenId) -> (r: Vec<u32>)
        requires
            self.wf(),
        ensures
            r@ == self@.positions(point as int, token),
    {
        match self.document(point) {
            Some(document) => {
                let document_len = document.len();
                let mut places: Vec<u32> = Vec::new();
                let mut i: usize = 0;
                while i < document_len
                    invariant
                        i <= document_len,
                        document_len == document@.len(),
                        document@.len() <= u32::MAX,
                        places@ == positions_of(document@, token, i as nat),
                    decreases document_len - i,
                {
                    if document[i] == token {
                        places.push(i as u32);
                    }
                    i += 1;
                }
                places
            },
            None => Vec::new(),
        }
    }

    /// Number of places for points the index holds, indexed or not.
    pub fn points_len(&self) -> (r: usize)
        ensures
            r == self@.token_sets.len(),
    {
        self.point_to_tokens.len()
    }

    /// Number of points that are indexed.
    pub fn points_count(&self) -> (r: usize)
        ensures
            r == indexed_count(self@.token_sets, self@.token_sets.len()),
            r <= self@.token_sets.len(),
    {
        let mut count: usize = 0;
        let mut i: usize = 0;
        while i < self.point_to_tokens.len()
            invariant
                i <= self.point_to_tokens@.len(),
                count <= i,
                count == indexed_count(self@.token_sets, i as nat),
            decreases self.point_to_tokens.len() - i,
        {
            if self.point_to_tokens[i].is_some() {
                count += 1;
            }
            i += 1;
        }
        count
    }

    /// Whether every token of `tokens` is in the vocabulary.
    fn all_known(&self, tokens: &Vec<TokenId>) -> (r: bool)
        ensures
            r == self@.known(tokens@),
    {
        let mut i: usize = 0;
        while i < tokens.len()
            invariant
                i <= tokens@.len(),
                forall|k: int| 0 <= k < i ==> #[trigger] tokens@[k] < self@.vocab.len(),
            decreases tokens.len() - i,
        {
            if tokens[i] as usize >= self.tokens.len() {
                return false;
            }
            i += 1;
        }
        true
    }

    /// Lengthens `lists` with empty places until it holds the place `point`.
    fn make_room(lists: &mut Vec<Option<Vec<TokenId>>>, point: PointOffsetType)
        requires
            point < u32::MAX,
            old(lists)@.len() <= u32::MAX,
        ensures
            final(lists)@.len() == if point < old(lists)@.len() {
                old(lists)@.len()
            } else {
                (point + 1) as nat
            },
            final(lists)@.len() <= u32::MAX,
            forall|i: int| 0 <= i < old(lists)@.len() ==> final(lists)@[i] == old(lists)@[i],
            forall|i: int| old(lists)@.len() <= i < final(lists)@.len() ==>
                final(lists)@[i] is None,
    {
        while lists.len() <= point as usize
            invariant
                point < u32::MAX,
                old(lists)@.len() <= lists@.len(),
                lists@.len() <= old(lists)@.len() || lists@.len() <= point + 1,
                forall|i: int| 0 <= i < old(lists)@.len() ==> lists@[i] == old(lists)@[i],
                forall|i: int| old(lists)@.len() <= i < lists@.len() ==> lists@[i] is None,
            decreases point + 1 - lists@.len(),
        {
            lists.push(None);
        }
    }

    /// Indexes `point` with the tokens of `token_set`: the point enters the
    /// postings of each of them, and the set becomes the token set of the
    /// point. A set with a token outside the vocabulary, and the largest
    /// offset, which is never used, are refused and change nothing.
    pub fn index_tokens(
        &mut self,
        point: PointOffsetType,
        token_set: TokenSet,
        hw_counter: &mut HardwareCounterCell,
    ) -> (r: OperationResult<()>)
        requires
            old(self).wf(),
            token_set.wf(),
        ensures
            final(self).wf(),
            r == if !old(self)@.known(token_set@) {
                Err::<(), OperationError>(OperationError::BuildFailure)
            } else if point == u32::MAX {
                Err::<(), OperationError>(OperationError::OutOfRange)
            } else {
                Ok::<(), OperationError>(())
            },
            r is Err ==> final(self)@ == old(self)@ && *final(hw_counter) == *old(hw_counter),
            r is Ok ==> {
                &&& final(self)@.vocab == old(self)@.vocab
                &&& final(self)@.documents == old(self)@.documents
                &&& final(self)@.token_sets.len() == if point < old(self)@.token_sets.len() {
                    old(self)@.token_sets.len()
                } else {
                    (point + 1) as nat
                }
                &&& forall|other: int|
                    0 <= other < final(self)@.token_sets.len() ==>
                        #[trigger] final(self)@.token_sets[other] == if other == point {
                        Some(token_set@)
                    } else if other < old(self)@.token_sets.len() {
                        old(self)@.token_sets[other]
                    } else {
                        None
                    }
                &&& forall|token: int, other: u32| #[trigger]
                    final(self)@.posted(token, other) <==> old(self)@.posted(token, other) || (
                    other == point && 0 <= token < old(self)@.vocab.len()
                        && token_set@.contains(token as u32))
                &&& old(self)@.consistent() && !old(self)@.has_point(point as int)
                    && old(self)@.documented_as(point as int, token_set@)
                    ==> final(self)@.consistent()
                &&& final(hw_counter).payload_index_io_write == counter_sum(
                    old(hw_counter).payload_index_io_write,
                    token_set@.len() * 4,
                )
                &&& final(hw_counter).vector_io_read == old(hw_counter).vector_io_read
                &&& final(hw_counter).vector_io_write == old(hw_counter).vector_io_write
            },
    {
        if !self.all_known(&token_set.tokens) {
            return Err(OperationError::BuildFailure);
        }
        if point == u32::MAX {
            return Err(OperationError::OutOfRange);
        }
        let ghost before = *self;
        Self::make_room(&mut self.point_to_tokens, point);
        let ghost roomed = self.point_to_tokens@;
        let count = token_set.tokens.len();
        let mut i: usize = 0;
        proof {
            assert forall|token: int| 0 <= token < self.postings@.len() implies strictly_ascending(
                #[trigger] self.postings@[token]@,
            ) by {
                assert(before@.postings[token] == before.postings@[token]@);
            }
        }
        while i < count
            invariant
                i <= count,
                self.point_to_tokens@ == roomed,
                count == token_set@.len(),
                token_set.wf(),
                before.wf(),
                before@.known(token_set@),
                self.vocab == before.vocab,
                self.tokens == before.tokens,
                self.point_to_doc == before.point_to_doc,
                self.postings@.len() == before.postings@.len(),
                self.postings@.len() == before.tokens@.len(),
                forall|token: int|
                    0 <= token < self.postings@.len() ==> strictly_ascending(
                        #[trigger] self.postings@[token]@,
                    ),
                forall|token: int, other: u32|
                    0 <= token < self.postings@.len() ==>
                        (#[trigger] self.postings@[token]@.contains(
                        other,
                    ) <==> before.postings@[token]@.contains(other) || (other == point && exists|
                        k: int,
                    |
                        0 <= k < i && token_set@[k] == token)),
            decreases count - i,
        {
            let token = token_set.tokens[i];
            let ghost held = self.postings@;
            assert(token < self.postings@.len());
            assert(strictly_ascending(self.postings@[token as int]@));
            insert_sorted(&mut self.postings[token as usize], point);
            proof {
                assert forall|t: int, other: u32|
                    0 <= t < self.postings@.len() implies (#[trigger] self.postings@[t]@.contains(
                    other,
                ) <==> before.postings@[t]@.contains(other) || (other == point && exists|k: int|
                    0 <= k < i + 1 && token_set@[k] == t)) by {
                    if t == token {
                        assert(token_set@[i as int] == t);
                        assert(held[t]@.contains(other) <==> before.postings@[t]@.contains(other)
                            || (other == point && exists|k: int|
                            0 <= k < i && token_set@[k] == t));
                    } else {
                        assert(self.postings@[t] == held[t]);
                        assert(held[t]@.contains(other) <==> before.postings@[t]@.contains(other)
                            || (other == point && exists|k: int|
                            0 <= k < i && token_set@[k] == t));
                        if exists|k: int| 0 <= k < i + 1 && token_set@[k] == t {
                            let k = choose|k: int| 0 <= k < i + 1 && token_set@[k] == t;
                            assert(k < i);
                        }
                    }
                }
            }
            i += 1;
        }
        let ghost set_view = token_set@;
        self.point_to_tokens.set(point as usize, Some(token_set.tokens));
        let bytes = saturating_bytes(count, 4);
        hw_counter.incr_payload_index_io_write(bytes);
        proof {
            let old_view = before@;
            let new_view = self@;
            assert(new_view.vocab == old_view.vocab);
            assert(new_view.documents == old_view.documents);
            assert forall|other: int|
                0 <= other < new_view.token_sets.len() implies #[trigger] new_view.token_sets[other]
                == if other == point {
                Some(set_view)
            } else if other < old_view.token_sets.len() {
                old_view.token_sets[other]
            } else {
                None
            } by {}
            assert forall|token: int, other: u32| #[trigger]
                new_view.posted(token, other) <==> old_view.posted(token, other) || (other
                    == point && 0 <= token < old_view.vocab.len() && set_view.contains(
                    token as u32,
                )) by {
                if 0 <= token < new_view.postings.len() {
                    assert(new_view.postings[token] == self.postings@[token]@);
                    assert(old_view.postings[token] == before.postings@[token]@);
                    if exists|k: int| 0 <= k < count && set_view[k] == token {
                        let k = choose|k: int| 0 <= k < count && set_view[k] == token;
                        assert(set_view[k] == token as u32);
                    }
                    if set_view.contains(token as u32) {
                        let k = choose|k: int| 0 <= k < set_view.len() && set_view[k]
                            == token as u32;
                        assert(set_view[k] == token);
                    }
                }
            }
            assert forall|other: u32, token: u32| #[trigger]
                new_view.point_has_token(other as int, token) implies new_view.posted(
                token as int,
                other,
            ) by {
                if other == point {
                    let k = choose|k: int| 0 <= k < set_view.len() && set_view[k] == token;
                    assert(set_view[k] < old_view.vocab.len());
                } else {
                    assert(old_view.point_has_token(other as int, token));
                    assert(old_view.posted(token as int, other));
                }
            }
            assert forall|other: int|
                0 <= other < new_view.token_sets.len() implies (
            #[trigger] new_view.token_sets[other] matches Some(tokens) ==> strictly_ascending(
                tokens,
            ) && new_view.known(tokens)) by {
                if other != point && other < old_view.token_sets.len() {
                    assert(new_view.token_sets[other] == old_view.token_sets[other]);
                }
            }
            assert forall|token: int|
                0 <= token < new_view.postings.len() implies strictly_ascending(
                #[trigger] new_view.postings[token],
            ) by {
                assert(new_view.postings[token] == self.postings@[token]@);
            }
            if old_view.consistent() && !old_view.has_point(point as int)
                && old_view.documented_as(point as int, set_view) {
                assert forall|token: int, other: u32| #[trigger]
                    new_view.posted(token, other) implies new_view.point_has_token(
                    other as int,
                    token as u32,
                ) by {
                    if old_view.posted(token, other) {
                        assert(old_view.point_has_token(other as int, token as u32));
                    }
                }
                if new_view.documents is Some {
                    let documents = new_view.documents->0;
                    assert forall|other: int| #[trigger]
                        new_view.has_point(other) implies other < documents.len()
                        && documents[other] is Some && forall|token: u32|
                        new_view.token_sets[other]->0.contains(token)
                            <==> documents[other]->0.contains(token) by {
                        if other != point {
                            assert(old_view.has_point(other));
                        }
                    }
                }
            }
        }
        Ok(())
    }
    /// Keeps `document` as the tokens of `point` in the order of its text,
    /// where the index matches phrases; an index that does not keeps
    /// nothing. A document with a token outside the vocabulary, and the
    /// largest offset, which is never used, are refused and change nothing.
    pub fn index_document(
        &mut self,
        point: PointOffsetType,
        document: Document,
        hw_counter: &mut HardwareCounterCell,
    ) -> (r: OperationResult<()>)
        requires
            old(self).wf(),
        ensures
            final(self).wf(),
            r == if old(self)@.documents is None {
                Ok::<(), OperationError>(())
            } else if !old(self)@.known(document@) {
                Err::<(), OperationError>(OperationError::BuildFailure)
            } else if point == u32::MAX || document@.len() > u32::MAX {
                Err::<(), OperationError>(OperationError::OutOfRange)
            } else {
                Ok::<(), OperationError>(())
            },
            r is Err || old(self)@.documents is None ==> final(self)@ == old(self)@
                && *final(hw_counter) == *old(hw_counter),
            r is Ok && old(self)@.documents is Some ==> {
                &&& final(self)@.vocab == old(self)@.vocab
                &&& final(self)@.postings == old(self)@.postings
                &&& final(self)@.token_sets == old(self)@.token_sets
                &&& final(self)@.documents matches Some(documents) && documents.len() == if point
                    < old(self)@.documents->0.len() {
                    old(self)@.documents->0.len()
                } else {
                    (point + 1) as nat
                } && forall|other: int|
                    0 <= other < documents.len() ==> #[trigger] documents[other] == if other
                        == point {
                        Some(document@)
                    } else if other < old(self)@.documents->0.len() {
                        old(self)@.documents->0[other]
                    } else {
                        None
                    }
                &&& old(self)@.consistent() && !old(self)@.has_point(point as int) ==>
                    final(self)@.consistent()
                &&& final(hw_counter).payload_index_io_write == counter_sum(
                    old(hw_counter).payload_index_io_write,
                    document@.len() * 4,
                )
                &&& final(hw_counter).vector_io_read == old(hw_counter).vector_io_read
                &&& final(hw_counter).vector_io_write == old(hw_counter).vector_io_write
            },
    {
        if self.point_to_doc.is_none() {
            return Ok(());
        }
        if !self.all_known(&document.tokens) {
            return Err(OperationError::BuildFailure);
        }
        if point == u32::MAX || document.tokens.len() > u32::MAX as usize {
            return Err(OperationError::OutOfRange);
        }
        let ghost before = *self;
        let count = document.tokens.len();
        let ghost document_view = document@;
        let mut documents = match self.point_to_doc.take() {
            Some(documents) => documents,
            None => Vec::new(),
        };
        Self::make_room(&mut documents, point);
        documents.set(point as usize, Some(document.tokens));
        self.point_to_doc = Some(documents);
        let bytes = saturating_bytes(count, 4);
        hw_counter.incr_payload_index_io_write(bytes);
        proof {
            let old_view = before@;
            let new_view = self@;
            assert(new_view.vocab == old_view.vocab);
            assert(new_view.postings == old_view.postings);
            assert(new_view.token_sets == old_view.token_sets);
            let kept = new_view.documents->0;
            assert forall|other: int| 0 <= other < kept.len() implies #[trigger] kept[other]
                == if other
                == point {
                Some(document_view)
            } else if other < old_view.documents->0.len() {
                old_view.documents->0[other]
            } else {
                None
            } by {}
            assert forall|other: int| 0 <= other < kept.len() implies (
            #[trigger] kept[other] matches Some(tokens) ==> new_view.known(tokens)
                && tokens.len() <= u32::MAX) by {
                if other != point && other < old_view.documents->0.len() {
                    assert(kept[other] == old_view.documents->0[other]);
                }
            }
            assert forall|other: u32, token: u32| #[trigger]
                new_view.point_has_token(other as int, token) implies new_view.posted(
                token as int,
                other,
            ) by {
                assert(old_view.point_has_token(other as int, token));
                assert(old_view.posted(token as int, other));
            }
            if old_view.consistent() && !old_view.has_point(point as int) {
                assert forall|token: int, other: u32| #[trigger]
                    new_view.posted(token, other) implies new_view.point_has_token(
                    other as int,
                    token as u32,
                ) by {
                    assert(old_view.posted(token, other));
                }
                assert forall|other: int| #[trigger]
                    new_view.has_point(other) implies other < kept.len() && kept[other] is Some
                    && forall|token: u32|
                    new_view.token_sets[other]->0.contains(token) <==> kept[other]->0.contains(
                        token,
                    ) by {
                    assert(old_view.has_point(other));
                }
            }
        }
        Ok(())
    }

    /// Takes `point` out of the index and tells whether it was indexed: the
    /// point leaves the postings of each of its tokens, and its token set and
    /// its document are given up. The vocabulary stays as it is.
    pub fn remove(&mut self, point: PointOffsetType) -> (removed: bool)
        requires
            old(self).wf(),
        ensures
            final(self).wf(),
            removed == old(self)@.has_point(point as int),
            final(self)@.vocab == old(self)@.vocab,
            final(self)@.token_sets.len() == old(self)@.token_sets.len(),
            forall|other: int|
                0 <= other < final(self)@.token_sets.len() ==>
                    #[trigger] final(self)@.token_sets[other] == if other == point {
                    None
                } else {
                    old(self)@.token_sets[other]
                },
            !final(self)@.has_point(point as int),
            forall|token: int, other: u32| #[trigger]
                final(self)@.posted(token, other) <==> old(self)@.posted(token, other) && !(other
                    == point && old(self)@.point_has_token(point as int, token as u32)),
            old(self)@.documents is Some <==> final(self)@.documents is Some,
            final(self)@.documents matches Some(documents) ==> documents.len()
                == old(self)@.documents->0.len() && forall|other: int|
                0 <= other < documents.len() ==> #[trigger] documents[other] == if other == point
                    && removed {
                    None
                } else {
                    old(self)@.documents->0[other]
                },
            old(self)@.consistent() ==> final(self)@.consistent() && forall|token: int|
                !final(self)@.posted(token, point),
    {
        let ghost before = *self;
        let ghost old_view = self@;
        if point as usize >= self.point_to_tokens.len()
            || self.point_to_tokens[point as usize].is_none() {
            proof {
                assert(self@ == old_view);
                if old_view.consistent() {
                    assert forall|token: int| !old_view.posted(token, point) by {
                        if old_view.posted(token, point) {
                            assert(old_view.point_has_token(point as int, token as u32));
                        }
                    }
                }
            }
            return false;
        }
        let tokens = match self.point_to_tokens[point as usize].take() {
            Some(tokens) => tokens,
            None => Vec::new(),
        };
        let ghost set_view = tokens@;
        assert(old_view.token_sets[point as int] == Some(set_view));
        let ghost emptied = self.point_to_tokens@;
        proof {
            assert forall|token: int| 0 <= token < self.postings@.len() implies strictly_ascending(
                #[trigger] self.postings@[token]@,
            ) by {
                assert(old_view.postings[token] == before.postings@[token]@);
            }
        }
        let mut i: usize = 0;
        while i < tokens.len()
            invariant
                i <= tokens@.len(),
                tokens@ == set_view,
                old_view.known(set_view),
                old_view.vocab.len() == before.postings@.len(),
                self.vocab == before.vocab,
                self.tokens == before.tokens,
                self.point_to_tokens@ == emptied,
                self.point_to_doc == before.point_to_doc,
                self.postings@.len() == before.postings@.len(),
                forall|token: int|
                    0 <= token < self.postings@.len() ==> strictly_ascending(
                        #[trigger] self.postings@[token]@,
                    ),
                forall|token: int, other: u32|
                    0 <= token < self.postings@.len() ==>
                        (#[trigger] self.postings@[token]@.contains(
                        other,
                    ) <==> before.postings@[token]@.contains(other) && !(other == point && exists|
                        k: int,
                    |
                        0 <= k < i && set_view[k] == token)),
            decreases tokens.len() - i,
        {
            let token = tokens[i];
            let ghost held = self.postings@;
            assert(set_view[i as int] < old_view.vocab.len());
            remove_sorted(&mut self.postings[token as usize], point);
            proof {
                assert forall|t: int, other: u32|
                    0 <= t < self.postings@.len() implies (#[trigger] self.postings@[t]@.contains(
                    other,
                ) <==> before.postings@[t]@.contains(other) && !(other == point && exists|k: int|
                    0 <= k < i + 1 && set_view[k] == t)) by {
                    assert(held[t]@.contains(other) <==> before.postings@[t]@.contains(other) && !(
                    other == point && exists|k: int| 0 <= k < i && set_view[k] == t));
                    if t == token {
                        assert(set_view[i as int] == t);
                    } else {
                        assert(self.postings@[t] == held[t]);
                        if exists|k: int| 0 <= k < i + 1 && set_view[k] == t {
                            let k = choose|k: int| 0 <= k < i + 1 && set_view[k] == t;
                            assert(k < i);
                        }
                    }
                }
            }
            i += 1;
        }
        match self.point_to_doc.take() {
            Some(mut documents) => {
                if (point as usize) < documents.len() {
                    documents.set(point as usize, None);
                }
                self.point_to_doc = Some(documents);
            },
            None => {},
        }
        proof {
            let new_view = self@;
            assert(new_view.vocab == old_view.vocab);
            assert forall|other: int|
                0 <= other < new_view.token_sets.len() implies #[trigger] new_view.token_sets[other]
                == if other == point {
                None
            } else {
                old_view.token_sets[other]
            } by {}
            assert forall|token: int, other: u32| #[trigger]
                new_view.posted(token, other) <==> old_view.posted(token, other) && !(other
                    == point && old_view.point_has_token(point as int, token as u32)) by {
                if 0 <= token < new_view.postings.len() {
                    assert(new_view.postings[token] == self.postings@[token]@);
                    assert(old_view.postings[token] == before.postings@[token]@);
                    if exists|k: int| 0 <= k < set_view.len() && set_view[k] == token {
                        let k = choose|k: int| 0 <= k < set_view.len() && set_view[k] == token;
                        assert(set_view[k] == token as u32);
                    }
                    if set_view.contains(token as u32) {
                        let k = choose|k: int|
                            0 <= k < set_view.len() && set_view[k] == token as u32;
                        assert(set_view[k] == token);
                    }
                }
            }
            assert forall|token: int|
                0 <= token < new_view.postings.len() implies strictly_ascending(
                #[trigger] new_view.postings[token],
            ) by {
                assert(new_view.postings[token] == self.postings@[token]@);
            }
            assert forall|other: int|
                0 <= other < new_view.token_sets.len() implies (
            #[trigger] new_view.token_sets[other] matches Some(found) ==> strictly_ascending(found)
                && new_view.known(found)) by {
                if other != point {
                    assert(new_view.token_sets[other] == old_view.token_sets[other]);
                }
            }
            assert forall|other: u32, token: u32| #[trigger]
                new_view.point_has_token(other as int, token) implies new_view.posted(
                token as int,
                other,
            ) by {
                assert(old_view.point_has_token(other as int, token));
                assert(old_view.posted(token as int, other));
            }
            if new_view.documents is Some {
                let kept = new_view.documents->0;
                let held = old_view.documents->0;
                assert forall|other: int| 0 <= other < kept.len() implies #[trigger] kept[other]
                    == if other == point {
                    None
                } else {
                    held[other]
                } by {}
                assert forall|other: int| 0 <= other < kept.len() implies (
                #[trigger] kept[other] matches Some(found) ==> new_view.known(found)
                    && found.len() <= u32::MAX) by {
                    if other != point {
                        assert(kept[other] == held[other]);
                    }
                }
            }
            if old_view.consistent() {
                assert forall|token: int, other: u32| #[trigger]
                    new_view.posted(token, other) implies new_view.point_has_token(
                    other as int,
                    token as u32,
                ) by {
                    assert(old_view.posted(token, other));
                    assert(old_view.point_has_token(other as int, token as u32));
                }
                assert forall|token: int| !new_view.posted(token, point) by {
                    if old_view.posted(token, point) {
                        assert(old_view.point_has_token(point as int, token as u32));
                    }
                }
                if new_view.documents is Some {
                    let kept = new_view.documents->0;
                    assert forall|other: int| #[trigger]
                        new_view.has_point(other) implies other < kept.len() && kept[other] is Some
                        && forall|token: u32|
                        new_view.token_sets[other]->0.contains(token) <==> kept[other]->0.contains(
                            token,
                        ) by {
                        assert(old_view.has_point(other));
                    }
                }
            }
        }
        true
    }
}

} // verus!
