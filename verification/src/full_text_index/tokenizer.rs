//! Cutting a text into tokens.
//!
//! A text is cut into words at its separators; each word is brought to lower
//! case where the configuration asks for it, dropped where it is a stop word,
//! and then either kept as one token, if its length is allowed, or given out
//! as its prefixes.

use vstd::prelude::*;
use crate::text::{
    char_is_alphanumeric, char_is_whitespace, chars_of, clone_strings, is_alphanumeric,
    is_whitespace, lowercase_of, string_of, strings_view, to_lowercase,
};

verus! {

/// How a text is cut into words, and what is made of a word.
#[derive(Clone, Copy, Debug, PartialEq, Eq, Structural)]
pub enum TokenizerType {
    /// Words are runs of letters and numbers; every prefix of a word of an
    /// allowed length is a token.
    Prefix,
    /// Words are runs of characters that are not white space.
    Whitespace,
    /// Words are runs of letters and numbers.
    Word,
    /// Words are runs of letters and numbers, in any script.
    Multilingual,
}

/// The configuration of a text index.
#[derive(Clone, Debug, PartialEq, Eq)]
pub struct TextIndexParams {
    pub tokenizer: TokenizerType,
    pub min_token_len: Option<usize>,
    pub max_token_len: Option<usize>,
    /// Whether tokens are brought to lower case; they are where nothing is said.
    pub lowercase: Option<bool>,
    /// Whether the index keeps, for each point, its tokens in their order.
    pub phrase_matching: Option<bool>,
    /// Words that give no token.
    pub stopwords: Vec<String>,
    /// Whether the index is read from its files rather than held in memory.
    pub on_disk: Option<bool>,
}

/// What a tokenizer goes by.
pub struct TokenizerView {
    pub kind: TokenizerType,
    pub min_token_len: Option<usize>,
    pub max_token_len: Option<usize>,
    pub lowercase: bool,
    pub stopwords: Seq<Seq<char>>,
}

/// Whether `c` stands between words.
pub open spec fn is_separator(kind: TokenizerType, c: char) -> bool {
    match kind {
        TokenizerType::Whitespace => char_is_whitespace(c),
        _ => !char_is_alphanumeric(c),
    }
}

/// The word that `text` ends in: its longest end without a separator.
pub open spec fn current_word(kind: TokenizerType, text: Seq<char>) -> Seq<char>
    decreases text.len(),
{
    if text.len() == 0 || is_separator(kind, text.last()) {
        Seq::empty()
    } else {
        current_word(kind, text.drop_last()).push(text.last())
    }
}

/// The words of `text` that a separator has ended, in their order.
pub open spec fn closed_words(kind: TokenizerType, text: Seq<char>) -> Seq<Seq<char>>
    decreases text.len(),
{
    if text.len() == 0 {
        Seq::empty()
    } else if is_separator(kind, text.last()) && current_word(kind, text.drop_last()).len() > 0 {
        closed_words(kind, text.drop_last()).push(current_word(kind, text.drop_last()))
    } else {
        closed_words(kind, text.drop_last())
    }
}

/// The words of `text`: its longest runs of characters that are not separators.
pub open spec fn words(kind: TokenizerType, text: Seq<char>) -> Seq<Seq<char>> {
    if current_word(kind, text).len() > 0 {
        closed_words(kind, text).push(current_word(kind, text))
    } else {
        closed_words(kind, text)
    }
}

/// The prefixes of `word` of `low` to `high` characters, shortest first; the
/// word itself stands for every prefix that would be as long as it or longer.
pub open spec fn prefixes(word: Seq<char>, low: nat, high: nat) -> Seq<Seq<char>> {
    if low > high {
        Seq::empty()
    } else if high < word.len() {
        Seq::new((high - low + 1) as nat, |i: int| word.take(low + i))
    } else if low >= word.len() {
        seq![word]
    } else {
        Seq::new((word.len() - low + 1) as nat, |i: int| word.take(low + i))
    }
}

impl TokenizerView {
    /// The form in which a word is looked at: in lower case where asked for.
    pub open spec fn normalized(self, word: Seq<char>) -> Seq<char> {
        if self.lowercase {
            lowercase_of(word)
        } else {
            word
        }
    }

    /// Whether a token of `len` characters is of an allowed length.
    pub open spec fn length_allowed(self, len: nat) -> bool {
        &&& self.min_token_len matches Some(min) ==> len >= min
        &&& self.max_token_len matches Some(max) ==> len <= max
    }

    /// The tokens that one word gives.
    pub open spec fn emitted(self, word: Seq<char>) -> Seq<Seq<char>> {
        let token = self.normalized(word);
        if self.stopwords.contains(token) {
            Seq::empty()
        } else if self.kind == TokenizerType::Prefix {
            prefixes(
                token,
                match self.min_token_len {
                    Some(min) => min as nat,
                    None => 1,
                },
                match self.max_token_len {
                    Some(max) => max as nat,
                    None => usize::MAX as nat,
                },
            )
        } else if self.length_allowed(token.len()) {
            seq![token]
        } else {
            Seq::empty()
        }
    }

    /// The tokens that the first `count` of `words` give, in their order.
    pub open spec fn emitted_all(self, words: Seq<Seq<char>>, count: nat) -> Seq<Seq<char>>
        decreases count,
    {
        if count == 0 {
            Seq::empty()
        } else {
            self.emitted_all(words, (count - 1) as nat) + self.emitted(words[count - 1])
        }
    }

    /// The tokens of `text`.
    pub open spec fn tokens_of(self, text: Seq<char>) -> Seq<Seq<char>> {
        self.emitted_all(words(self.kind, text), words(self.kind, text).len())
    }
}

/// The first `count` words give the same tokens in every sequence that
/// starts with them.
pub proof fn lemma_emitted_all_prefix(
    view: TokenizerView,
    shorter: Seq<Seq<char>>,
    longer: Seq<Seq<char>>,
    count: nat,
)
    requires
        count <= shorter.len() <= longer.len(),
        forall|i: int| 0 <= i < shorter.len() ==> shorter[i] == longer[i],
    ensures
        view.emitted_all(shorter, count) == view.emitted_all(longer, count),
    decreases count,
{
    if count > 0 {
        lemma_emitted_all_prefix(view, shorter, longer, (count - 1) as nat);
    }
}

/// Cuts texts into tokens by one configuration.
#[derive(Clone, Debug)]
pub struct Tokenizer {
    kind: TokenizerType,
    min_token_len: Option<usize>,
    max_token_len: Option<usize>,
    lowercase: bool,
    stopwords: Vec<String>,
}

impl View for Tokenizer {
    type V = TokenizerView;

    closed spec fn view(&self) -> TokenizerView {
        TokenizerView {
            kind: self.kind,
            min_token_len: self.min_token_len,
            max_token_len: self.max_token_len,
            lowercase: self.lowercase,
            stopwords: strings_view(self.stopwords@),
        }
    }
}

impl Tokenizer {
    /// The tokenizer that `config` describes.
    pub fn new(config: &TextIndexParams) -> (r: Self)
        ensures
            r@ == (TokenizerView {
                kind: config.tokenizer,
                min_token_len: config.min_token_len,
                max_token_len: config.max_token_len,
                lowercase: match config.lowercase {
                    Some(lowercase) => lowercase,
                    None => true,
                },
                stopwords: strings_view(config.stopwords@),
            }),
    {
        Tokenizer {
            kind: config.tokenizer,
            min_token_len: config.min_token_len,
            max_token_len: config.max_token_len,
            lowercase: match config.lowercase {
                Some(lowercase) => lowercase,
                None => true,
            },
            stopwords: clone_strings(&config.stopwords),
        }
    }

    /// A copy of the tokenizer.
    pub fn duplicate(&self) -> (r: Self)
        ensures
            r@ == self@,
    {
        Tokenizer {
            kind: self.kind,
            min_token_len: self.min_token_len,
            max_token_len: self.max_token_len,
            lowercase: self.lowercase,
            stopwords: clone_strings(&self.stopwords),
        }
    }

    /// Whether `c` stands between words.
    fn separates(&self, c: char) -> (r: bool)
        ensures
            r == is_separator(self@.kind, c),
    {
        match self.kind {
            TokenizerType::Whitespace => is_whitespace(c),
            _ => !is_alphanumeric(c),
        }
    }

    /// Whether `token` is a stop word.
    fn is_stopword(&self, token: &String) -> (r: bool)
        ensures
            r == self@.stopwords.contains(token@),
    {
        let mut i: usize = 0;
        while i < self.stopwords.len()
            invariant
                i <= self.stopwords@.len(),
                forall|j: int| 0 <= j < i ==> self.stopwords@[j]@ != token@,
            decreases self.stopwords.len() - i,
        {
            if self.stopwords[i] == *token {
                assert(strings_view(self.stopwords@)[i as int] == token@);
                return true;
            }
            i += 1;
        }
        false
    }

    /// Appends the tokens that `word` gives to `tokens`.
    fn emit(&self, word: &Vec<char>, tokens: &mut Vec<String>)
        ensures
            strings_view(final(tokens)@) == strings_view(old(tokens)@) + self@.emitted(word@),
    {
        let plain = string_of(word.as_slice());
        let token = if self.lowercase {
            to_lowercase(plain.as_str())
        } else {
            plain
        };
        assert(token@ == self@.normalized(word@));
        if self.is_stopword(&token) {
            assert(strings_view(tokens@) + Seq::<Seq<char>>::empty() =~= strings_view(tokens@));
            return ;
        }
        match self.kind {
            TokenizerType::Prefix => {
                let chars = chars_of(token.as_str());
                let low: usize = match self.min_token_len {
                    Some(min) => min,
                    None => 1,
                };
                let high: usize = match self.max_token_len {
                    Some(max) => max,
                    None => usize::MAX,
                };
                let ghost expected = prefixes(token@, low as nat, high as nat);
                let ghost before = strings_view(tokens@);
                if low > high {
                    assert(before + expected =~= before);
                    return ;
                }
                let mut n: usize = low;
                while n < chars.len() && n <= high
                    invariant
                        low <= n,
                        low <= high,
                        n <= chars@.len() || n == low,
                        chars@ == token@,
                        expected == prefixes(token@, low as nat, high as nat),
                        n - low <= expected.len(),
                        strings_view(tokens@) == before + expected.take(n - low),
                    decreases chars.len() - n,
                {
                    let prefix = string_of(vstd::slice::slice_subrange(chars.as_slice(), 0, n));
                    let ghost held = tokens@;
                    tokens.push(prefix);
                    proof {
                        assert(n - low < expected.len());
                        assert(expected[n - low] == token@.take(n as int));
                        assert(chars@.subrange(0, n as int) =~= token@.take(n as int));
                        assert(expected.take(n + 1 - low) =~= expected.take(n - low).push(
                            expected[n - low],
                        ));
                        assert(strings_view(tokens@) =~= strings_view(held).push(prefix@));
                        assert(strings_view(tokens@) =~= before + expected.take(n + 1 - low));
                    }
                    n += 1;
                }
                if n <= high {
                    let ghost held = tokens@;
                    let ghost whole = token@;
                    tokens.push(token);
                    proof {
                        assert(whole.take(whole.len() as int) =~= whole);
                        assert(expected.len() == n - low + 1);
                        assert(expected[n - low] == whole);
                        assert(expected =~= expected.take(n - low).push(whole));
                        assert(strings_view(tokens@) =~= strings_view(held).push(whole));
                        assert(strings_view(tokens@) =~= before + expected);
                    }
                } else {
                    assert(expected.take(n - low) =~= expected);
                }
            },
            _ => {
                let len = token.as_str().unicode_len();
                let long_enough = match self.min_token_len {
                    Some(min) => len >= min,
                    None => true,
                };
                let short_enough = match self.max_token_len {
                    Some(max) => len <= max,
                    None => true,
                };
                let ghost before = strings_view(tokens@);
                if long_enough && short_enough {
                    tokens.push(token);
                    assert(strings_view(tokens@) =~= before + seq![self@.normalized(word@)]);
                } else {
                    assert(before + Seq::<Seq<char>>::empty() =~= before);
                }
            },
        }
    }

    /// Appends the tokens of `text` to `tokens`.
    pub fn tokenize_doc(&self, text: &str, tokens: &mut Vec<String>)
        ensures
            strings_view(final(tokens)@) == strings_view(old(tokens)@) + self@.tokens_of(text@),
    {
        let chars = chars_of(text);
        let ghost kind = self@.kind;
        let ghost before = strings_view(tokens@);
        let mut current: Vec<char> = Vec::new();
        let mut i: usize = 0;
        assert(before + Seq::<Seq<char>>::empty() =~= before);
        while i < chars.len()
            invariant
                i <= chars@.len(),
                kind == self@.kind,
                current@ == current_word(kind, chars@.take(i as int)),
                strings_view(tokens@) == before + self@.emitted_all(
                    closed_words(kind, chars@.take(i as int)),
                    closed_words(kind, chars@.take(i as int)).len(),
                ),
            decreases chars.len() - i,
        {
            let c = chars[i];
            let ghost shorter = chars@.take(i as int);
            let ghost longer = chars@.take(i + 1);
            assert(longer.drop_last() =~= shorter);
            assert(longer.last() == c);
            if self.separates(c) {
                if current.len() > 0 {
                    self.emit(&current, tokens);
                    proof {
                        let closed = closed_words(kind, longer);
                        lemma_emitted_all_prefix(
                            self@,
                            closed_words(kind, shorter),
                            closed,
                            closed_words(kind, shorter).len(),
                        );
                        assert(strings_view(tokens@) =~= before + self@.emitted_all(
                            closed,
                            closed.len(),
                        ));
                    }
                }
                current = Vec::new();
            } else {
                current.push(c);
            }
            i += 1;
        }
        assert(chars@.take(i as int) =~= chars@);
        if current.len() > 0 {
            self.emit(&current, tokens);
            proof {
                let all = words(kind, chars@);
                lemma_emitted_all_prefix(
                    self@,
                    closed_words(kind, chars@),
                    all,
                    closed_words(kind, chars@).len(),
                );
                assert(strings_view(tokens@) =~= before + self@.emitted_all(all, all.len()));
            }
        }
    }
}

} // verus!
