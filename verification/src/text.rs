//! Characters and strings: what strings hold, and what the standard library
//! knows of characters.

use vstd::prelude::*;
use vstd::std_specs::iter::IteratorSpec;

verus! {

broadcast use vstd::string::group_string_axioms;

/// Whether Unicode classes `c` as a letter or a number.
pub uninterp spec fn char_is_alphanumeric(c: char) -> bool;

/// Whether Unicode classes `c` as white space.
pub uninterp spec fn char_is_whitespace(c: char) -> bool;

/// The lower-case form of `text` under Unicode's case mapping.
pub uninterp spec fn lowercase_of(text: Seq<char>) -> Seq<char>;

/// `char::is_alphanumeric`: whether the character is alphabetic or numeric
/// by the Unicode character database.
#[verifier::external_body]
pub(crate) fn is_alphanumeric(c: char) -> (r: bool)
    ensures
        r == char_is_alphanumeric(c),
{
    c.is_alphanumeric()
}

/// `char::is_whitespace`: whether the character has the Unicode property
/// `White_Space`.
#[verifier::external_body]
pub(crate) fn is_whitespace(c: char) -> (r: bool)
    ensures
        r == char_is_whitespace(c),
{
    c.is_whitespace()
}

/// `str::to_lowercase`: the lower-case equivalent of the string as a new string.
#[verifier::external_body]
pub(crate) fn to_lowercase(text: &str) -> (r: String)
    ensures
        r@ == lowercase_of(text@),
{
    text.to_lowercase()
}

/// `String::push`: appends the character to the end of the string.
#[verifier::external_body]
pub(crate) fn push_char(text: &mut String, c: char)
    ensures
        final(text)@ == old(text)@.push(c),
{
    text.push(c)
}

/// Whether `code` is the number of a character: a Unicode scalar value.
pub open spec fn is_scalar(code: u32) -> bool {
    code <= 0xD7FF || (0xE000 <= code <= 0x10FFFF)
}

/// `char::from_u32`: the character with the number `code`, or nothing where
/// `code` is not a Unicode scalar value.
#[verifier::external_body]
pub(crate) fn char_of_code(code: u32) -> (r: Option<char>)
    ensures
        r == if is_scalar(code) {
            Some(code as char)
        } else {
            None::<char>
        },
{
    char::from_u32(code)
}

/// The numbers of the characters of `text`.
pub open spec fn codes_of(text: Seq<char>) -> Seq<u32> {
    Seq::new(text.len(), |i: int| text[i] as u32)
}

/// The characters with the numbers `codes`.
pub open spec fn chars_with(codes: Seq<u32>) -> Seq<char> {
    Seq::new(codes.len(), |i: int| codes[i] as char)
}

/// Whether each of `codes` is the number of a character.
pub open spec fn all_scalar(codes: Seq<u32>) -> bool {
    forall|i: int| 0 <= i < codes.len() ==> is_scalar(#[trigger] codes[i])
}

/// Characters turned into numbers and back are the same characters.
pub proof fn lemma_codes_round_trip(text: Seq<char>)
    ensures
        all_scalar(codes_of(text)),
        chars_with(codes_of(text)) == text,
{
    assert forall|i: int| 0 <= i < text.len() implies is_scalar(#[trigger] codes_of(text)[i]) && (
    text[i] as u32) as char == text[i] by {
        vstd::utf8::char_is_scalar(text[i]);
        vstd::utf8::char_u32_cast(text[i], text[i] as u32);
    }
    assert(chars_with(codes_of(text)) =~= text);
}

/// The numbers of the characters of `text`.
pub fn to_codes(text: &str) -> (codes: Vec<u32>)
    ensures
        codes@ == codes_of(text@),
{
    let chars = chars_of(text);
    let mut codes: Vec<u32> = Vec::new();
    let mut i: usize = 0;
    while i < chars.len()
        invariant
            i <= chars@.len(),
            codes@ == codes_of(chars@.take(i as int)),
        decreases chars.len() - i,
    {
        codes.push(chars[i] as u32);
        i += 1;
        assert(codes@ =~= codes_of(chars@.take(i as int)));
    }
    assert(chars@.take(i as int) =~= chars@);
    codes
}

/// The string of the characters with the numbers `codes`, where each of
/// them is the number of a character.
pub fn from_codes(codes: &[u32]) -> (text: Option<String>)
    ensures
        text is Some <==> all_scalar(codes@),
        text matches Some(string) ==> string@ == chars_with(codes@),
{
    let mut string = String::new();
    let mut i: usize = 0;
    while i < codes.len()
        invariant
            i <= codes@.len(),
            all_scalar(codes@.take(i as int)),
            string@ == chars_with(codes@.take(i as int)),
        decreases codes.len() - i,
    {
        match char_of_code(codes[i]) {
            Some(c) => {
                push_char(&mut string, c);
            },
            None => {
                assert(!is_scalar(codes@[i as int]));
                return None;
            },
        }
        i += 1;
        assert(string@ =~= chars_with(codes@.take(i as int)));
        assert forall|k: int| 0 <= k < i implies is_scalar(#[trigger] codes@.take(i as int)[k]) by {
            if k < i - 1 {
                assert(codes@.take(i - 1)[k] == codes@[k]);
            }
        }
    }
    assert(codes@.take(i as int) =~= codes@);
    Some(string)
}

/// The character strings in `strings`.
pub open spec fn strings_view(strings: Seq<String>) -> Seq<Seq<char>> {
    Seq::new(strings.len(), |i: int| strings[i]@)
}

/// A copy of `strings`.
pub fn clone_strings(strings: &Vec<String>) -> (r: Vec<String>)
    ensures
        strings_view(r@) == strings_view(strings@),
{
    let mut copy: Vec<String> = Vec::new();
    let mut i: usize = 0;
    while i < strings.len()
        invariant
            i <= strings@.len(),
            copy@.len() == i,
            forall|j: int| 0 <= j < i ==> copy@[j]@ == strings@[j]@,
        decreases strings.len() - i,
    {
        copy.push(strings[i].clone());
        i += 1;
    }
    assert(strings_view(copy@) =~= strings_view(strings@));
    copy
}

/// The characters of `text`.
pub fn chars_of(text: &str) -> (r: Vec<char>)
    ensures
        r@ == text@,
{
    let mut chars: Vec<char> = Vec::new();
    let mut it = text.chars();
    loop
        invariant
            it.obeys_prophetic_iter_laws(),
            it.decrease() is Some,
            chars@ + it.remaining() == text@,
        ensures
            chars@ == text@,
        decreases it.decrease()->0,
    {
        match it.next() {
            Some(c) => {
                chars.push(c);
                assert(chars@ + it.remaining() =~= text@);
            },
            None => {
                assert(chars@ =~= text@);
                break ;
            },
        }
    }
    chars
}

/// The string made of `chars`.
pub fn string_of(chars: &[char]) -> (r: String)
    ensures
        r@ == chars@,
{
    let mut text = String::new();
    let mut i: usize = 0;
    while i < chars.len()
        invariant
            i <= chars@.len(),
            text@ == chars@.take(i as int),
        decreases chars.len() - i,
    {
        push_char(&mut text, chars[i]);
        i += 1;
        assert(text@ =~= chars@.take(i as int));
    }
    assert(chars@.take(i as int) =~= chars@);
    text
}

} // verus!
