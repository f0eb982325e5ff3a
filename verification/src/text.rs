//! Text helpers: comparison of names, and the derivation of generated names.

use vstd::prelude::*;
use vstd::string::*;

verus! {

/// Whether `c` is an uppercase character as Unicode classes it.
pub uninterp spec fn char_is_uppercase(c: char) -> bool;

/// The lowercase mapping of `c` as Unicode defines it: one character or more.
pub uninterp spec fn char_lowercase(c: char) -> Seq<char>;

/// Calls `char::is_uppercase`. The contract only gives the answer its name,
/// `char_is_uppercase`: which characters are uppercase is left to the
/// standard library's Unicode tables.
#[verifier::external_body]
fn is_uppercase(c: char) -> (r: bool)
    ensures
        r == char_is_uppercase(c),
{
    c.is_uppercase()
}

/// Calls `char::to_lowercase` and collects what it yields. The contract names
/// the mapping `char_lowercase` and states what the standard library
/// documents of every character: the mapping holds at least one character.
#[verifier::external_body]
fn lowercase(c: char) -> (r: Vec<char>)
    ensures
        r@ == char_lowercase(c),
        r@.len() >= 1,
{
    c.to_lowercase().collect()
}

/// Calls `String::push`: the character is appended at the end.
#[verifier::external_body]
fn push_char(s: &mut String, c: char)
    ensures
        final(s)@ == old(s)@.push(c),
{
    s.push(c)
}

/// One character of a name, as word splitting sees it: whether it opens a new
/// word, and the character that stands for it in the result.
#[derive(Clone, Copy, Debug, PartialEq, Eq)]
pub struct Letter {
    pub opens_word: bool,
    pub lower: char,
}

/// The letters joined into one lower-case name, with `_` before each letter
/// that opens a word, except at the very start.
pub open spec fn delimited(letters: Seq<Letter>) -> Seq<char>
    decreases letters.len(),
{
    if letters.len() == 0 {
        Seq::empty()
    } else {
        let init = delimited(letters.drop_last());
        let l = letters.last();
        if l.opens_word && letters.len() > 1 {
            init.push('_').push(l.lower)
        } else {
            init.push(l.lower)
        }
    }
}

/// How word splitting sees one character: an uppercase character opens a
/// word, and is written as the first character of its lowercase mapping.
pub open spec fn letter_of(c: char) -> Letter {
    Letter { opens_word: char_is_uppercase(c), lower: char_lowercase(c)[0] }
}

/// How word splitting sees each character of `s`.
pub open spec fn letters_of(s: Seq<char>) -> Seq<Letter> {
    Seq::new(s.len(), |i: int| letter_of(s[i]))
}

/// Joins classified letters into a snake-case name.
pub fn join_letters(letters: &Vec<Letter>) -> (r: String)
    ensures
        r@ == delimited(letters@),
{
    let mut out = String::new();
    let mut i: usize = 0;
    while i < letters.len()
        invariant
            i <= letters.len(),
            out@ == delimited(letters@.take(i as int)),
        decreases letters.len() - i,
    {
        let l = &letters[i];
        proof {
            let next = letters@.take(i + 1);
            assert(next.drop_last() == letters@.take(i as int));
            assert(next.last() == letters@[i as int]);
        }
        if l.opens_word && i != 0 {
            push_char(&mut out, '_');
        }
        push_char(&mut out, l.lower);
        i += 1;
    }
    proof {
        assert(letters@.take(letters.len() as int) == letters@);
    }
    out
}

/// The snake-case form of a name: each character is written as the first
/// character of its lowercase mapping, with `_` before it where the character
/// was uppercase, except at the start.
pub fn to_snake_case(s: &str) -> (r: String)
    ensures
        r@ == delimited(letters_of(s@)),
{
    let n = s.unicode_len();
    let mut letters: Vec<Letter> = Vec::new();
    let mut i: usize = 0;
    while i < n
        invariant
            n == s@.len(),
            i <= n,
            letters@ =~= letters_of(s@).take(i as int),
        decreases n - i,
    {
        let c = s.get_char(i);
        let low = lowercase(c);
        let letter = Letter { opens_word: is_uppercase(c), lower: low[0] };
        assert(letter == letter_of(s@[i as int]));
        letters.push(letter);
        i += 1;
    }
    proof {
        assert(letters_of(s@).take(n as int) =~= letters_of(s@));
    }
    join_letters(&letters)
}

/// Whether `s` reads exactly as `word`.
pub fn is_word(s: &String, word: &str) -> (r: bool)
    ensures
        r == (s@ == word@),
{
    let w = String::from_str(word);
    *s == w
}

/// `stem` followed by `suffix`, as a new string.
pub fn with_suffix(stem: &String, suffix: &str) -> (r: String)
    ensures
        r@ == stem@ + suffix@,
{
    let mut out = stem.clone();
    out.append(suffix);
    out
}

/// The view of each text of a list.
pub open spec fn texts_view(texts: Seq<String>) -> Seq<Seq<char>> {
    Seq::new(texts.len(), |i: int| texts[i]@)
}

/// A copy of a list of texts.
pub fn clone_texts(texts: &Vec<String>) -> (r: Vec<String>)
    ensures
        texts_view(r@) == texts_view(texts@),
{
    let mut out: Vec<String> = Vec::new();
    let mut i: usize = 0;
    while i < texts.len()
        invariant
            i <= texts.len(),
            out@.len() == i,
            forall|j: int| 0 <= j < i ==> out@[j]@ == texts@[j]@,
        decreases texts.len() - i,
    {
        out.push(texts[i].clone());
        i += 1;
    }
    assert(texts_view(out@) =~= texts_view(texts@));
    out
}

} // verus!
