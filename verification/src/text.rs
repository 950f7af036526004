//! Text as sequences of characters: search, comparison, and the few
//! operations of the standard library that the catalogue and the tokenizer
//! lean on.

use vstd::prelude::*;

verus! {

/// The lower-case form of a text, as `str::to_lowercase` gives it.
pub uninterp spec fn lowercase_of(s: Seq<char>) -> Seq<char>;

/// `str::to_lowercase`: the lower-case form of `s` by the Unicode tables of
/// the standard library.
#[verifier::external_body]
pub(crate) fn to_lowercase(s: &str) -> (r: String)
    ensures
        r@ == lowercase_of(s@),
{
    s.to_lowercase()
}

/// Whether a character is white space, as `char::is_whitespace` has it.
pub uninterp spec fn is_space(c: char) -> bool;

/// `char::is_whitespace`: whether `c` has the Unicode property White_Space.
#[verifier::external_body]
pub(crate) fn is_whitespace(c: char) -> (r: bool)
    ensures
        r == is_space(c),
{
    c.is_whitespace()
}

/// The words of `s` from position `i` on, given the word `current` begun
/// before `i` and the words `done` finished before it: maximal runs of
/// characters that are not white space.
pub open spec fn split_from(s: Seq<char>, i: int, current: Seq<char>, done: Seq<Seq<char>>) -> Seq<
    Seq<char>,
>
    decreases s.len() - i,
{
    let closed = if current.len() > 0 {
        done.push(current)
    } else {
        done
    };
    if i < 0 || i >= s.len() {
        closed
    } else if is_space(s[i]) {
        split_from(s, i + 1, Seq::empty(), closed)
    } else {
        split_from(s, i + 1, current.push(s[i]), done)
    }
}

/// The words of `s`: its maximal runs of characters that are not white
/// space.
pub open spec fn words_of(s: Seq<char>) -> Seq<Seq<char>> {
    split_from(s, 0, Seq::empty(), Seq::empty())
}

/// The character sequences that a sequence of vectors holds.
pub open spec fn char_views(words: Seq<Vec<char>>) -> Seq<Seq<char>> {
    Seq::new(words.len(), |i: int| words[i]@)
}

/// Splits a text into its words.
pub fn split_words(s: &str) -> (words: Vec<Vec<char>>)
    ensures
        char_views(words@) == words_of(s@),
{
    let chars: Vec<char> = to_chars(s);
    let mut words: Vec<Vec<char>> = Vec::new();
    let mut current: Vec<char> = Vec::new();
    let mut i: usize = 0;
    assert(char_views(words@) =~= Seq::<Seq<char>>::empty());
    while i < chars.len()
        invariant
            0 <= i <= chars@.len(),
            chars@ == s@,
            words_of(s@) == split_from(s@, i as int, current@, char_views(words@)),
        decreases chars@.len() - i,
    {
        let c: char = chars[i];
        if is_whitespace(c) {
            if current.len() > 0 {
                let ghost prior = char_views(words@);
                let ghost word = current@;
                words.push(current);
                assert(char_views(words@) =~= prior.push(word));
                current = Vec::new();
            }
            assert(current@ =~= Seq::<char>::empty());
        } else {
            current.push(c);
        }
        i += 1;
    }
    if current.len() > 0 {
        let ghost prior = char_views(words@);
        let ghost word = current@;
        words.push(current);
        assert(char_views(words@) =~= prior.push(word));
    }
    words
}

/// `s` begins with `prefix`.
pub open spec fn begins_with(s: Seq<char>, prefix: Seq<char>) -> bool {
    prefix.len() <= s.len() && s.subrange(0, prefix.len() as int) == prefix
}

/// Decides whether `s` begins with `prefix`.
pub fn chars_begin_with(s: &[char], prefix: &[char]) -> (r: bool)
    ensures
        r == begins_with(s@, prefix@),
{
    if prefix.len() > s.len() {
        return false;
    }
    found_at(s, prefix, 0)
}

/// The characters of a text.
pub fn to_chars(s: &str) -> (r: Vec<char>)
    ensures
        r@ == s@,
{
    let total: usize = s.unicode_len();
    let mut out: Vec<char> = Vec::new();
    let mut i: usize = 0;
    while i < total
        invariant
            0 <= i <= total,
            total == s@.len(),
            out@ == s@.take(i as int),
        decreases total - i,
    {
        out.push(s.get_char(i));
        assert(s@.take(i + 1) =~= s@.take(i as int).push(s@[i as int]));
        i += 1;
    }
    assert(s@.take(total as int) =~= s@);
    out
}

/// The text that a sequence of characters spells.
pub fn from_chars(chars: &[char]) -> (r: String)
    ensures
        r@ == chars@,
{
    let mut out: String = String::new();
    let mut i: usize = 0;
    while i < chars.len()
        invariant
            0 <= i <= chars@.len(),
            out@ == chars@.take(i as int),
        decreases chars@.len() - i,
    {
        push_char(&mut out, chars[i]);
        assert(chars@.take(i + 1) =~= chars@.take(i as int).push(chars@[i as int]));
        i += 1;
    }
    assert(chars@.take(chars@.len() as int) =~= chars@);
    out
}

/// `String::push`: appends one character.
#[verifier::external_body]
pub(crate) fn push_char(s: &mut String, c: char)
    ensures
        final(s)@ == old(s)@.push(c),
{
    s.push(c)
}

/// Decides whether two texts are the same.
pub fn same_text(a: &str, b: &str) -> (r: bool)
    ensures
        r == (a@ == b@),
{
    let x: Vec<char> = to_chars(a);
    let y: Vec<char> = to_chars(b);
    same_chars(x.as_slice(), y.as_slice())
}

/// Decides whether two sequences of characters are the same.
pub fn same_chars(a: &[char], b: &[char]) -> (r: bool)
    ensures
        r == (a@ == b@),
{
    if a.len() != b.len() {
        return false;
    }
    let mut i: usize = 0;
    while i < a.len()
        invariant
            0 <= i <= a@.len(),
            a@.len() == b@.len(),
            forall|j: int| 0 <= j < i ==> a@[j] == b@[j],
        decreases a@.len() - i,
    {
        if a[i] != b[i] {
            return false;
        }
        i += 1;
    }
    assert(a@ =~= b@);
    true
}

/// `needle` stands in `hay` at position `at`.
pub open spec fn stands_at(hay: Seq<char>, needle: Seq<char>, at: int) -> bool {
    &&& 0 <= at
    &&& at + needle.len() <= hay.len()
    &&& hay.subrange(at, at + needle.len()) == needle
}

/// `needle` stands somewhere in `hay`.
pub open spec fn contains_text(hay: Seq<char>, needle: Seq<char>) -> bool {
    exists|at: int| stands_at(hay, needle, at)
}

/// Decides whether `needle` stands in `hay` at position `at`.
pub fn found_at(hay: &[char], needle: &[char], at: usize) -> (r: bool)
    requires
        at + needle@.len() <= hay@.len(),
    ensures
        r == stands_at(hay@, needle@, at as int),
{
    let total: usize = hay.len();
    let mut j: usize = 0;
    while j < needle.len()
        invariant
            0 <= j <= needle@.len(),
            at + needle@.len() <= hay@.len(),
            hay@.len() == total,
            forall|t: int| 0 <= t < j ==> hay@[at + t] == needle@[t],
        decreases needle@.len() - j,
    {
        if hay[at + j] != needle[j] {
            assert(hay@.subrange(at as int, at + needle@.len())[j as int] == hay@[at + j]);
            return false;
        }
        j += 1;
    }
    assert(hay@.subrange(at as int, at + needle@.len()) =~= needle@);
    true
}

/// Decides whether `needle` stands somewhere in `hay`.
pub fn chars_contain(hay: &[char], needle: &[char]) -> (r: bool)
    ensures
        r == contains_text(hay@, needle@),
{
    if needle.len() > hay.len() {
        return false;
    }
    let last: usize = hay.len() - needle.len();
    let mut at: usize = 0;
    loop
        invariant
            0 <= at <= last,
            last + needle@.len() == hay@.len(),
            forall|p: int| 0 <= p < at ==> !stands_at(hay@, needle@, p),
        decreases last - at,
    {
        if found_at(hay, needle, at) {
            return true;
        }
        if at == last {
            return false;
        }
        at += 1;
    }
}

/// Decides whether the lower-case form of `hay` holds that of `needle`.
pub fn contains_ignoring_case(hay: &str, needle: &str) -> (r: bool)
    ensures
        r == contains_text(lowercase_of(hay@), lowercase_of(needle@)),
{
    let h: String = to_lowercase(hay);
    let n: String = to_lowercase(needle);
    let hc: Vec<char> = to_chars(h.as_str());
    let nc: Vec<char> = to_chars(n.as_str());
    chars_contain(hc.as_slice(), nc.as_slice())
}

/// The position of the first `token` in `vocab`, or the length of `vocab`
/// where it holds none.
pub open spec fn position(vocab: Seq<Seq<char>>, token: Seq<char>) -> int
    decreases vocab.len(),
{
    if vocab.len() == 0 {
        0
    } else if vocab[0] == token {
        0
    } else {
        1 + position(vocab.drop_first(), token)
    }
}


/// The position lies within the sequence or just behind it, and where it
/// lies within, the token stands there and nowhere before.
pub proof fn lemma_position_range(vocab: Seq<Seq<char>>, token: Seq<char>)
    ensures
        0 <= position(vocab, token) <= vocab.len(),
        position(vocab, token) < vocab.len() ==> vocab[position(vocab, token)] == token,
        forall|i: int| 0 <= i < position(vocab, token) ==> #[trigger] vocab[i] != token,
    decreases vocab.len(),
{
    if vocab.len() > 0 && vocab[0] != token {
        let rest = vocab.drop_first();
        lemma_position_range(rest, token);
        assert forall|i: int| 0 <= i < position(vocab, token) implies #[trigger] vocab[i] != token by {
            if i > 0 {
                assert(rest[i - 1] == vocab[i]);
            }
        }
    }
}

/// The first place at which the token stands is its position.
pub proof fn lemma_position_found(vocab: Seq<Seq<char>>, token: Seq<char>, at: int)
    requires
        0 <= at <= vocab.len(),
        forall|i: int| 0 <= i < at ==> #[trigger] vocab[i] != token,
        at < vocab.len() ==> vocab[at] == token,
    ensures
        position(vocab, token) == at,
    decreases vocab.len(),
{
    if vocab.len() > 0 && at > 0 {
        let rest = vocab.drop_first();
        assert(vocab[0] != token);
        assert forall|i: int| 0 <= i < at - 1 implies #[trigger] rest[i] != token by {
            assert(rest[i] == vocab[i + 1]);
        }
        lemma_position_found(rest, token, at - 1);
    }
}


/// A copy of a text.
pub fn copy_text(s: &str) -> (r: String)
    ensures
        r@ == s@,
{
    String::from_str(s)
}

} // verus!
