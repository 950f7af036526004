//! The subword tokenizer: a vocabulary of tokens numbered in the order of
//! entry, greedy longest-match splitting of words into known pieces, and
//! the way back from token ids to text.

use vstd::prelude::*;
use crate::text::{
    begins_with, char_views, chars_begin_with, from_chars, lemma_position_found,
    lemma_position_range, position, same_chars, split_words, to_chars, words_of,
};

verus! {

/// The id of the padding token.
pub const PAD_ID: i64 = 0;

/// The id of the token that begins a sequence.
pub const BOS_ID: i64 = 1;

/// The id of the token that ends a sequence.
pub const EOS_ID: i64 = 2;

/// The id of the token that stands for an unknown piece.
pub const UNK_ID: i64 = 3;

/// The tokens with a fixed meaning.
#[derive(Debug, Clone)]
pub struct SpecialTokens {
    pub pad: String,
    pub bos: String,
    pub eos: String,
    pub unk: String,
}

impl Default for SpecialTokens {
    fn default() -> (r: Self)
        ensures
            r.pad@ == "<PAD>"@,
            r.bos@ == "<BOS>"@,
            r.eos@ == "<EOS>"@,
            r.unk@ == "<UNK>"@,
    {
        SpecialTokens {
            pad: String::from_str("<PAD>"),
            bos: String::from_str("<BOS>"),
            eos: String::from_str("<EOS>"),
            unk: String::from_str("<UNK>"),
        }
    }
}

/// The mark at the front of a piece that continues a word: `##`.
pub open spec fn marker() -> Seq<char> {
    seq!['#', '#']
}

/// `token` is in `vocab`.
pub open spec fn knows(vocab: Seq<Seq<char>>, token: Seq<char>) -> bool {
    position(vocab, token) < vocab.len()
}

/// The id of `token`: its position in `vocab`, or the id of the unknown
/// token where it is not in it.
pub open spec fn id_or_unknown(vocab: Seq<Seq<char>>, token: Seq<char>) -> i64 {
    if knows(vocab, token) {
        position(vocab, token) as i64
    } else {
        UNK_ID
    }
}

/// The piece that the characters `start..end` of `word` make: themselves
/// at the front of the word, and marked as a continuation elsewhere.
pub open spec fn piece(word: Seq<char>, start: int, end: int) -> Seq<char> {
    if start == 0 {
        word.subrange(0, end)
    } else {
        marker() + word.subrange(start, end)
    }
}

/// The largest end, at most `end`, at which the piece from `start` is in
/// `vocab`; `start` where there is none.
pub open spec fn match_end(vocab: Seq<Seq<char>>, word: Seq<char>, start: int, end: int) -> int
    decreases end - start,
{
    if end <= start {
        start
    } else if knows(vocab, piece(word, start, end)) {
        end
    } else {
        match_end(vocab, word, start, end - 1)
    }
}

/// Where the piece that begins at `start` ends: at the longest match, or
/// after one character where nothing matches.
pub open spec fn piece_end(vocab: Seq<Seq<char>>, word: Seq<char>, start: int) -> int {
    let e = match_end(vocab, word, start, word.len() as int);
    if start < e <= word.len() {
        e
    } else {
        start + 1
    }
}

/// The pieces of `word` from `start` on, each the longest that the
/// vocabulary knows.
pub open spec fn subwords_from(vocab: Seq<Seq<char>>, word: Seq<char>, start: int) -> Seq<Seq<char>>
    decreases word.len() - start,
{
    if start < 0 || start >= word.len() {
        Seq::empty()
    } else {
        let e = match_end(vocab, word, start, word.len() as int);
        let stop = if start < e <= word.len() {
            e
        } else {
            start + 1
        };
        seq![piece(word, start, stop)] + subwords_from(vocab, word, stop)
    }
}

/// The pieces of `word`.
pub open spec fn subwords(vocab: Seq<Seq<char>>, word: Seq<char>) -> Seq<Seq<char>> {
    subwords_from(vocab, word, 0)
}

/// The ids of `pieces`.
pub open spec fn ids_of(vocab: Seq<Seq<char>>, pieces: Seq<Seq<char>>) -> Seq<i64> {
    Seq::new(pieces.len(), |i: int| id_or_unknown(vocab, pieces[i]))
}

/// The ids of the pieces of `words`, word after word.
pub open spec fn words_ids(vocab: Seq<Seq<char>>, words: Seq<Seq<char>>) -> Seq<i64>
    decreases words.len(),
{
    if words.len() == 0 {
        Seq::empty()
    } else {
        words_ids(vocab, words.drop_last()) + ids_of(vocab, subwords(vocab, words.last()))
    }
}

/// The token ids of `text`: the beginning token, the ids of the pieces of
/// its words, and the end token.
pub open spec fn tokenized(vocab: Seq<Seq<char>>, text: Seq<char>) -> Seq<i64> {
    seq![BOS_ID] + words_ids(vocab, words_of(text)) + seq![EOS_ID]
}

/// The id frames a sequence and spells nothing.
pub open spec fn is_framing(id: i64) -> bool {
    id == PAD_ID || id == BOS_ID || id == EOS_ID
}

/// The token that `id` names: the unknown token where `id` names none.
pub open spec fn token_text(vocab: Seq<Seq<char>>, id: i64) -> Seq<char> {
    if 0 <= id < vocab.len() {
        vocab[id as int]
    } else {
        vocab[UNK_ID as int]
    }
}

/// `t` without the continuation marks at its front.
pub open spec fn strip_markers(t: Seq<char>) -> Seq<char>
    decreases t.len(),
{
    if begins_with(t, marker()) {
        strip_markers(t.skip(2))
    } else {
        t
    }
}

/// Some id of `ids` spells something.
pub open spec fn has_visible(ids: Seq<i64>) -> bool
    decreases ids.len(),
{
    if ids.len() == 0 {
        false
    } else {
        has_visible(ids.drop_last()) || !is_framing(ids.last())
    }
}

/// The text that `ids` spell: the tokens without their marks, with a space
/// before each that begins a word, the first aside; framing ids spell
/// nothing.
pub open spec fn detokenized(vocab: Seq<Seq<char>>, ids: Seq<i64>) -> Seq<char>
    decreases ids.len(),
{
    if ids.len() == 0 {
        Seq::empty()
    } else {
        let before = detokenized(vocab, ids.drop_last());
        let id = ids.last();
        if is_framing(id) {
            before
        } else {
            let t = token_text(vocab, id);
            let gap = if has_visible(ids.drop_last()) && !begins_with(t, marker()) {
                seq![' ']
            } else {
                Seq::<char>::empty()
            };
            before + gap + strip_markers(t)
        }
    }
}

/// How often `token` stands in `pieces`.
pub open spec fn occurrences(pieces: Seq<Seq<char>>, token: Seq<char>) -> int
    decreases pieces.len(),
{
    if pieces.len() == 0 {
        0
    } else {
        occurrences(pieces.drop_last(), token) + if pieces.last() == token {
            1int
        } else {
            0int
        }
    }
}

/// The vocabulary after training on `pieces` from position `k` on: each
/// piece that stands at least `min_freq` times among all pieces enters the
/// vocabulary where it first stands, unless the vocabulary knows it or is
/// full.
pub open spec fn trained_from(
    vocab: Seq<Seq<char>>,
    pieces: Seq<Seq<char>>,
    k: int,
    min_freq: usize,
) -> Seq<Seq<char>>
    decreases pieces.len() - k,
{
    if k < 0 || k >= pieces.len() {
        vocab
    } else if occurrences(pieces, pieces[k]) >= min_freq && !knows(vocab, pieces[k]) && vocab.len()
        < i64::MAX {
        trained_from(vocab.push(pieces[k]), pieces, k + 1, min_freq)
    } else {
        trained_from(vocab, pieces, k + 1, min_freq)
    }
}

/// The pieces of the words of `texts`, text after text.
pub open spec fn pieces_of(vocab: Seq<Seq<char>>, texts: Seq<String>) -> Seq<Seq<char>>
    decreases texts.len(),
{
    if texts.len() == 0 {
        Seq::empty()
    } else {
        pieces_of(vocab, texts.drop_last()) + words_pieces(vocab, words_of(texts.last()@))
    }
}

/// The pieces of `words`, word after word.
pub open spec fn words_pieces(vocab: Seq<Seq<char>>, words: Seq<Seq<char>>) -> Seq<Seq<char>>
    decreases words.len(),
{
    if words.len() == 0 {
        Seq::empty()
    } else {
        words_pieces(vocab, words.drop_last()) + subwords(vocab, words.last())
    }
}

/// The special tokens stand at the front of `vocab`, each at its id.
pub open spec fn starts_with_specials(vocab: Seq<Seq<char>>) -> bool {
    &&& vocab.len() >= 4
    &&& vocab[PAD_ID as int] == "<PAD>"@
    &&& vocab[BOS_ID as int] == "<BOS>"@
    &&& vocab[EOS_ID as int] == "<EOS>"@
    &&& vocab[UNK_ID as int] == "<UNK>"@
}

/// No token stands twice in `vocab`.
pub open spec fn all_distinct(vocab: Seq<Seq<char>>) -> bool {
    forall|i: int, j: int| 0 <= i < j < vocab.len() ==> #[trigger] vocab[i] != #[trigger] vocab[j]
}

proof fn lemma_match_end_range(vocab: Seq<Seq<char>>, word: Seq<char>, start: int, end: int)
    requires
        start <= end,
    ensures
        start <= match_end(vocab, word, start, end) <= end,
    decreases end - start,
{
    if end > start && !knows(vocab, piece(word, start, end)) {
        lemma_match_end_range(vocab, word, start, end - 1);
    }
}

/// The tokenizer.
#[derive(Debug, Clone)]
pub struct Tokenizer {
    tokens: Vec<Vec<char>>,
    special_tokens: SpecialTokens,
}

impl Tokenizer {
    /// The vocabulary: the tokens in the order of their ids.
    pub closed spec fn vocabulary(&self) -> Seq<Seq<char>> {
        char_views(self.tokens@)
    }

    /// The tokenizer's invariant: the special tokens stand at their ids, no
    /// token stands twice, and every position is an id.
    pub closed spec fn well_formed(&self) -> bool {
        &&& starts_with_specials(self.vocabulary())
        &&& all_distinct(self.vocabulary())
        &&& self.tokens@.len() <= i64::MAX
    }

    /// What the tokenizer's invariant says of its vocabulary.
    pub proof fn lemma_well_formed(&self)
        requires
            self.well_formed(),
        ensures
            starts_with_specials(self.vocabulary()),
            all_distinct(self.vocabulary()),
            self.vocabulary().len() <= i64::MAX,
    {
    }

    fn find(&self, token: &[char]) -> (at: usize)
        ensures
            at == position(self.vocabulary(), token@),
            at <= self.tokens@.len(),
    {
        let mut at: usize = 0;
        while at < self.tokens.len() && !same_chars(self.tokens[at].as_slice(), token)
            invariant
                0 <= at <= self.tokens@.len(),
                forall|i: int| 0 <= i < at ==> #[trigger] self.vocabulary()[i] != token@,
            decreases self.tokens@.len() - at,
        {
            at += 1;
        }
        proof {
            lemma_position_found(self.vocabulary(), token@, at as int);
        }
        at
    }

    fn enter(&mut self, token: &[char]) -> (id: i64)
        requires
            old(self).well_formed(),
            knows(old(self).vocabulary(), token@) || old(self).vocabulary().len() < i64::MAX,
        ensures
            final(self).well_formed(),
            id == position(old(self).vocabulary(), token@),
            knows(old(self).vocabulary(), token@) ==> final(self).vocabulary() == old(
                self,
            ).vocabulary(),
            !knows(old(self).vocabulary(), token@) ==> final(self).vocabulary() == old(
                self,
            ).vocabulary().push(token@),
    {
        let at: usize = self.find(token);
        if at >= self.tokens.len() {
            let ghost before = self.vocabulary();
            proof {
                lemma_position_range(before, token@);
            }
            let mut copy: Vec<char> = Vec::new();
            let mut i: usize = 0;
            while i < token.len()
                invariant
                    0 <= i <= token@.len(),
                    copy@ == token@.take(i as int),
                decreases token@.len() - i,
            {
                copy.push(token[i]);
                assert(token@.take(i + 1) =~= token@.take(i as int).push(token@[i as int]));
                i += 1;
            }
            assert(token@.take(token@.len() as int) =~= token@);
            self.tokens.push(copy);
            assert(self.vocabulary() =~= before.push(token@));
        }
        at as i64
    }

    /// A tokenizer that knows the four special tokens.
    pub fn new() -> (t: Self)
        ensures
            t.well_formed(),
            t.vocabulary() == seq!["<PAD>"@, "<BOS>"@, "<EOS>"@, "<UNK>"@],
    {
        let special_tokens = SpecialTokens::default();
        let mut tokens: Vec<Vec<char>> = Vec::new();
        tokens.push(to_chars(special_tokens.pad.as_str()));
        tokens.push(to_chars(special_tokens.bos.as_str()));
        tokens.push(to_chars(special_tokens.eos.as_str()));
        tokens.push(to_chars(special_tokens.unk.as_str()));
        let t = Tokenizer { tokens, special_tokens };
        proof {
            reveal_strlit("<PAD>");
            reveal_strlit("<BOS>");
            reveal_strlit("<EOS>");
            reveal_strlit("<UNK>");
            assert(t.vocabulary() =~= seq!["<PAD>"@, "<BOS>"@, "<EOS>"@, "<UNK>"@]);
            assert("<PAD>"@[1] == 'P');
            assert("<BOS>"@[1] == 'B');
            assert("<EOS>"@[1] == 'E');
            assert("<UNK>"@[1] == 'U');
        }
        t
    }

    /// The number of tokens in the vocabulary.
    pub fn vocab_size(&self) -> (n: usize)
        ensures
            n == self.vocabulary().len(),
    {
        self.tokens.len()
    }

    /// Enters `token` into the vocabulary, unless it is there, and returns
    /// its id.
    pub fn add_token(&mut self, token: &str) -> (id: i64)
        requires
            old(self).well_formed(),
            knows(old(self).vocabulary(), token@) || old(self).vocabulary().len() < i64::MAX,
        ensures
            final(self).well_formed(),
            id == position(old(self).vocabulary(), token@),
            knows(old(self).vocabulary(), token@) ==> final(self).vocabulary() == old(
                self,
            ).vocabulary(),
            !knows(old(self).vocabulary(), token@) ==> final(self).vocabulary() == old(
                self,
            ).vocabulary().push(token@),
    {
        let chars: Vec<char> = to_chars(token);
        self.enter(chars.as_slice())
    }

    /// The token that `id` names, if it names one.
    pub fn token(&self, id: i64) -> (r: Option<String>)
        ensures
            match r {
                Some(t) => 0 <= id < self.vocabulary().len() && t@ == self.vocabulary()[id as int],
                None => !(0 <= id < self.vocabulary().len()),
            },
    {
        if 0 <= id && (id as u64) < (self.tokens.len() as u64) {
            let at: usize = id as usize;
            assert(self.vocabulary()[at as int] == self.tokens@[at as int]@);
            Some(from_chars(self.tokens[at].as_slice()))
        } else {
            None
        }
    }

    /// The id of `token`, if the vocabulary knows it.
    pub fn token_id(&self, token: &str) -> (r: Option<i64>)
        requires
            self.well_formed(),
        ensures
            match r {
                Some(id) => knows(self.vocabulary(), token@) && id == position(
                    self.vocabulary(),
                    token@,
                ),
                None => !knows(self.vocabulary(), token@),
            },
    {
        let chars: Vec<char> = to_chars(token);
        let at: usize = self.find(chars.as_slice());
        if at < self.tokens.len() {
            Some(at as i64)
        } else {
            None
        }
    }

    fn make_piece(word: &[char], start: usize, end: usize) -> (p: Vec<char>)
        requires
            start <= end <= word@.len(),
        ensures
            p@ == piece(word@, start as int, end as int),
    {
        let mut p: Vec<char> = Vec::new();
        if start > 0 {
            p.push('#');
            p.push('#');
        }
        let ghost head = p@;
        let mut i: usize = start;
        while i < end
            invariant
                start <= i <= end,
                end <= word@.len(),
                p@ == head + word@.subrange(start as int, i as int),
            decreases end - i,
        {
            p.push(word[i]);
            assert(word@.subrange(start as int, i + 1) =~= word@.subrange(start as int, i as int).push(
                word@[i as int],
            ));
            assert(head + word@.subrange(start as int, i + 1) =~= (head + word@.subrange(
                start as int,
                i as int,
            )).push(word@[i as int]));
            i += 1;
        }
        proof {
            if start > 0 {
                assert(head =~= marker());
            } else {
                assert(head + word@.subrange(0, end as int) =~= word@.subrange(0, end as int));
            }
        }
        p
    }

    fn split_chars(&self, word: &[char]) -> (pieces: Vec<Vec<char>>)
        ensures
            char_views(pieces@) == subwords(self.vocabulary(), word@),
    {
        let ghost vocab = self.vocabulary();
        let total: usize = word.len();
        let mut pieces: Vec<Vec<char>> = Vec::new();
        let mut start: usize = 0;
        assert(char_views(pieces@) =~= Seq::<Seq<char>>::empty());
        while start < total
            invariant
                0 <= start <= total,
                total == word@.len(),
                vocab == self.vocabulary(),
                subwords(vocab, word@) == char_views(pieces@) + subwords_from(
                    vocab,
                    word@,
                    start as int,
                ),
            decreases total - start,
        {
            let mut end: usize = total;
            let mut found: Option<Vec<char>> = None;
            while end > start && found.is_none()
                invariant
                    start <= end <= total,
                    total == word@.len(),
                    vocab == self.vocabulary(),
                    match found {
                        Some(p) => end > start && p@ == piece(word@, start as int, end as int)
                            && match_end(vocab, word@, start as int, total as int) == end,
                        None => match_end(vocab, word@, start as int, total as int) == match_end(
                            vocab,
                            word@,
                            start as int,
                            end as int,
                        ),
                    },
                decreases end - start, if found.is_none() { 1int } else { 0int },
            {
                let candidate: Vec<char> = Self::make_piece(word, start, end);
                let at: usize = self.find(candidate.as_slice());
                if at < self.tokens.len() {
                    found = Some(candidate);
                } else {
                    end -= 1;
                }
            }
            let ghost prior = char_views(pieces@);
            let next: Vec<char> = match found {
                Some(p) => p,
                None => {
                    end = start + 1;
                    Self::make_piece(word, start, end)
                },
            };
            let ghost shown = next@;
            pieces.push(next);
            proof {
                lemma_match_end_range(vocab, word@, start as int, total as int);
                assert(end == piece_end(vocab, word@, start as int));
                assert(char_views(pieces@) =~= prior.push(shown));
                assert(prior + (seq![shown] + subwords_from(vocab, word@, end as int)) =~= prior.push(
                    shown,
                ) + subwords_from(vocab, word@, end as int));
            }
            start = end;
        }
        assert(char_views(pieces@) + Seq::<Seq<char>>::empty() =~= char_views(pieces@));
        pieces
    }

    /// Splits `word` into pieces, each the longest that the vocabulary
    /// knows; what no piece covers goes character by character.
    pub fn split_to_subwords(&self, word: &str) -> (pieces: Vec<String>)
        ensures
            pieces@.len() == subwords(self.vocabulary(), word@).len(),
            forall|i: int|
                0 <= i < pieces@.len() ==> (#[trigger] pieces@[i])@ == subwords(
                    self.vocabulary(),
                    word@,
                )[i],
    {
        let chars: Vec<char> = to_chars(word);
        let split: Vec<Vec<char>> = self.split_chars(chars.as_slice());
        let mut pieces: Vec<String> = Vec::new();
        let mut i: usize = 0;
        while i < split.len()
            invariant
                0 <= i <= split@.len(),
                pieces@.len() == i,
                forall|t: int| 0 <= t < i ==> (#[trigger] pieces@[t])@ == split@[t]@,
            decreases split@.len() - i,
        {
            pieces.push(from_chars(split[i].as_slice()));
            i += 1;
        }
        assert forall|t: int| 0 <= t < pieces@.len() implies (#[trigger] pieces@[t])@ == subwords(
            self.vocabulary(),
            word@,
        )[t] by {
            assert(char_views(split@)[t] == split@[t]@);
        }
        pieces
    }

    /// The token ids of `text`: the beginning token, then for each word
    /// the ids of its pieces, then the end token.
    pub fn tokenize(&self, text: &str) -> (ids: Vec<i64>)
        requires
            self.well_formed(),
        ensures
            ids@ == tokenized(self.vocabulary(), text@),
    {
        let ghost vocab = self.vocabulary();
        let words: Vec<Vec<char>> = split_words(text);
        let mut ids: Vec<i64> = Vec::new();
        ids.push(BOS_ID);
        let mut w: usize = 0;
        assert(char_views(words@).take(0) =~= Seq::<Seq<char>>::empty());
        assert(ids@ =~= seq![BOS_ID] + words_ids(vocab, char_views(words@).take(0)));
        while w < words.len()
            invariant
                0 <= w <= words@.len(),
                vocab == self.vocabulary(),
                self.well_formed(),
                ids@ == seq![BOS_ID] + words_ids(vocab, char_views(words@).take(w as int)),
            decreases words@.len() - w,
        {
            let pieces: Vec<Vec<char>> = self.split_chars(words[w].as_slice());
            let ghost before = ids@;
            let mut p: usize = 0;
            while p < pieces.len()
                invariant
                    0 <= p <= pieces@.len(),
                    vocab == self.vocabulary(),
                    self.well_formed(),
                    ids@ == before + ids_of(vocab, char_views(pieces@)).take(p as int),
                decreases pieces@.len() - p,
            {
                let at: usize = self.find(pieces[p].as_slice());
                let id: i64 = if at < self.tokens.len() {
                    at as i64
                } else {
                    UNK_ID
                };
                ids.push(id);
                proof {
                    let all = ids_of(vocab, char_views(pieces@));
                    assert(char_views(pieces@)[p as int] == pieces@[p as int]@);
                    assert(all.take(p + 1) =~= all.take(p as int).push(all[p as int]));
                    assert(before + all.take(p + 1) =~= (before + all.take(p as int)).push(id));
                }
                p += 1;
            }
            proof {
                let all = ids_of(vocab, char_views(pieces@));
                assert(all.take(pieces@.len() as int) =~= all);
                let views = char_views(words@);
                assert(views.take(w + 1).drop_last() =~= views.take(w as int));
                assert(views.take(w + 1).last() == words@[w as int]@);
                assert(seq![BOS_ID] + (words_ids(vocab, views.take(w as int)) + all) =~= before + all);
            }
            w += 1;
        }
        assert(char_views(words@).take(words@.len() as int) =~= char_views(words@));
        ids.push(EOS_ID);
        assert(ids@ =~= tokenized(vocab, text@));
        ids
    }

    fn strip(token: &[char]) -> (from: usize)
        ensures
            from <= token@.len(),
            token@.skip(from as int) == strip_markers(token@),
    {
        let mut from: usize = 0;
        assert(token@.skip(0) =~= token@);
        while token.len() - from >= 2 && token[from] == '#' && token[from + 1] == '#'
            invariant
                0 <= from <= token@.len(),
                strip_markers(token@) == strip_markers(token@.skip(from as int)),
            decreases token@.len() - from,
        {
            proof {
                let rest = token@.skip(from as int);
                assert(rest.subrange(0, 2) =~= marker());
                assert(rest.skip(2) =~= token@.skip(from + 2));
            }
            from += 2;
        }
        proof {
            let rest = token@.skip(from as int);
            if begins_with(rest, marker()) {
                assert(rest.subrange(0, 2)[0] == rest[0]);
                assert(rest.subrange(0, 2)[1] == rest[1]);
                assert(marker()[0] == '#' && marker()[1] == '#');
            }
        }
        from
    }

    /// The text that `tokens` spell: framing tokens are left out, pieces
    /// lose their continuation marks, and a space stands before every
    /// token that begins a word, the first aside. An id that names no
    /// token spells the unknown token.
    pub fn detokenize(&self, tokens: &[i64]) -> (text: String)
        requires
            self.well_formed(),
        ensures
            text@ == detokenized(self.vocabulary(), tokens@),
    {
        let ghost vocab = self.vocabulary();
        let mut out: Vec<char> = Vec::new();
        let mut is_first: bool = true;
        let mut i: usize = 0;
        let mark: [char; 2] = ['#', '#'];
        assert(mark@ =~= marker());
        assert(tokens@.take(0) =~= Seq::<i64>::empty());
        while i < tokens.len()
            invariant
                0 <= i <= tokens@.len(),
                vocab == self.vocabulary(),
                self.well_formed(),
                mark@ == marker(),
                out@ == detokenized(vocab, tokens@.take(i as int)),
                is_first == !has_visible(tokens@.take(i as int)),
            decreases tokens@.len() - i,
        {
            let id: i64 = tokens[i];
            proof {
                assert(tokens@.take(i + 1).drop_last() =~= tokens@.take(i as int));
                assert(tokens@.take(i + 1).last() == id);
            }
            if !(id == BOS_ID || id == EOS_ID || id == PAD_ID) {
                let at: usize = if 0 <= id && (id as u64) < (self.tokens.len() as u64) {
                    id as usize
                } else {
                    UNK_ID as usize
                };
                assert(self.vocabulary()[at as int] == self.tokens@[at as int]@);
                let token: &Vec<char> = &self.tokens[at];
                let ghost before = out@;
                if !is_first && !chars_begin_with(token.as_slice(), mark.as_slice()) {
                    out.push(' ');
                }
                let ghost spaced = out@;
                let from: usize = Self::strip(token.as_slice());
                let mut j: usize = from;
                while j < token.len()
                    invariant
                        from <= j <= token@.len(),
                        out@ == spaced + token@.subrange(from as int, j as int),
                    decreases token@.len() - j,
                {
                    out.push(token[j]);
                    assert(token@.subrange(from as int, j + 1) =~= token@.subrange(
                        from as int,
                        j as int,
                    ).push(token@[j as int]));
                    j += 1;
                }
                proof {
                    assert(token@.subrange(from as int, token@.len() as int) =~= token@.skip(
                        from as int,
                    ));
                    assert(spaced =~= before + if has_visible(tokens@.take(i as int))
                        && !begins_with(token@, marker()) {
                        seq![' ']
                    } else {
                        Seq::<char>::empty()
                    });
                }
                is_first = false;
            }
            i += 1;
        }
        assert(tokens@.take(tokens@.len() as int) =~= tokens@);
        from_chars(out.as_slice())
    }

    /// Learns from `texts`: every piece of their words that stands at
    /// least `min_freq` times enters the vocabulary, in the order in which
    /// the pieces first stand. The pieces are those that the vocabulary
    /// gives before the training.
    pub fn train(&mut self, texts: &Vec<String>, min_freq: usize)
        requires
            old(self).well_formed(),
        ensures
            final(self).well_formed(),
            final(self).vocabulary() == trained_from(
                old(self).vocabulary(),
                pieces_of(old(self).vocabulary(), texts@),
                0,
                min_freq,
            ),
    {
        let ghost vocab = self.vocabulary();
        let mut pieces: Vec<Vec<char>> = Vec::new();
        let mut t: usize = 0;
        assert(texts@.take(0) =~= Seq::<String>::empty());
        assert(char_views(pieces@) =~= Seq::<Seq<char>>::empty());
        while t < texts.len()
            invariant
                0 <= t <= texts@.len(),
                vocab == self.vocabulary(),
                char_views(pieces@) == pieces_of(vocab, texts@.take(t as int)),
            decreases texts@.len() - t,
        {
            let words: Vec<Vec<char>> = split_words(texts[t].as_str());
            let ghost before = char_views(pieces@);
            let mut w: usize = 0;
            assert(char_views(words@).take(0) =~= Seq::<Seq<char>>::empty());
            assert(before + Seq::<Seq<char>>::empty() =~= before);
            while w < words.len()
                invariant
                    0 <= w <= words@.len(),
                    vocab == self.vocabulary(),
                    char_views(pieces@) == before + words_pieces(
                        vocab,
                        char_views(words@).take(w as int),
                    ),
                decreases words@.len() - w,
            {
                let mut split: Vec<Vec<char>> = self.split_chars(words[w].as_slice());
                let ghost added = char_views(split@);
                let ghost prior = char_views(pieces@);
                pieces.append(&mut split);
                proof {
                    assert(char_views(pieces@) =~= prior + added);
                    let views = char_views(words@);
                    assert(views.take(w + 1).drop_last() =~= views.take(w as int));
                    assert(views.take(w + 1).last() == words@[w as int]@);
                    assert(before + (words_pieces(vocab, views.take(w as int)) + added) =~= prior
                        + added);
                }
                w += 1;
            }
            proof {
                assert(char_views(words@).take(words@.len() as int) =~= char_views(words@));
                assert(texts@.take(t + 1).drop_last() =~= texts@.take(t as int));
                assert(texts@.take(t + 1).last() == texts@[t as int]);
            }
            t += 1;
        }
        assert(texts@.take(texts@.len() as int) =~= texts@);
        let ghost all = char_views(pieces@);
        let mut k: usize = 0;
        while k < pieces.len()
            invariant
                0 <= k <= pieces@.len(),
                all == char_views(pieces@),
                self.well_formed(),
                trained_from(vocab, all, 0, min_freq) == trained_from(
                    self.vocabulary(),
                    all,
                    k as int,
                    min_freq,
                ),
            decreases pieces@.len() - k,
        {
            let count: usize = Self::count(&pieces, k);
            assert(all[k as int] == pieces@[k as int]@);
            if count >= min_freq && (self.tokens.len() as u64) < (i64::MAX as u64) {
                let at: usize = self.find(pieces[k].as_slice());
                if at >= self.tokens.len() {
                    let _ = self.enter(pieces[k].as_slice());
                }
            }
            k += 1;
        }
    }

    fn count(pieces: &Vec<Vec<char>>, k: usize) -> (n: usize)
        requires
            k < pieces@.len(),
        ensures
            n == occurrences(char_views(pieces@), pieces@[k as int]@),
    {
        let ghost all = char_views(pieces@);
        let mut n: usize = 0;
        let mut i: usize = 0;
        assert(all.take(0) =~= Seq::<Seq<char>>::empty());
        while i < pieces.len()
            invariant
                0 <= i <= pieces@.len(),
                k < pieces@.len(),
                all == char_views(pieces@),
                n == occurrences(all.take(i as int), pieces@[k as int]@),
                n <= i,
            decreases pieces@.len() - i,
        {
            assert(all.take(i + 1).drop_last() =~= all.take(i as int));
            assert(all.take(i + 1).last() == pieces@[i as int]@);
            if same_chars(pieces[i].as_slice(), pieces[k].as_slice()) {
                n += 1;
            }
            i += 1;
        }
        assert(all.take(pieces@.len() as int) =~= all);
        n
    }
}

} // verus!
