//! The counts behind the translation scores: n-gram overlap, matched
//! words, and the edit distance between two texts word by word. The scores
//! themselves are quotients of these counts.

use vstd::prelude::*;
use vstd::slice::slice_subrange;
use crate::text::{char_views, same_chars, split_words, to_chars, words_of};

verus! {

/// `gram` stands somewhere in `hay`.
pub open spec fn occurs<T>(hay: Seq<T>, gram: Seq<T>) -> bool {
    exists|j: int| 0 <= j && j + gram.len() <= hay.len() && #[trigger] hay.subrange(j, j + gram.len()) == gram
}

/// The number of windows of width `w` in a sequence of length `len`.
pub open spec fn window_count(len: nat, w: nat) -> nat {
    if len >= w {
        (len - w + 1) as nat
    } else {
        0
    }
}

/// Among the first `n` windows of width `w` of `hyp`, the number of those
/// that stand somewhere in `reference`.
pub open spec fn gram_hits<T>(hyp: Seq<T>, reference: Seq<T>, w: nat, n: nat) -> nat
    decreases n,
{
    if n == 0 {
        0
    } else {
        gram_hits(hyp, reference, w, (n - 1) as nat) + if occurs(
            reference,
            hyp.subrange(n - 1, n - 1 + w),
        ) {
            1nat
        } else {
            0nat
        }
    }
}

/// The number of windows of `hyp`, of widths 1 to `max_w`, that stand
/// somewhere in `reference`.
pub open spec fn overlap_hits<T>(hyp: Seq<T>, reference: Seq<T>, max_w: nat) -> nat
    decreases max_w,
{
    if max_w == 0 {
        0
    } else {
        overlap_hits(hyp, reference, (max_w - 1) as nat) + gram_hits(
            hyp,
            reference,
            max_w,
            window_count(hyp.len(), max_w),
        )
    }
}

/// The number of windows of a sequence of length `len`, of widths 1 to
/// `max_w`.
pub open spec fn overlap_total(len: nat, max_w: nat) -> nat
    decreases max_w,
{
    if max_w == 0 {
        0
    } else {
        overlap_total(len, (max_w - 1) as nat) + window_count(len, max_w)
    }
}

proof fn lemma_hits_bounded<T>(hyp: Seq<T>, reference: Seq<T>, w: nat, n: nat)
    ensures
        gram_hits(hyp, reference, w, n) <= n,
    decreases n,
{
    if n > 0 {
        lemma_hits_bounded(hyp, reference, w, (n - 1) as nat);
    }
}

proof fn lemma_overlap_bounded<T>(hyp: Seq<T>, reference: Seq<T>, max_w: nat)
    ensures
        overlap_hits(hyp, reference, max_w) <= overlap_total(hyp.len(), max_w),
        overlap_total(hyp.len(), max_w) <= max_w * hyp.len(),
    decreases max_w,
{
    if max_w > 0 {
        lemma_overlap_bounded(hyp, reference, (max_w - 1) as nat);
        lemma_hits_bounded(hyp, reference, max_w, window_count(hyp.len(), max_w));
        assert((max_w - 1) * hyp.len() + hyp.len() == max_w * hyp.len()) by (nonlinear_arith);
    }
}

/// Decides whether the `w` characters of `hyp` from `at` on stand
/// somewhere in `reference`.
fn char_gram_occurs(hyp: &[char], at: usize, w: usize, reference: &[char]) -> (r: bool)
    requires
        at + w <= hyp@.len(),
    ensures
        r == occurs(reference@, hyp@.subrange(at as int, at + w)),
{
    let have: usize = hyp.len();
    let gram: &[char] = slice_subrange(hyp, at, at + w);
    if w > reference.len() {
        return false;
    }
    let last: usize = reference.len() - w;
    let mut j: usize = 0;
    loop
        invariant
            0 <= j <= last,
            last + w == reference@.len(),
            reference@.len() <= usize::MAX,
            gram@ == hyp@.subrange(at as int, at + w),
            gram@.len() == w,
            forall|t: int| 0 <= t < j ==> #[trigger] reference@.subrange(t, t + w) != gram@,
        decreases last - j,
    {
        let window: &[char] = slice_subrange(reference, j, j + w);
        if same_chars(window, gram) {
            assert(reference@.subrange(j as int, j + gram@.len()) == gram@);
            return true;
        }
        if j == last {
            assert forall|t: int| 0 <= t && t + gram@.len() <= reference@.len() implies
                #[trigger] reference@.subrange(t, t + gram@.len()) != gram@ by {
                assert(reference@.subrange(t, t + w) != gram@);
            }
            return false;
        }
        j += 1;
    }
}

/// Decides whether the `w` words of `hyp` from `at` on are the `w` words of
/// `reference` from `from` on.
fn words_match(hyp: &Vec<Vec<char>>, at: usize, reference: &Vec<Vec<char>>, from: usize, w: usize) -> (r:
    bool)
    requires
        at + w <= hyp@.len(),
        from + w <= reference@.len(),
    ensures
        r == (char_views(reference@).subrange(from as int, from + w) == char_views(hyp@).subrange(
            at as int,
            at + w,
        )),
{
    let ghost a = char_views(hyp@).subrange(at as int, at + w);
    let ghost b = char_views(reference@).subrange(from as int, from + w);
    let have: usize = hyp.len();
    let known: usize = reference.len();
    let mut k: usize = 0;
    while k < w
        invariant
            0 <= k <= w,
            at + w <= hyp@.len(),
            from + w <= reference@.len(),
            have == hyp@.len(),
            known == reference@.len(),
            a == char_views(hyp@).subrange(at as int, at + w),
            b == char_views(reference@).subrange(from as int, from + w),
            forall|t: int| 0 <= t < k ==> #[trigger] a[t] == b[t],
        decreases w - k,
    {
        assert(a[k as int] == hyp@[at + k]@);
        assert(b[k as int] == reference@[from + k]@);
        if !same_chars(hyp[at + k].as_slice(), reference[from + k].as_slice()) {
            return false;
        }
        k += 1;
    }
    assert(a =~= b);
    true
}

/// Decides whether the `w` words of `hyp` from `at` on stand somewhere in
/// `reference`.
fn word_gram_occurs(hyp: &Vec<Vec<char>>, at: usize, w: usize, reference: &Vec<Vec<char>>) -> (r: bool)
    requires
        at + w <= hyp@.len(),
    ensures
        r == occurs(char_views(reference@), char_views(hyp@).subrange(at as int, at + w)),
{
    if w > reference.len() {
        return false;
    }
    let ghost gram = char_views(hyp@).subrange(at as int, at + w);
    let ghost f = char_views(reference@);
    let last: usize = reference.len() - w;
    let mut j: usize = 0;
    loop
        invariant
            0 <= j <= last,
            at + w <= hyp@.len(),
            last + w == reference@.len(),
            f == char_views(reference@),
            gram == char_views(hyp@).subrange(at as int, at + w),
            gram.len() == w,
            forall|t: int| 0 <= t < j ==> #[trigger] f.subrange(t, t + w) != gram,
        decreases last - j,
    {
        if words_match(hyp, at, reference, j, w) {
            assert(f.subrange(j as int, j + gram.len()) == gram);
            return true;
        }
        if j == last {
            assert forall|t: int| 0 <= t && t + gram.len() <= f.len() implies #[trigger] f.subrange(
                t,
                t + gram.len(),
            ) != gram by {
                assert(f.subrange(t, t + w) != gram);
            }
            return false;
        }
        j += 1;
    }
}

/// Counts the windows of characters of `hyp`, of widths 1 to `max_w`, and
/// those among them that stand somewhere in `reference`. Returns the hits
/// and the total.
pub fn char_overlap(hyp: &[char], reference: &[char], max_w: usize) -> (r: (u128, u128))
    ensures
        r.0 == overlap_hits(hyp@, reference@, max_w as nat),
        r.1 == overlap_total(hyp@.len(), max_w as nat),
{
    let len: usize = hyp.len();
    let mut hits: u128 = 0;
    let mut total: u128 = 0;
    let mut w: usize = 0;
    while w < max_w
        invariant
            0 <= w <= max_w,
            len == hyp@.len(),
            hits == overlap_hits(hyp@, reference@, w as nat),
            total == overlap_total(hyp@.len(), w as nat),
        decreases max_w - w,
    {
        w += 1;
        let windows: usize = if len >= w {
            len - w + 1
        } else {
            0
        };
        let mut found: u128 = 0;
        let mut i: usize = 0;
        while i < windows
            invariant
                0 <= i <= windows,
                1 <= w,
                len == hyp@.len(),
                windows == window_count(len as nat, w as nat),
                found == gram_hits(hyp@, reference@, w as nat, i as nat),
                found <= i,
            decreases windows - i,
        {
            if char_gram_occurs(hyp, i, w, reference) {
                found = found + 1;
            }
            i += 1;
        }
        proof {
            lemma_overlap_bounded(hyp@, reference@, w as nat);
            assert(w * len <= 0xffff_ffff_ffff_ffff * 0xffff_ffff_ffff_ffff) by (nonlinear_arith)
                requires
                    0 <= w <= 0xffff_ffff_ffff_ffff,
                    0 <= len <= 0xffff_ffff_ffff_ffff,
            ;
        }
        hits = hits + found;
        total = total + windows as u128;
    }
    (hits, total)
}

/// Counts the windows of words of `hyp`, of widths 1 to `max_w`, and those
/// among them that stand somewhere in `reference`. Returns the hits and
/// the total.
pub fn word_overlap(hyp: &Vec<Vec<char>>, reference: &Vec<Vec<char>>, max_w: usize) -> (r: (
    u128,
    u128,
))
    ensures
        r.0 == overlap_hits(char_views(hyp@), char_views(reference@), max_w as nat),
        r.1 == overlap_total(hyp@.len(), max_w as nat),
{
    let len: usize = hyp.len();
    let ghost h = char_views(hyp@);
    let ghost f = char_views(reference@);
    let mut hits: u128 = 0;
    let mut total: u128 = 0;
    let mut w: usize = 0;
    while w < max_w
        invariant
            0 <= w <= max_w,
            len == hyp@.len(),
            h == char_views(hyp@),
            f == char_views(reference@),
            hits == overlap_hits(h, f, w as nat),
            total == overlap_total(h.len(), w as nat),
        decreases max_w - w,
    {
        w += 1;
        let windows: usize = if len >= w {
            len - w + 1
        } else {
            0
        };
        let mut found: u128 = 0;
        let mut i: usize = 0;
        while i < windows
            invariant
                0 <= i <= windows,
                1 <= w,
                len == hyp@.len(),
                h == char_views(hyp@),
                f == char_views(reference@),
                windows == window_count(len as nat, w as nat),
                found == gram_hits(h, f, w as nat, i as nat),
                found <= i,
            decreases windows - i,
        {
            if word_gram_occurs(hyp, i, w, reference) {
                found = found + 1;
            }
            i += 1;
        }
        proof {
            lemma_overlap_bounded(h, f, w as nat);
            assert(w * len <= 0xffff_ffff_ffff_ffff * 0xffff_ffff_ffff_ffff) by (nonlinear_arith)
                requires
                    0 <= w <= 0xffff_ffff_ffff_ffff,
                    0 <= len <= 0xffff_ffff_ffff_ffff,
            ;
        }
        hits = hits + found;
        total = total + windows as u128;
    }
    (hits, total)
}

/// The counts of the word n-gram precision of a hypothesis against a
/// reference: windows of one to four words.
pub fn bleu_counts(hypothesis: &str, reference: &str) -> (r: (u128, u128))
    ensures
        r.0 == overlap_hits(words_of(hypothesis@), words_of(reference@), 4),
        r.1 == overlap_total(words_of(hypothesis@).len(), 4),
{
    let hyp: Vec<Vec<char>> = split_words(hypothesis);
    let reference_words: Vec<Vec<char>> = split_words(reference);
    word_overlap(&hyp, &reference_words, 4)
}

/// The counts of the character n-gram precision of a hypothesis against a
/// reference: windows of one to six characters.
pub fn chrf_counts(hypothesis: &str, reference: &str) -> (r: (u128, u128))
    ensures
        r.0 == overlap_hits(hypothesis@, reference@, 6),
        r.1 == overlap_total(hypothesis@.len(), 6),
{
    let hyp: Vec<char> = to_chars(hypothesis);
    let reference_chars: Vec<char> = to_chars(reference);
    char_overlap(hyp.as_slice(), reference_chars.as_slice(), 6)
}

/// The number of words of `hyp` that stand in `reference`.
pub open spec fn matched_words(hyp: Seq<Seq<char>>, reference: Seq<Seq<char>>) -> nat
    decreases hyp.len(),
{
    if hyp.len() == 0 {
        0
    } else {
        matched_words(hyp.drop_last(), reference) + if reference.contains(hyp.last()) {
            1nat
        } else {
            0nat
        }
    }
}

/// The words of a hypothesis that stand in the reference, and the number
/// of chunks they are counted in: one where any word matches.
pub fn meteor_counts(hypothesis: &str, reference: &str) -> (r: (usize, usize))
    ensures
        r.0 == matched_words(words_of(hypothesis@), words_of(reference@)),
        r.1 == if r.0 > 0 {
            1int
        } else {
            0int
        },
{
    let hyp: Vec<Vec<char>> = split_words(hypothesis);
    let known: Vec<Vec<char>> = split_words(reference);
    let ghost h = char_views(hyp@);
    let ghost f = char_views(known@);
    let mut matches: usize = 0;
    let mut i: usize = 0;
    assert(h.take(0) =~= Seq::<Seq<char>>::empty());
    while i < hyp.len()
        invariant
            0 <= i <= hyp@.len(),
            h == char_views(hyp@),
            f == char_views(known@),
            matches == matched_words(h.take(i as int), f),
            matches <= i,
        decreases hyp@.len() - i,
    {
        assert(h.take(i + 1).drop_last() =~= h.take(i as int));
        assert(h.take(i + 1).last() == hyp@[i as int]@);
        let mut j: usize = 0;
        let mut found: bool = false;
        while j < known.len() && !found
            invariant
                0 <= j <= known@.len(),
                f == char_views(known@),
                i < hyp@.len(),
                found ==> f.contains(hyp@[i as int]@),
                !found ==> forall|t: int| 0 <= t < j ==> #[trigger] f[t] != hyp@[i as int]@,
            decreases known@.len() - j, if found { 0int } else { 1int },
        {
            assert(f[j as int] == known@[j as int]@);
            if same_chars(known[j].as_slice(), hyp[i].as_slice()) {
                found = true;
            } else {
                j += 1;
            }
        }
        if found {
            matches += 1;
        }
        i += 1;
    }
    assert(h.take(hyp@.len() as int) =~= h);
    let chunks: usize = if matches > 0 {
        1
    } else {
        0
    };
    (matches, chunks)
}

/// The smallest of three numbers.
pub open spec fn least_of(a: int, b: int, c: int) -> int {
    if a <= b && a <= c {
        a
    } else if b <= c {
        b
    } else {
        c
    }
}

/// The edit distance between two sequences of words: the least number of
/// words to delete, insert or replace to make one of the other.
pub open spec fn edit_distance(a: Seq<Seq<char>>, b: Seq<Seq<char>>) -> int
    decreases a.len() + b.len(),
{
    if a.len() == 0 {
        b.len() as int
    } else if b.len() == 0 {
        a.len() as int
    } else {
        least_of(
            edit_distance(a.drop_last(), b) + 1,
            edit_distance(a, b.drop_last()) + 1,
            edit_distance(a.drop_last(), b.drop_last()) + if a.last() == b.last() {
                0int
            } else {
                1int
            },
        )
    }
}

/// The edit distance is at most the length of the longer sequence.
pub proof fn lemma_edit_distance_bounded(a: Seq<Seq<char>>, b: Seq<Seq<char>>)
    ensures
        0 <= edit_distance(a, b),
        edit_distance(a, b) <= a.len() || edit_distance(a, b) <= b.len(),
        edit_distance(a, b) <= a.len() + b.len(),
    decreases a.len() + b.len(),
{
    if a.len() > 0 && b.len() > 0 {
        lemma_edit_distance_bounded(a.drop_last(), b);
        lemma_edit_distance_bounded(a, b.drop_last());
        lemma_edit_distance_bounded(a.drop_last(), b.drop_last());
    }
}

/// Computes the edit distance between the words of two texts.
pub fn word_edit_distance(hypothesis: &str, reference: &str) -> (d: usize)
    ensures
        d == edit_distance(words_of(hypothesis@), words_of(reference@)),
{
    let hyp: Vec<Vec<char>> = split_words(hypothesis);
    let known: Vec<Vec<char>> = split_words(reference);
    let ghost a = char_views(hyp@);
    let ghost b = char_views(known@);
    let rows: usize = hyp.len();
    let cols: usize = known.len();
    let mut prev: Vec<u128> = Vec::new();
    prev.push(0);
    let mut j: usize = 0;
    assert(a.take(0) =~= Seq::<Seq<char>>::empty());
    while j < cols
        invariant
            0 <= j <= cols,
            cols == known@.len(),
            b == char_views(known@),
            prev@.len() == j + 1,
            a.take(0).len() == 0,
            forall|t: int| 0 <= t <= j ==> #[trigger] prev@[t] == edit_distance(a.take(0), b.take(t)),
        decreases cols - j,
    {
        j += 1;
        prev.push(j as u128);
    }
    let mut i: usize = 0;
    while i < rows
        invariant
            0 <= i <= rows,
            rows == hyp@.len(),
            cols == known@.len(),
            a == char_views(hyp@),
            b == char_views(known@),
            prev@.len() == cols + 1,
            forall|t: int|
                0 <= t <= cols ==> #[trigger] prev@[t] == edit_distance(a.take(i as int), b.take(t)),
        decreases rows - i,
    {
        let ghost upper = a.take(i as int);
        let ghost lower = a.take(i + 1);
        proof {
            assert(lower.drop_last() =~= upper);
            assert(lower.last() == hyp@[i as int]@);
            assert(b.take(0) =~= Seq::<Seq<char>>::empty());
        }
        let mut cur: Vec<u128> = Vec::new();
        cur.push((i + 1) as u128);
        let mut c: usize = 0;
        while c < cols
            invariant
                0 <= c <= cols,
                i < rows,
                rows == hyp@.len(),
                cols == known@.len(),
                a == char_views(hyp@),
                b == char_views(known@),
                upper == a.take(i as int),
                lower == a.take(i + 1),
                lower.drop_last() == upper,
                lower.last() == hyp@[i as int]@,
                lower.len() == i + 1,
                prev@.len() == cols + 1,
                cur@.len() == c + 1,
                forall|t: int| 0 <= t <= cols ==> #[trigger] prev@[t] == edit_distance(upper, b.take(t)),
                forall|t: int| 0 <= t <= c ==> #[trigger] cur@[t] == edit_distance(lower, b.take(t)),
            decreases cols - c,
        {
            let ghost right = b.take(c + 1);
            proof {
                assert(right.drop_last() =~= b.take(c as int));
                assert(right.last() == known@[c as int]@);
                lemma_edit_distance_bounded(upper, right);
                lemma_edit_distance_bounded(lower, b.take(c as int));
                lemma_edit_distance_bounded(upper, b.take(c as int));
            }
            let same: bool = same_chars(hyp[i].as_slice(), known[c].as_slice());
            let delete: u128 = prev[c + 1] + 1;
            let insert: u128 = cur[c] + 1;
            let replace: u128 = prev[c] + if same {
                0
            } else {
                1
            };
            let best: u128 = if delete <= insert && delete <= replace {
                delete
            } else if insert <= replace {
                insert
            } else {
                replace
            };
            cur.push(best);
            c += 1;
        }
        prev = cur;
        i += 1;
    }
    proof {
        assert(a.take(rows as int) =~= a);
        assert(b.take(cols as int) =~= b);
        lemma_edit_distance_bounded(a, b);
    }
    let d: u128 = prev[cols];
    d as usize
}

} // verus!
