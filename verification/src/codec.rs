//! Run-length coding of cached values.
//!
//! An encoded value is a sequence of pairs `(count, byte)` with `count` in
//! `1..=255`; it stands for each `byte` repeated `count` times. The encoder
//! always takes the longest run it can, so every value has one encoding.

use vstd::prelude::*;

verus! {

/// The longest run a single pair can hold.
pub const MAX_RUN: u8 = 255;

/// Length of the run of equal bytes at the front of `s`, at most `limit`.
pub open spec fn run_len(s: Seq<u8>, limit: nat) -> nat
    decreases s.len(),
{
    if s.len() == 0 || limit == 0 {
        0
    } else if s.len() == 1 || s[1] != s[0] || limit == 1 {
        1
    } else {
        1 + run_len(s.drop_first(), (limit - 1) as nat)
    }
}

/// The run-length encoding of `s`.
pub open spec fn rle_encode(s: Seq<u8>) -> Seq<u8>
    decreases s.len(),
{
    if s.len() == 0 {
        Seq::empty()
    } else {
        let n = run_len(s, MAX_RUN as nat);
        if 1 <= n <= s.len() {
            seq![n as u8, s[0]] + rle_encode(s.skip(n as int))
        } else {
            Seq::empty()
        }
    }
}

/// `count` copies of `byte`.
pub open spec fn repeat(byte: u8, count: nat) -> Seq<u8> {
    Seq::new(count, |i: int| byte)
}

/// What an encoded value stands for, or `None` where it is no encoding: an
/// odd number of bytes, or a pair with count zero.
pub open spec fn rle_decode(s: Seq<u8>) -> Option<Seq<u8>>
    decreases s.len(),
{
    if s.len() == 0 {
        Some(Seq::empty())
    } else if s.len() == 1 || s[0] == 0 {
        None
    } else {
        match rle_decode(s.skip(2)) {
            None => None,
            Some(rest) => Some(repeat(s[1], s[0] as nat) + rest),
        }
    }
}

proof fn lemma_run_len_bounds(s: Seq<u8>, limit: nat)
    ensures
        run_len(s, limit) <= limit,
        run_len(s, limit) <= s.len(),
        s.len() > 0 && limit > 0 ==> run_len(s, limit) >= 1,
    decreases s.len(),
{
    if s.len() >= 2 && s[1] == s[0] && limit >= 2 {
        lemma_run_len_bounds(s.drop_first(), (limit - 1) as nat);
    }
}

proof fn lemma_run_is_constant(s: Seq<u8>, limit: nat)
    ensures
        forall|i: int| 0 <= i < run_len(s, limit) ==> #[trigger] s[i] == s[0],
    decreases s.len(),
{
    if s.len() >= 2 && s[1] == s[0] && limit >= 2 {
        let t = s.drop_first();
        lemma_run_is_constant(t, (limit - 1) as nat);
        lemma_run_len_bounds(t, (limit - 1) as nat);
        assert forall|i: int| 0 <= i < run_len(s, limit) implies #[trigger] s[i] == s[0] by {
            if i > 0 {
                assert(t[i - 1] == s[i]);
                assert(t[0] == s[1]);
            }
        }
    }
}

/// Decoding the encoding of a value gives the value back.
pub proof fn lemma_decode_encode(s: Seq<u8>)
    ensures
        rle_decode(rle_encode(s)) == Some(s),
    decreases s.len(),
{
    if s.len() > 0 {
        let n = run_len(s, MAX_RUN as nat);
        lemma_run_len_bounds(s, MAX_RUN as nat);
        lemma_run_is_constant(s, MAX_RUN as nat);
        let tail = s.skip(n as int);
        lemma_decode_encode(tail);
        let e = rle_encode(s);
        assert(e == seq![n as u8, s[0]] + rle_encode(tail));
        assert(e.skip(2) =~= rle_encode(tail));
        assert(e[0] == n as u8 && e[1] == s[0]);
        assert(repeat(s[0], n) + tail =~= s);
    }
}

/// The encoding holds two bytes for each run, so at most twice the value's
/// length.
pub proof fn lemma_encode_len(s: Seq<u8>)
    ensures
        rle_encode(s).len() <= 2 * s.len(),
        rle_encode(s).len() % 2 == 0,
    decreases s.len(),
{
    if s.len() > 0 {
        let n = run_len(s, MAX_RUN as nat);
        lemma_run_len_bounds(s, MAX_RUN as nat);
        lemma_encode_len(s.skip(n as int));
    }
}

fn front_run(v: &[u8], start: usize) -> (n: u8)
    requires
        start < v@.len(),
    ensures
        n as nat == run_len(v@.skip(start as int), MAX_RUN as nat),
        1 <= n,
        start + n <= v@.len(),
{
    let total: usize = v.len();
    let first: u8 = v[start];
    let mut n: u8 = 1;
    let ghost s = v@.skip(start as int);
    assert(s.skip(0) =~= s);
    while n < MAX_RUN && start + (n as usize) < total && v[start + (n as usize)] == first
        invariant
            1 <= n <= MAX_RUN,
            total == v@.len(),
            start + n <= total,
            first == v@[start as int],
            s == v@.skip(start as int),
            run_len(s, MAX_RUN as nat) == (n - 1) + run_len(
                s.skip(n - 1),
                (MAX_RUN - (n - 1)) as nat,
            ),
            s.skip(n - 1)[0] == first,
        decreases MAX_RUN - n,
    {
        proof {
            let cur = s.skip(n - 1);
            assert(cur[1] == v@[start + n]);
            assert(cur.drop_first() =~= s.skip(n as int));
        }
        n += 1;
    }
    proof {
        let cur = s.skip(n - 1);
        assert(cur.len() == total - start - (n - 1));
        if cur.len() >= 2 {
            assert(cur[1] == v@[start + n]);
        }
    }
    n
}

/// Encodes `value` by run lengths.
pub fn compress(value: &[u8]) -> (out: Vec<u8>)
    ensures
        out@ == rle_encode(value@),
{
    let total: usize = value.len();
    let mut out: Vec<u8> = Vec::new();
    let mut i: usize = 0;
    assert(value@.skip(0) =~= value@);
    while i < total
        invariant
            0 <= i <= total,
            total == value@.len(),
            rle_encode(value@) == out@ + rle_encode(value@.skip(i as int)),
        decreases total - i,
    {
        let n: u8 = front_run(value, i);
        let ghost rest = value@.skip(i as int);
        proof {
            assert(rest[0] == value@[i as int]);
            assert(rest.skip(n as int) =~= value@.skip(i + n));
            assert(out@ + (seq![n, value@[i as int]] + rle_encode(rest.skip(n as int)))
                =~= out@.push(n).push(value@[i as int]) + rle_encode(rest.skip(n as int)));
        }
        out.push(n);
        out.push(value[i]);
        i += n as usize;
    }
    assert(out@ + Seq::<u8>::empty() =~= out@);
    out
}

/// Decodes `data`, or returns `None` where it is no run-length encoding.
pub fn decompress(data: &[u8]) -> (out: Option<Vec<u8>>)
    ensures
        match out {
            Some(v) => rle_decode(data@) == Some(v@),
            None => rle_decode(data@) is None,
        },
{
    let total: usize = data.len();
    if total % 2 != 0 {
        proof {
            lemma_odd_is_no_encoding(data@);
        }
        return None;
    }
    let mut out: Vec<u8> = Vec::new();
    let mut i: usize = 0;
    assert(data@.skip(0) =~= data@);
    while i < total
        invariant
            0 <= i <= total,
            i % 2 == 0,
            total % 2 == 0,
            total == data@.len(),
            rle_decode(data@) == match rle_decode(data@.skip(i as int)) {
                None => None::<Seq<u8>>,
                Some(rest) => Some(out@ + rest),
            },
        decreases total - i,
    {
        let count: u8 = data[i];
        let byte: u8 = data[i + 1];
        let ghost rest = data@.skip(i as int);
        proof {
            assert(rest[0] == count && rest[1] == byte);
            assert(rest.skip(2) =~= data@.skip(i + 2));
        }
        if count == 0 {
            return None;
        }
        let ghost before = out@;
        let mut k: u8 = 0;
        while k < count
            invariant
                0 <= k <= count,
                out@ == before + repeat(byte, k as nat),
            decreases count - k,
        {
            out.push(byte);
            assert(before + repeat(byte, (k + 1) as nat) =~= (before + repeat(byte, k as nat)).push(
                byte,
            ));
            k += 1;
        }
        proof {
            match rle_decode(data@.skip(i + 2)) {
                None => {},
                Some(tail) => {
                    assert(before + (repeat(byte, count as nat) + tail) =~= out@ + tail);
                },
            }
        }
        i += 2;
    }
    assert(out@ + Seq::<u8>::empty() =~= out@);
    Some(out)
}

proof fn lemma_odd_is_no_encoding(s: Seq<u8>)
    requires
        s.len() % 2 == 1,
    ensures
        rle_decode(s) is None,
    decreases s.len(),
{
    if s.len() > 1 && s[0] != 0 {
        lemma_odd_is_no_encoding(s.skip(2));
    }
}

} // verus!
