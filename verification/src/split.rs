//! Splitting bytes at delimiters and joining pieces with a separator.

use crate::delimiter::{find_delimiter, lemma_run_len, lemma_run_len_is, run_len, Delimiter};
use vstd::prelude::*;
use vstd::slice::slice_subrange;

verus! {

/// The pieces of `s` between its delimiters of kind `d`, in order. A sequence
/// with n delimiters has n + 1 pieces, of which any may be empty.
pub open spec fn split(s: Seq<u8>, d: Delimiter) -> Seq<Seq<u8>>
    decreases s.len(),
{
    let n = run_len(s, d) as int;
    if n >= s.len() {
        seq![s]
    } else {
        seq![s.take(n)] + split(s.skip(n + 1), d)
    }
}

/// The parts in order, with `sep` between each two of them.
pub open spec fn join(parts: Seq<Seq<u8>>, sep: u8) -> Seq<u8>
    decreases parts.len(),
{
    if parts.len() == 0 {
        Seq::empty()
    } else if parts.len() == 1 {
        parts[0]
    } else {
        parts[0] + seq![sep] + join(parts.skip(1), sep)
    }
}

/// The piece that begins at `start` runs to the next delimiter, and the
/// pieces after that delimiter follow it.
pub proof fn lemma_split_from(s: Seq<u8>, start: int, d: Delimiter)
    requires
        0 <= start <= s.len(),
    ensures
        ({
            let end = start + run_len(s.skip(start), d);
            &&& end <= s.len()
            &&& split(s.skip(start), d) == if end >= s.len() {
                seq![s.skip(start)]
            } else {
                seq![s.subrange(start, end)] + split(s.skip(end + 1), d)
            }
        }),
{
    let v = s.skip(start);
    let n = run_len(v, d) as int;
    lemma_run_len(v, d);
    if n < v.len() {
        assert(v.take(n) =~= s.subrange(start, start + n));
        assert(v.skip(n + 1) =~= s.skip(start + n + 1));
    }
}

/// Joining a first part to further parts puts a separator between them only
/// if there are further parts.
pub proof fn lemma_join_first(first: Seq<u8>, rest: Seq<Seq<u8>>, sep: u8)
    ensures
        join(seq![first] + rest, sep) == if rest.len() == 0 {
            first
        } else {
            first + seq![sep] + join(rest, sep)
        },
{
    let parts = seq![first] + rest;
    assert(parts.skip(1) =~= rest);
}

/// Splitting undoes joining: parts that hold no delimiter, joined by a
/// delimiter, split into the same parts. There must be a part, since the
/// empty sequence splits into one empty piece.
pub proof fn lemma_split_join(parts: Seq<Seq<u8>>, sep: u8, d: Delimiter)
    requires
        parts.len() > 0,
        d.accepts(sep),
        forall|k: int, i: int|
            0 <= k < parts.len() && 0 <= i < parts[k].len() ==> !d.accepts(#[trigger] parts[k][i]),
    ensures
        split(join(parts, sep), d) == parts,
    decreases parts.len(),
{
    let first = parts[0];
    let joined = join(parts, sep);
    if parts.len() == 1 {
        lemma_run_len_is(first, d, first.len() as int);
    } else {
        let rest = parts.skip(1);
        lemma_split_join(rest, sep, d);
        lemma_run_len_is(joined, d, first.len() as int);
        assert(joined.take(first.len() as int) =~= first);
        assert(joined.skip(first.len() as int + 1) =~= join(rest, sep));
    }
}

/// Appends the bytes of `src` to `dst`.
pub(crate) fn append(dst: &mut Vec<u8>, src: &[u8])
    ensures
        final(dst)@ == old(dst)@ + src@,
{
    dst.extend_from_slice(src);
}

/// Splits `s` at its delimiters of kind `d` and stops after `limit` pieces:
/// what follows them is not looked at.
pub fn split_first<'a>(s: &'a [u8], d: Delimiter, limit: usize) -> (pieces: Vec<&'a [u8]>)
    ensures
        pieces@.len() == if split(s@, d).len() <= limit {
            split(s@, d).len()
        } else {
            limit as nat
        },
        forall|k: int| 0 <= k < pieces@.len() ==> (#[trigger] pieces@[k])@ == split(s@, d)[k],
{
    let mut pieces: Vec<&'a [u8]> = Vec::new();
    let mut start: usize = 0;
    let mut more = true;
    assert(s@.skip(0) =~= s@);
    while more && pieces.len() < limit
        invariant
            start <= s@.len(),
            pieces@.len() <= limit,
            pieces@.len() <= split(s@, d).len(),
            forall|k: int| 0 <= k < pieces@.len() ==> (#[trigger] pieces@[k])@ == split(s@, d)[k],
            more ==> split(s@, d).skip(pieces@.len() as int) == split(s@.skip(start as int), d),
            !more ==> pieces@.len() == split(s@, d).len(),
        decreases
            if more { s@.len() - start + 1 } else { 0 },
    {
        let end = find_delimiter(s, start, d);
        proof {
            let all = split(s@, d);
            let k = pieces@.len() as int;
            lemma_split_from(s@, start as int, d);
            let tail = split(s@.skip(start as int), d);
            assert(all[k] == all.skip(k)[0]);
            if end < s.len() {
                assert(tail.skip(1) =~= split(s@.skip(end + 1), d));
            }
        }
        pieces.push(slice_subrange(s, start, end));
        if end < s.len() {
            start = end + 1;
        } else {
            more = false;
        }
    }
    pieces
}

} // verus!
