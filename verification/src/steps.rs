//! The steps of a walk and their encoding as the step list of a path.
//!
//! A walk is a run of steps without separators, each an orientation marker
//! (`>` forward, `<` reverse) followed by an identifier. The step list of a
//! path holds the same steps separated by commas, each as the identifier
//! followed by a sign (`+` forward, `-` reverse).

use crate::delimiter::{
    count, find_delimiter, lemma_count_concat, lemma_count_split_at, lemma_count_zero,
    lemma_run_len, run_len, Delimiter, COMMA, FORWARD, NEWLINE, REVERSE,
};
use crate::error::WalkError;
use crate::split::{append, join, lemma_join_first, lemma_split_join, split};
use vstd::prelude::*;
use vstd::slice::slice_subrange;

verus! {

/// The sign `+` of a step taken in forward orientation.
pub const PLUS: u8 = 0x2b;

/// The sign `-` of a step taken in reverse orientation.
pub const MINUS: u8 = 0x2d;

/// The sign that stands for an orientation marker.
pub open spec fn sign_of(marker: u8) -> u8 {
    if marker == FORWARD {
        PLUS
    } else {
        MINUS
    }
}

/// A walk is well formed if it is empty or begins with an orientation marker.
/// Every later step begins at a marker by construction.
pub open spec fn well_formed_walk(w: Seq<u8>) -> bool {
    w.len() == 0 || Delimiter::Marker.accepts(w[0])
}

/// `w` without the line feed at its end, if it has one.
pub open spec fn strip_newline(w: Seq<u8>) -> Seq<u8> {
    if w.len() > 0 && w.last() == NEWLINE {
        w.drop_last()
    } else {
        w
    }
}

/// The tokens of the steps of `w`, in order: for each step its identifier,
/// which runs up to the next marker or the end, followed by its sign.
pub open spec fn walk_tokens(w: Seq<u8>) -> Seq<Seq<u8>>
    decreases w.len(),
    via walk_tokens_decreases
{
    if w.len() == 0 {
        Seq::empty()
    } else {
        let n = run_len(w.skip(1), Delimiter::Marker) as int;
        seq![w.subrange(1, 1 + n).push(sign_of(w[0]))] + walk_tokens(w.skip(1 + n))
    }
}

#[via_fn]
proof fn walk_tokens_decreases(w: Seq<u8>) {
    if w.len() > 0 {
        lemma_run_len(w.skip(1), Delimiter::Marker);
    }
}

/// The step list of a path that takes the steps of the walk field `walk`: the
/// tokens of its steps, joined by commas. A line feed at the end of the field
/// belongs to no identifier.
pub open spec fn step_list(walk: Seq<u8>) -> Seq<u8> {
    join(walk_tokens(strip_newline(walk)), COMMA)
}

/// The tokens of a step list: its pieces between commas. The empty list
/// holds none, since no token is empty.
pub open spec fn list_tokens(list: Seq<u8>) -> Seq<Seq<u8>> {
    if list.len() == 0 {
        Seq::empty()
    } else {
        split(list, Delimiter::Comma)
    }
}

/// The step at position `i` of `w` heads the tokens of what follows it.
proof fn lemma_walk_tokens_at(w: Seq<u8>, i: int)
    requires
        0 <= i < w.len(),
    ensures
        ({
            let next = i + 1 + run_len(w.skip(i + 1), Delimiter::Marker);
            &&& next <= w.len()
            &&& walk_tokens(w.skip(i)) == seq![w.subrange(i + 1, next).push(sign_of(w[i]))]
                + walk_tokens(w.skip(next))
        }),
{
    let v = w.skip(i);
    let n = run_len(v.skip(1), Delimiter::Marker) as int;
    lemma_run_len(v.skip(1), Delimiter::Marker);
    assert(v.skip(1) =~= w.skip(i + 1));
    assert(v.subrange(1, 1 + n) =~= w.subrange(i + 1, i + 1 + n));
    assert(v.skip(1 + n) =~= w.skip(i + 1 + n));
}

/// Encodes the walk field `walk` as the step list of a path.
///
/// Fails on a walk that begins with anything but an orientation marker, and
/// names the byte found there. The empty walk has the empty step list.
pub fn encode_steps(walk: &[u8]) -> (res: Result<Vec<u8>, WalkError>)
    ensures
        match res {
            Ok(list) => well_formed_walk(walk@) && list@ == step_list(walk@),
            Err(e) => !well_formed_walk(walk@) && e == (WalkError::UnexpectedMarker {
                observed: walk@[0],
            }),
        },
{
    let n = walk.len();
    let mut list: Vec<u8> = Vec::new();
    if n == 0 {
        return Ok(list);
    }
    if !Delimiter::Marker.test(walk[0]) {
        return Err(WalkError::UnexpectedMarker { observed: walk[0] });
    }
    let end: usize = if walk[n - 1] == NEWLINE {
        n - 1
    } else {
        n
    };
    let body = slice_subrange(walk, 0, end);
    assert(body@ =~= strip_newline(walk@));
    assert(body@.skip(0) =~= body@);
    let mut i: usize = 0;
    while i < end
        invariant
            end == body@.len(),
            i <= end,
            i < end ==> Delimiter::Marker.accepts(body@[i as int]),
            join(walk_tokens(body@), COMMA) == list@ + join(
                walk_tokens(body@.skip(i as int)),
                COMMA,
            ),
        decreases end - i,
    {
        let next = find_delimiter(body, i + 1, Delimiter::Marker);
        let sign: u8 = if body[i] == FORWARD {
            PLUS
        } else {
            MINUS
        };
        proof {
            let token = body@.subrange(i + 1, next as int).push(sign);
            let rest = walk_tokens(body@.skip(next as int));
            lemma_walk_tokens_at(body@, i as int);
            lemma_join_first(token, rest, COMMA);
            lemma_run_len(body@.skip(i + 1), Delimiter::Marker);
        }
        append(&mut list, slice_subrange(body, i + 1, next));
        list.push(sign);
        if next < end {
            list.push(COMMA);
        }
        i = next;
    }
    Ok(list)
}

/// Stripping the line feed leaves a well-formed walk well formed, and takes
/// no marker from it.
proof fn lemma_strip_newline(walk: Seq<u8>)
    requires
        well_formed_walk(walk),
    ensures
        well_formed_walk(strip_newline(walk)),
        count(strip_newline(walk), Delimiter::Marker) == count(walk, Delimiter::Marker),
        forall|p: int|
            0 <= p < walk.len() && Delimiter::Marker.accepts(#[trigger] walk[p]) ==> p
                < strip_newline(walk).len(),
{
    let body = strip_newline(walk);
    if body.len() < walk.len() {
        let feed = seq![NEWLINE];
        assert(walk =~= body + feed);
        lemma_count_concat(body, feed, Delimiter::Marker);
        assert(count(feed.skip(1), Delimiter::Marker) == 0);
    }
}

/// The first step of a walk ends where the next begins: what follows its
/// identifier is a well-formed walk, and the step holds one marker if it
/// begins with one.
proof fn lemma_first_step(w: Seq<u8>)
    requires
        w.len() > 0,
    ensures
        ({
            let n = run_len(w.skip(1), Delimiter::Marker) as int;
            &&& 1 + n <= w.len()
            &&& forall|i: int| 1 <= i < 1 + n ==> !Delimiter::Marker.accepts(#[trigger] w[i])
            &&& well_formed_walk(w.skip(1 + n))
            &&& Delimiter::Marker.accepts(w[0]) ==> count(w.take(1 + n), Delimiter::Marker) == 1
        }),
{
    let t = w.skip(1);
    let n = run_len(t, Delimiter::Marker) as int;
    lemma_run_len(t, Delimiter::Marker);
    assert forall|i: int| 1 <= i < 1 + n implies !Delimiter::Marker.accepts(#[trigger] w[i]) by {
        assert(w[i] == t[i - 1]);
    }
    assert(w.take(1 + n).skip(1) =~= t.take(n));
    lemma_count_zero(t.take(n), Delimiter::Marker);
}

/// A well-formed walk has one token for each of its markers.
pub proof fn lemma_walk_tokens_len(w: Seq<u8>)
    requires
        well_formed_walk(w),
    ensures
        walk_tokens(w).len() == count(w, Delimiter::Marker),
    decreases w.len(),
{
    if w.len() > 0 {
        let n = run_len(w.skip(1), Delimiter::Marker) as int;
        lemma_first_step(w);
        lemma_walk_tokens_len(w.skip(1 + n));
        lemma_count_split_at(w, 1 + n, Delimiter::Marker);
    }
}

/// In a well-formed walk, the marker at position `p` begins the token whose
/// number is the number of markers before `p`. That token is the identifier
/// which follows the marker, up to the next marker or the end, and then the
/// sign of the marker.
pub proof fn lemma_walk_token_of_marker(w: Seq<u8>, p: int)
    requires
        well_formed_walk(w),
        0 <= p < w.len(),
        Delimiter::Marker.accepts(w[p]),
    ensures
        ({
            let k = count(w.take(p), Delimiter::Marker) as int;
            let end = p + 1 + run_len(w.skip(p + 1), Delimiter::Marker);
            &&& k < walk_tokens(w).len()
            &&& end <= w.len()
            &&& walk_tokens(w)[k] == w.subrange(p + 1, end).push(sign_of(w[p]))
        }),
    decreases w.len(),
{
    let n = run_len(w.skip(1), Delimiter::Marker) as int;
    lemma_first_step(w);
    if p > 0 {
        let rest = w.skip(1 + n);
        let q = p - (1 + n);
        lemma_walk_token_of_marker(rest, q);
        assert(w.take(p) =~= w.take(1 + n) + rest.take(q));
        lemma_count_concat(w.take(1 + n), rest.take(q), Delimiter::Marker);
        assert(rest.skip(q + 1) =~= w.skip(p + 1));
    }
}

/// The tokens of a walk without commas hold no comma.
proof fn lemma_walk_tokens_hold_no_comma(w: Seq<u8>)
    requires
        forall|i: int| 0 <= i < w.len() ==> !Delimiter::Comma.accepts(#[trigger] w[i]),
    ensures
        forall|k: int, i: int|
            0 <= k < walk_tokens(w).len() && 0 <= i < walk_tokens(w)[k].len()
                ==> !Delimiter::Comma.accepts(#[trigger] walk_tokens(w)[k][i]),
    decreases w.len(),
{
    if w.len() > 0 {
        let n = run_len(w.skip(1), Delimiter::Marker) as int;
        lemma_first_step(w);
        let rest = w.skip(1 + n);
        lemma_walk_tokens_hold_no_comma(rest);
        let tokens = walk_tokens(w);
        assert forall|k: int, i: int|
            0 <= k < tokens.len() && 0 <= i < tokens[k].len() implies !Delimiter::Comma.accepts(
            #[trigger] tokens[k][i],
        ) by {
            if k > 0 {
                assert(tokens[k] == walk_tokens(rest)[k - 1]);
            }
        }
    }
}

/// Round trip. Where no identifier of a well-formed walk holds a comma, the
/// tokens that stand between the commas of its step list are the tokens of
/// its steps: one for each step, in the order of the walk.
///
/// A comma in an identifier is not escaped, so the step list of such a walk
/// splits into more tokens than the walk has steps.
pub proof fn lemma_list_tokens(walk: Seq<u8>)
    requires
        well_formed_walk(walk),
        count(walk, Delimiter::Comma) == 0,
    ensures
        list_tokens(step_list(walk)) == walk_tokens(strip_newline(walk)),
{
    let body = strip_newline(walk);
    let tokens = walk_tokens(body);
    lemma_count_zero(walk, Delimiter::Comma);
    lemma_walk_tokens_hold_no_comma(body);
    if tokens.len() > 0 {
        lemma_split_join(tokens, COMMA, Delimiter::Comma);
    }
}

/// Step count. The step list of a well-formed walk without commas holds as
/// many comma-separated tokens as the walk field holds orientation markers.
pub proof fn lemma_step_count(walk: Seq<u8>)
    requires
        well_formed_walk(walk),
        count(walk, Delimiter::Comma) == 0,
    ensures
        list_tokens(step_list(walk)).len() == count(walk, Delimiter::Marker),
{
    lemma_list_tokens(walk);
    lemma_strip_newline(walk);
    lemma_walk_tokens_len(strip_newline(walk));
}

/// Sign mapping. The marker at position `p` of a well-formed walk field
/// gives the token of its step the identifier that follows it and then its
/// sign: `+` for `>`, `-` for `<`. The token is the one whose number is the
/// number of markers before `p`; where the walk holds no comma, it is the
/// token at that place between the commas of the step list.
pub proof fn lemma_sign_mapping(walk: Seq<u8>, p: int)
    requires
        well_formed_walk(walk),
        0 <= p < walk.len(),
        Delimiter::Marker.accepts(walk[p]),
    ensures
        ({
            let body = strip_newline(walk);
            let tokens = walk_tokens(body);
            let k = count(walk.take(p), Delimiter::Marker) as int;
            let end = p + 1 + run_len(body.skip(p + 1), Delimiter::Marker);
            &&& k < tokens.len()
            &&& p < end <= body.len()
            &&& tokens[k].drop_last() == body.subrange(p + 1, end)
            &&& walk[p] == FORWARD ==> tokens[k].last() == PLUS
            &&& walk[p] == REVERSE ==> tokens[k].last() == MINUS
            &&& count(walk, Delimiter::Comma) == 0 ==> list_tokens(step_list(walk))[k] == tokens[k]
        }),
{
    let body = strip_newline(walk);
    assert(body.take(p) =~= walk.take(p));
    lemma_walk_token_of_marker(body, p);
    if count(walk, Delimiter::Comma) == 0 {
        lemma_list_tokens(walk);
    }
}

} // verus!
