//! Delimiting bytes of the GFA text format and scanning for them.

use vstd::prelude::*;

verus! {

/// The tab, `\t`, between the fields of a line.
pub const TAB: u8 = 0x09;

/// The line feed, `\n`, at the end of a record.
pub const NEWLINE: u8 = 0x0a;

/// The marker `>` of a step taken in forward orientation.
pub const FORWARD: u8 = 0x3e;

/// The marker `<` of a step taken in reverse orientation.
pub const REVERSE: u8 = 0x3c;

/// The comma, `,`, between the steps of a path.
pub const COMMA: u8 = 0x2c;

/// The bytes at which a piece of input ends.
#[derive(Clone, Copy, Debug, PartialEq, Eq, Structural)]
pub enum Delimiter {
    /// A tab, which ends a field of a line.
    Tab,
    /// A line feed, which ends a record of a stream.
    Newline,
    /// An orientation marker, `>` or `<`, which starts a step of a walk and so
    /// ends the identifier of the step before it.
    Marker,
    /// A comma, which ends a step in the step list of a path.
    Comma,
}

impl Delimiter {
    /// Whether `b` is a delimiter of this kind.
    pub open spec fn accepts(self, b: u8) -> bool {
        match self {
            Delimiter::Tab => b == TAB,
            Delimiter::Newline => b == NEWLINE,
            Delimiter::Marker => b == FORWARD || b == REVERSE,
            Delimiter::Comma => b == COMMA,
        }
    }

    /// Tests whether `b` is a delimiter of this kind.
    pub fn test(self, b: u8) -> (hit: bool)
        ensures
            hit == self.accepts(b),
    {
        match self {
            Delimiter::Tab => b == TAB,
            Delimiter::Newline => b == NEWLINE,
            Delimiter::Marker => b == FORWARD || b == REVERSE,
            Delimiter::Comma => b == COMMA,
        }
    }
}

/// Length of the longest prefix of `s` that holds no delimiter of kind `d`.
pub open spec fn run_len(s: Seq<u8>, d: Delimiter) -> nat
    decreases s.len(),
{
    if s.len() == 0 || d.accepts(s[0]) {
        0
    } else {
        1 + run_len(s.skip(1), d)
    }
}

/// `run_len(s, d)` is the one position in `s` that is either its end or holds a
/// delimiter, with no delimiter before it.
pub proof fn lemma_run_len(s: Seq<u8>, d: Delimiter)
    ensures
        run_len(s, d) <= s.len(),
        forall|i: int| 0 <= i < run_len(s, d) ==> !d.accepts(#[trigger] s[i]),
        run_len(s, d) < s.len() ==> d.accepts(s[run_len(s, d) as int]),
    decreases s.len(),
{
    if s.len() > 0 && !d.accepts(s[0]) {
        let t = s.skip(1);
        lemma_run_len(t, d);
        assert forall|i: int| 0 <= i < run_len(s, d) implies !d.accepts(#[trigger] s[i]) by {
            if i > 0 {
                assert(s[i] == t[i - 1]);
            }
        }
    }
}

/// A position that is delimiter-free before it and stops at a delimiter or at
/// the end is `run_len(s, d)`.
pub proof fn lemma_run_len_is(s: Seq<u8>, d: Delimiter, n: int)
    requires
        0 <= n <= s.len(),
        forall|i: int| 0 <= i < n ==> !d.accepts(#[trigger] s[i]),
        n < s.len() ==> d.accepts(s[n]),
    ensures
        run_len(s, d) == n,
    decreases s.len(),
{
    if s.len() > 0 && !d.accepts(s[0]) {
        lemma_run_len_is(s.skip(1), d, n - 1);
    }
}

/// Number of delimiters of kind `d` in `s`.
pub open spec fn count(s: Seq<u8>, d: Delimiter) -> nat
    decreases s.len(),
{
    if s.len() == 0 {
        0
    } else if d.accepts(s[0]) {
        1 + count(s.skip(1), d)
    } else {
        count(s.skip(1), d)
    }
}

/// A sequence holds no delimiter exactly when it counts none.
pub proof fn lemma_count_zero(s: Seq<u8>, d: Delimiter)
    ensures
        count(s, d) == 0 <==> forall|i: int| 0 <= i < s.len() ==> !d.accepts(#[trigger] s[i]),
    decreases s.len(),
{
    if s.len() > 0 {
        let t = s.skip(1);
        lemma_count_zero(t, d);
        if count(s, d) == 0 {
            assert forall|i: int| 0 <= i < s.len() implies !d.accepts(#[trigger] s[i]) by {
                if i > 0 {
                    assert(s[i] == t[i - 1]);
                }
            }
        }
        if forall|i: int| 0 <= i < s.len() ==> !d.accepts(#[trigger] s[i]) {
            assert(forall|i: int| 0 <= i < t.len() ==> !d.accepts(#[trigger] t[i]));
        }
    }
}

/// The delimiters of a concatenation are those of its two parts.
pub proof fn lemma_count_concat(a: Seq<u8>, b: Seq<u8>, d: Delimiter)
    ensures
        count(a + b, d) == count(a, d) + count(b, d),
    decreases a.len(),
{
    if a.len() > 0 {
        assert((a + b).skip(1) =~= a.skip(1) + b);
        lemma_count_concat(a.skip(1), b, d);
    }
}

/// The delimiters of a sequence are those before and those from any position `n`.
pub proof fn lemma_count_split_at(s: Seq<u8>, n: int, d: Delimiter)
    requires
        0 <= n <= s.len(),
    ensures
        count(s, d) == count(s.take(n), d) + count(s.skip(n), d),
{
    assert(s =~= s.take(n) + s.skip(n));
    lemma_count_concat(s.take(n), s.skip(n), d);
}

/// Finds the first delimiter of kind `d` at or after `start`, or the end of
/// `s` where none follows. A `start` beyond the end is handed back.
pub fn find_delimiter(s: &[u8], start: usize, d: Delimiter) -> (end: usize)
    ensures
        start <= s.len() ==> end == start + run_len(s@.skip(start as int), d) && end <= s.len(),
        start > s.len() ==> end == start,
{
    let mut end: usize = start;
    while end < s.len() && !d.test(s[end])
        invariant
            start <= end,
            start <= s.len() ==> end <= s.len(),
            start > s.len() ==> end == start,
            forall|i: int| start <= i < end ==> !d.accepts(#[trigger] s@[i]),
        decreases s.len() - end,
    {
        end = end + 1;
    }
    proof {
        if start <= s.len() {
            lemma_run_len_is(s@.skip(start as int), d, end - start);
        }
    }
    end
}

} // verus!
