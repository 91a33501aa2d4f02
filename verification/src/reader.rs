//! The source of the lines: a stream of bytes, cut into records at its line
//! feeds.
//!
//! [`ByteLineReader`] cuts bytes that are held in memory. Where the bytes come
//! from a stream that is read record by record, and a read may fail,
//! [`record_from_read`] decides what each read yields.

use crate::delimiter::{find_delimiter, lemma_run_len, run_len, Delimiter, NEWLINE};
use crate::split::append;
use vstd::prelude::*;
use vstd::slice::slice_subrange;

verus! {

/// The first record of `s`: its bytes up to its first line feed, and that line
/// feed; all of `s` if it has none.
pub open spec fn first_record(s: Seq<u8>) -> Seq<u8> {
    let n = run_len(s, Delimiter::Newline) as int;
    if n < s.len() {
        s.take(n + 1)
    } else {
        s
    }
}

/// The first record of bytes that are not exhausted is not empty, begins
/// them, holds no line feed before its last byte, and ends with a line feed
/// unless it is the last record and the bytes end without one.
pub proof fn lemma_first_record(s: Seq<u8>)
    requires
        s.len() > 0,
    ensures
        0 < first_record(s).len() <= s.len(),
        first_record(s) == s.take(first_record(s).len() as int),
        forall|i: int| 0 <= i < first_record(s).len() - 1 ==> (#[trigger] first_record(s)[i]) != NEWLINE,
        first_record(s).last() == NEWLINE || first_record(s) == s,
{
    lemma_run_len(s, Delimiter::Newline);
}

/// What one attempt to read a record from a stream reported.
#[derive(Clone, Copy, Debug, PartialEq, Eq, Structural)]
pub enum ReadOutcome {
    /// The read went through and added this number of bytes to the record.
    Read(usize),
    /// The read failed. The record holds what was read until then.
    Failed,
}

/// Decides what a read yields, from what it reported and the record `buf`
/// that it filled.
///
/// The stream is exhausted, and yields nothing more, exactly when a read goes
/// through without a byte. A failed read does not end the stream: the bytes
/// read until the failure, few or none, are yielded as a record like any
/// other. Whoever drives the stream reports the failure, and must not take
/// such a record for a whole one.
pub fn record_from_read(outcome: ReadOutcome, buf: Vec<u8>) -> (record: Option<Vec<u8>>)
    ensures
        outcome == ReadOutcome::Read(0) ==> record is None,
        outcome != ReadOutcome::Read(0) ==> record == Some(buf),
{
    match outcome {
        ReadOutcome::Failed => Some(buf),
        ReadOutcome::Read(n) => if n == 0 {
            None
        } else {
            Some(buf)
        },
    }
}

/// A source of lines over bytes in memory. Its view is the bytes that it has
/// not handed out yet.
pub struct ByteLineReader {
    data: Vec<u8>,
    pos: usize,
}

impl View for ByteLineReader {
    type V = Seq<u8>;

    closed spec fn view(&self) -> Seq<u8> {
        self.data@.skip(self.pos as int)
    }
}

impl ByteLineReader {
    #[verifier::type_invariant]
    spec fn within_data(&self) -> bool {
        self.pos <= self.data@.len()
    }

    /// A source that hands out all of `data`.
    pub fn new(data: Vec<u8>) -> (reader: Self)
        ensures
            reader@ == data@,
    {
        ByteLineReader { data, pos: 0 }
    }

    /// Moves the first record of the remaining bytes to the end of `buf` and
    /// says how many bytes it has: none exactly when no byte remains.
    fn read_record(&mut self, buf: &mut Vec<u8>) -> (n: usize)
        ensures
            n == first_record(old(self)@).len(),
            final(buf)@ == old(buf)@ + first_record(old(self)@),
            final(self)@ == old(self)@.skip(n as int),
    {
        proof {
            use_type_invariant(&*self);
        }
        let start = self.pos;
        let stop = find_delimiter(self.data.as_slice(), start, Delimiter::Newline);
        let end: usize = if stop < self.data.len() {
            stop + 1
        } else {
            stop
        };
        append(buf, slice_subrange(self.data.as_slice(), start, end));
        self.pos = end;
        end - start
    }

    /// Hands out the next record: the remaining bytes up to their first line
    /// feed, and that line feed. The last record ends without a line feed if
    /// the bytes do. There is no next record exactly when no byte remains.
    pub fn next_line(&mut self) -> (record: Option<Vec<u8>>)
        ensures
            match record {
                None => old(self)@.len() == 0 && final(self)@ == old(self)@,
                Some(line) => {
                    &&& 0 < line@.len() <= old(self)@.len()
                    &&& line@ == first_record(old(self)@)
                    &&& final(self)@ == old(self)@.skip(line@.len() as int)
                    &&& line@.last() == NEWLINE || final(self)@.len() == 0
                },
            },
    {
        let mut buf: Vec<u8> = Vec::new();
        let n = self.read_record(&mut buf);
        proof {
            if old(self)@.len() > 0 {
                lemma_first_record(old(self)@);
            }
        }
        record_from_read(ReadOutcome::Read(n), buf)
    }
}

} // verus!
