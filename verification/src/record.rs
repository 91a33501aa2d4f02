//! The fields of a walk line, and the names made of them.
//!
//! A walk line holds, separated by tabs: the tag `W`, the sample identifier,
//! the haplotype identifier, the sequence identifier, the start and the end
//! position on the sequence, and the walk. Fields after the walk are ignored.
//! A field is bytes without further meaning, and may be empty.

use crate::delimiter::{Delimiter, TAB};
use crate::error::{WalkError, WalkField};
use crate::split::{append, split, split_first};
use crate::steps::MINUS;
use vstd::prelude::*;

verus! {

/// The `#` between the sample, the haplotype and the sequence in a path name.
pub const HASH: u8 = 0x23;

/// The `:` between the sequence and its range in a path name.
pub const COLON: u8 = 0x3a;

/// The literal `$gfaffix` at the end of every synthesized path name. It keeps
/// the name apart from the names of the paths that a graph already has.
pub const NAME_SUFFIX: [u8; 8] = [0x24, 0x67, 0x66, 0x61, 0x66, 0x66, 0x69, 0x78];

/// The fields of a walk line as values: five that identify the walk, and the
/// walk itself.
pub struct WalkRecord {
    pub sample_id: Seq<u8>,
    pub haplo_id: Seq<u8>,
    pub seq_id: Seq<u8>,
    pub seq_start: Seq<u8>,
    pub seq_end: Seq<u8>,
    pub walk: Seq<u8>,
}

impl WalkRecord {
    /// The identity of the walk as its line gave it: the five identity fields
    /// in their order, joined by tabs.
    pub open spec fn identity(self) -> Seq<u8> {
        self.sample_id + seq![TAB] + self.haplo_id + seq![TAB] + self.seq_id + seq![TAB]
            + self.seq_start + seq![TAB] + self.seq_end
    }

    /// The path name synthesized for the walk:
    /// `sample#haplotype#sequence:start-end$gfaffix`.
    pub open spec fn path_name(self) -> Seq<u8> {
        self.sample_id + seq![HASH] + self.haplo_id + seq![HASH] + self.seq_id + seq![COLON]
            + self.seq_start + seq![MINUS] + self.seq_end + NAME_SUFFIX@
    }
}

/// The field that is missing from a line with only `present` fields, the tag
/// counted among them.
pub open spec fn missing_field(present: int) -> WalkField {
    if present <= 1 {
        WalkField::SampleId
    } else if present == 2 {
        WalkField::HaploId
    } else if present == 3 {
        WalkField::SeqId
    } else if present == 4 {
        WalkField::SeqStart
    } else if present == 5 {
        WalkField::SeqEnd
    } else {
        WalkField::Walk
    }
}

/// The record that `line` holds in the six fields after its first, or the
/// first of them that it lacks.
pub open spec fn walk_record(line: Seq<u8>) -> Result<WalkRecord, WalkError> {
    let fields = split(line, Delimiter::Tab);
    if fields.len() < 7 {
        Err(WalkError::MissingField(missing_field(fields.len() as int)))
    } else {
        Ok(
            WalkRecord {
                sample_id: fields[1],
                haplo_id: fields[2],
                seq_id: fields[3],
                seq_start: fields[4],
                seq_end: fields[5],
                walk: fields[6],
            },
        )
    }
}

/// The fields of one walk line, borrowed from the line.
#[derive(Clone, Copy, Debug)]
pub struct WalkFields<'a> {
    pub sample_id: &'a [u8],
    pub haplo_id: &'a [u8],
    pub seq_id: &'a [u8],
    pub seq_start: &'a [u8],
    pub seq_end: &'a [u8],
    pub walk: &'a [u8],
}

impl<'a> View for WalkFields<'a> {
    type V = WalkRecord;

    open spec fn view(&self) -> WalkRecord {
        WalkRecord {
            sample_id: self.sample_id@,
            haplo_id: self.haplo_id@,
            seq_id: self.seq_id@,
            seq_start: self.seq_start@,
            seq_end: self.seq_end@,
            walk: self.walk@,
        }
    }
}

impl<'a> WalkFields<'a> {
    /// Builds the identity of the walk: its five identity fields, joined by
    /// tabs.
    pub fn identity(&self) -> (identity: Vec<u8>)
        ensures
            identity@ == self@.identity(),
    {
        let mut identity: Vec<u8> = Vec::new();
        append(&mut identity, self.sample_id);
        identity.push(TAB);
        append(&mut identity, self.haplo_id);
        identity.push(TAB);
        append(&mut identity, self.seq_id);
        identity.push(TAB);
        append(&mut identity, self.seq_start);
        identity.push(TAB);
        append(&mut identity, self.seq_end);
        identity
    }

    /// Builds the path name of the walk.
    pub fn path_name(&self) -> (name: Vec<u8>)
        ensures
            name@ == self@.path_name(),
    {
        let mut name: Vec<u8> = Vec::new();
        append(&mut name, self.sample_id);
        name.push(HASH);
        append(&mut name, self.haplo_id);
        name.push(HASH);
        append(&mut name, self.seq_id);
        name.push(COLON);
        append(&mut name, self.seq_start);
        name.push(MINUS);
        append(&mut name, self.seq_end);
        append(&mut name, NAME_SUFFIX.as_slice());
        name
    }
}

/// Names the field that a line with only `present` fields lacks.
fn missing(present: usize) -> (field: WalkField)
    ensures
        field == missing_field(present as int),
{
    if present <= 1 {
        WalkField::SampleId
    } else if present == 2 {
        WalkField::HaploId
    } else if present == 3 {
        WalkField::SeqId
    } else if present == 4 {
        WalkField::SeqStart
    } else if present == 5 {
        WalkField::SeqEnd
    } else {
        WalkField::Walk
    }
}

/// Splits a walk line into its fields. The first field, which holds the tag,
/// is passed over, and so is whatever follows the walk.
///
/// Fails on a line that ends early, and names the first field that it lacks.
pub fn parse_walk_line<'a>(line: &'a [u8]) -> (res: Result<WalkFields<'a>, WalkError>)
    ensures
        match res {
            Ok(fields) => walk_record(line@) == Ok::<WalkRecord, WalkError>(fields@),
            Err(e) => walk_record(line@) == Err::<WalkRecord, WalkError>(e),
        },
{
    let fields = split_first(line, Delimiter::Tab, 7);
    if fields.len() < 7 {
        return Err(WalkError::MissingField(missing(fields.len())));
    }
    Ok(
        WalkFields {
            sample_id: fields[1],
            haplo_id: fields[2],
            seq_id: fields[3],
            seq_start: fields[4],
            seq_end: fields[5],
            walk: fields[6],
        },
    )
}

/// Every synthesized path name ends with the suffix `$gfaffix`, so it is no
/// name that ends otherwise.
pub proof fn lemma_path_name_ends_with_suffix(record: WalkRecord)
    ensures
        record.path_name().len() >= NAME_SUFFIX@.len(),
        record.path_name().skip(record.path_name().len() - NAME_SUFFIX@.len()) == NAME_SUFFIX@,
{
    let name = record.path_name();
    assert(name.skip(name.len() - NAME_SUFFIX@.len()) =~= NAME_SUFFIX@);
}

} // verus!
