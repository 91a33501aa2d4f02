//! The transformation of one line: a walk line becomes a path line, every
//! other line stays as it is.

use crate::delimiter::TAB;
use crate::error::WalkError;
use crate::record::{parse_walk_line, walk_record, WalkRecord};
use crate::registry::{registry_entries, registry_insert};
use crate::split::append;
use crate::steps::{encode_steps, step_list, well_formed_walk};
use rustc_hash::FxHashMap;
use vstd::prelude::*;

verus! {

/// The tag `W` of a walk line.
pub const WALK_TAG: u8 = 0x57;

/// The tag `P` of a path line.
pub const PATH_TAG: u8 = 0x50;

/// The `*` in the last field of a path line: the overlaps between the steps
/// of the path are not given.
pub const NO_OVERLAPS: u8 = 0x2a;

/// A line is a walk line if its first byte is the tag `W`.
pub open spec fn is_walk_line(line: Seq<u8>) -> bool {
    line.len() > 0 && line[0] == WALK_TAG
}

/// The path line for a walk: the tag `P`, the synthesized path name, the step
/// list and `*`, separated by tabs. It ends without a line feed.
pub open spec fn path_line(record: WalkRecord) -> Seq<u8> {
    seq![PATH_TAG, TAB] + record.path_name() + seq![TAB] + step_list(record.walk) + seq![
        TAB,
        NO_OVERLAPS,
    ]
}

/// What `line` is transformed to: itself unless it is a walk line, else the
/// path line of its record, or the reason why it has none.
pub open spec fn transformed(line: Seq<u8>) -> Result<Seq<u8>, WalkError> {
    if !is_walk_line(line) {
        Ok(line)
    } else {
        match walk_record(line) {
            Err(e) => Err(e),
            Ok(record) => if well_formed_walk(record.walk) {
                Ok(path_line(record))
            } else {
                Err(WalkError::UnexpectedMarker { observed: record.walk[0] })
            },
        }
    }
}

/// The entries of a registry after `line` was transformed: a walk line that
/// holds all its fields records its identity under its path name, in place of
/// what the registry held under that name; any other line records nothing.
/// The identity is recorded before the walk is read, so also for a walk that
/// then proves malformed.
pub open spec fn registry_after(line: Seq<u8>, entries: Map<Seq<u8>, Seq<u8>>) -> Map<
    Seq<u8>,
    Seq<u8>,
> {
    if is_walk_line(line) {
        match walk_record(line) {
            Err(_) => entries,
            Ok(record) => entries.insert(record.path_name(), record.identity()),
        }
    } else {
        entries
    }
}

/// Transforms one line of a GFA stream.
///
/// A line that does not begin with `W` is handed back as it came. A walk line
/// is rewritten as a path line under a synthesized name, and `walk_map` records
/// under that name the identity that the line gave the walk. What the registry
/// held before has no part in the line that comes out.
///
/// Fails on a walk line that lacks a field, and on a walk that does not begin
/// with an orientation marker.
pub fn transform_walks(line: Vec<u8>, walk_map: &mut FxHashMap<Vec<u8>, Vec<u8>>) -> (res: Result<
    Vec<u8>,
    WalkError,
>)
    ensures
        match res {
            Ok(out) => transformed(line@) == Ok::<Seq<u8>, WalkError>(out@),
            Err(e) => transformed(line@) == Err::<Seq<u8>, WalkError>(e),
        },
        !is_walk_line(line@) ==> res == Ok::<Vec<u8>, WalkError>(line) && registry_entries(
            *final(walk_map),
        ) == registry_entries(*old(walk_map)),
        registry_entries(*final(walk_map)) == registry_after(
            line@,
            registry_entries(*old(walk_map)),
        ),
{
    if line.len() == 0 || line[0] != WALK_TAG {
        return Ok(line);
    }
    let fields = match parse_walk_line(line.as_slice()) {
        Ok(fields) => fields,
        Err(e) => {
            return Err(e);
        },
    };
    let identity = fields.identity();
    let name = fields.path_name();
    registry_insert(walk_map, name.clone(), identity);
    let steps = match encode_steps(fields.walk) {
        Ok(steps) => steps,
        Err(e) => {
            return Err(e);
        },
    };
    let mut out: Vec<u8> = Vec::new();
    out.push(PATH_TAG);
    out.push(TAB);
    append(&mut out, name.as_slice());
    out.push(TAB);
    append(&mut out, steps.as_slice());
    out.push(TAB);
    out.push(NO_OVERLAPS);
    assert(out@ =~= path_line(fields@));
    Ok(out)
}

/// Naming is idempotent. Walk lines that agree on their five identity
/// fields are given the same path name. Once one of them is transformed, the
/// registry holds under that name the identity that they share, and
/// transforming the other leaves the registry as it is.
pub proof fn lemma_naming_is_idempotent(
    a: Seq<u8>,
    b: Seq<u8>,
    record_a: WalkRecord,
    record_b: WalkRecord,
    entries: Map<Seq<u8>, Seq<u8>>,
)
    requires
        is_walk_line(a),
        is_walk_line(b),
        walk_record(a) == Ok::<WalkRecord, WalkError>(record_a),
        walk_record(b) == Ok::<WalkRecord, WalkError>(record_b),
        record_a.sample_id == record_b.sample_id,
        record_a.haplo_id == record_b.haplo_id,
        record_a.seq_id == record_b.seq_id,
        record_a.seq_start == record_b.seq_start,
        record_a.seq_end == record_b.seq_end,
    ensures
        record_a.path_name() == record_b.path_name(),
        registry_after(a, entries).contains_key(record_a.path_name()),
        registry_after(a, entries)[record_a.path_name()] == record_a.identity(),
        record_a.identity() == record_b.identity(),
        registry_after(b, registry_after(a, entries)) == registry_after(a, entries),
{
    let name = record_a.path_name();
    let identity = record_a.identity();
    assert(entries.insert(name, identity).insert(name, identity) =~= entries.insert(
        name,
        identity,
    ));
}

} // verus!
