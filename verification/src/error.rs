//! Why a walk line cannot be rewritten.

use vstd::prelude::*;

verus! {

/// A field that a walk line holds after its tag, in the order of the line.
#[derive(Clone, Copy, Debug, PartialEq, Eq, Structural)]
pub enum WalkField {
    /// The sample identifier.
    SampleId,
    /// The haplotype identifier.
    HaploId,
    /// The sequence identifier.
    SeqId,
    /// The start position on the sequence.
    SeqStart,
    /// The end position on the sequence.
    SeqEnd,
    /// The walk itself.
    Walk,
}

impl WalkField {
    /// The name of the field in the layout of a walk line.
    pub open spec fn name_text(self) -> Seq<char> {
        match self {
            WalkField::SampleId => "sample_id"@,
            WalkField::HaploId => "haplo_id"@,
            WalkField::SeqId => "seq_id"@,
            WalkField::SeqStart => "seq_start"@,
            WalkField::SeqEnd => "seq_end"@,
            WalkField::Walk => "walk"@,
        }
    }

    /// Names the field, for a message on a line that lacks it.
    pub fn name(self) -> (name: &'static str)
        ensures
            name@ == self.name_text(),
    {
        match self {
            WalkField::SampleId => "sample_id",
            WalkField::HaploId => "haplo_id",
            WalkField::SeqId => "seq_id",
            WalkField::SeqStart => "seq_start",
            WalkField::SeqEnd => "seq_end",
            WalkField::Walk => "walk",
        }
    }
}

/// A malformed walk line. No such line is repaired: whoever drives the
/// transformation ends the run on it.
#[derive(Clone, Copy, Debug, PartialEq, Eq, Structural)]
pub enum WalkError {
    /// The line ends before this field.
    MissingField(WalkField),
    /// The walk begins with the byte `observed`, where `>` or `<` must stand.
    UnexpectedMarker { observed: u8 },
}

} // verus!
