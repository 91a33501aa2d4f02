//! Rewrites the haplotype walks of a GFA stream as paths.
//!
//! A GFA stream describes a genome graph line by line. A walk line (`W`)
//! gives a haplotype as a walk through the graph, a path line (`P`) gives a
//! path. [`transform_walks`] turns a walk line into the path line that takes
//! the same steps, under a name synthesized from the fields that identify the
//! walk, and hands every other line back unchanged. [`ByteLineReader`] cuts
//! bytes into the lines that it takes.

pub mod delimiter;
pub mod error;
pub mod reader;
pub mod record;
pub mod registry;
pub mod split;
pub mod steps;
pub mod transform;

pub use crate::error::{WalkError, WalkField};
pub use crate::reader::{record_from_read, ByteLineReader, ReadOutcome};
pub use crate::transform::transform_walks;
