//! The registry of the path names given to walks.
//!
//! The registry is an `FxHashMap` of the `rustc_hash` crate, from a
//! synthesized path name to the identity of the walk that was given it. It is
//! built up line by line and never read here: it is kept for whoever needs
//! the identities later. Nothing in this file is proved. What the map does is
//! stated as the sources of the crate and the documentation of the standard
//! library show it, over the name [`registry_entries`] for its contents.

use vstd::prelude::*;

verus! {

/// `rustc_hash::FxBuildHasher`, the hasher factory that makes a hash map of
/// the standard library an `FxHashMap`. Its values are opaque.
#[verifier::external_type_specification]
#[verifier::external_body]
pub struct ExFxBuildHasher(rustc_hash::FxBuildHasher);

/// The contents of a registry: the identity recorded under each path name,
/// both as bytes. The map tells its keys apart by their bytes, and the hasher
/// of `rustc_hash` hashes equal bytes alike, so the contents are a map from
/// bytes to bytes.
pub uninterp spec fn registry_entries(registry: rustc_hash::FxHashMap<Vec<u8>, Vec<u8>>) -> Map<Seq<u8>, Seq<u8>>;

/// Records `identity` under `name`, by `HashMap::insert` of the standard
/// library on an `FxHashMap`. As documented there, a name that the map held
/// before is given the new identity, and every other entry stays. The
/// identity that the name had before is dropped.
#[verifier::external_body]
pub(crate) fn registry_insert(
    registry: &mut rustc_hash::FxHashMap<Vec<u8>, Vec<u8>>,
    name: Vec<u8>,
    identity: Vec<u8>,
)
    ensures
        registry_entries(*final(registry)) == registry_entries(*old(registry)).insert(
            name@,
            identity@,
        ),
{
    registry.insert(name, identity);
}

} // verus!
