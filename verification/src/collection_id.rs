//! Identifier of a video collection.
use vstd::prelude::*;

verus! {

/// The database identifier of a video collection.
#[derive(Clone, Copy, PartialEq, Eq, Structural, Hash, Debug)]
pub struct CollectionId(pub u32);

impl From<u32> for CollectionId {
    fn from(value: u32) -> (id: CollectionId) {
        CollectionId(value)
    }
}

impl vstd::std_specs::convert::FromSpecImpl<u32> for CollectionId {
    open spec fn obeys_from_spec() -> bool {
        true
    }

    open spec fn from_spec(v: u32) -> CollectionId {
        CollectionId(v)
    }
}

/// The identifier that a database integer column denotes: the low 32 bits
/// of the stored value, as an `i64 as u32` conversion keeps them.
pub fn collection_id_from_column(value: i64) -> (id: CollectionId)
    ensures
        id.0 == value as u32,
{
    CollectionId(value as u32)
}

} // verus!
