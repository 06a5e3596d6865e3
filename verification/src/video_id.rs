//! Identifier of a video.
use vstd::prelude::*;

verus! {

/// The database identifier of a video.
#[derive(Clone, Copy, PartialEq, Eq, Structural, Hash, Debug)]
pub struct VideoId(pub u32);

impl From<u32> for VideoId {
    fn from(value: u32) -> (id: VideoId) {
        VideoId(value)
    }
}

impl vstd::std_specs::convert::FromSpecImpl<u32> for VideoId {
    open spec fn obeys_from_spec() -> bool {
        true
    }

    open spec fn from_spec(v: u32) -> VideoId {
        VideoId(v)
    }
}

/// The identifier that a database integer column denotes: the low 32 bits
/// of the stored value, as an `i64 as u32` conversion keeps them.
pub fn video_id_from_column(value: i64) -> (id: VideoId)
    ensures
        id.0 == value as u32,
{
    VideoId(value as u32)
}

} // verus!
