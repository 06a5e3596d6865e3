//! The stored playback position of a video.
use vstd::prelude::*;

use crate::video_id::VideoId;

verus! {

/// The position, in seconds, at which playback of a video stopped.
pub struct VideoTimeStamp {
    video_id: VideoId,
    timestamp: u64,
}

impl VideoTimeStamp {
    /// A position record with the given fields.
    pub fn new(video_id: VideoId, timestamp: u64) -> (t: VideoTimeStamp)
        ensures
            t.spec_video_id() == video_id.0,
            t.spec_timestamp() == timestamp,
    {
        VideoTimeStamp { video_id, timestamp }
    }

    /// The identifier of the video.
    pub closed spec fn spec_video_id(&self) -> u32 {
        self.video_id.0
    }

    /// The stored position.
    pub closed spec fn spec_timestamp(&self) -> u64 {
        self.timestamp
    }

    pub fn get_video_id(&self) -> (id: VideoId)
        ensures
            id.0 == self.spec_video_id(),
    {
        self.video_id
    }

    pub fn get_timestamp(&self) -> (t: u64)
        ensures
            t == self.spec_timestamp(),
    {
        self.timestamp
    }
}

} // verus!
