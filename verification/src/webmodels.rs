//! Values exchanged with the browser.
use vstd::prelude::*;

use crate::video_id::VideoId;

verus! {

/// A playback position as the browser sends it.
pub struct VideoTimeStamp {
    pub id: VideoId,
    pub timestamp: u32,
}

} // verus!
