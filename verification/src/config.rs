//! Server configuration.
use vstd::prelude::*;

verus! {

/// Where videos and thumbnails live, and the port to listen on.
#[derive(Clone)]
pub struct Config {
    pub video_path: String,
    pub thumbnail_path: String,
    pub port: u16,
}

} // verus!
