//! A small video-streaming server library: ranged video delivery, HTML
//! list rendering, collection titles and the in-memory video index.
pub mod collection_id;
pub mod config;
pub mod consts;
pub mod controller;
pub mod escape;
pub mod html_helper;
pub mod queries;
pub mod range_header;
pub mod text;
pub mod thumbnails;
pub mod uncategorized;
pub mod video_collection;
pub mod video_entry;
pub mod video_id;
pub mod video_index;
pub mod video_controller;
pub mod video_time_stamps;
pub mod webmodels;

pub use range_header::RangeHeader;
