//! Constants shared by the server: paths, HTML templates and SQL scripts.
use vstd::prelude::*;

verus! {

/// Largest number of bytes sent for one range request (1 MiB).
pub const CHUNK_SIZE: usize = 1048576;
pub const VIEW_PATH: &'static str = "views";
pub const VIDEO_LIST_HTML: &'static str = r#"
<div class="video-list-item">
    <div class="max-w-sm rounded overflow-hidden focus:outline focus:outline-2 focus:outline-orange-400">
        <a href="{itemLink}"><img src="{thumbnailLink}" class="w-full" alt="cover-picture"></a>
        <div class="flex justify-between"><a href="{itemLink}" class="font-medium text-xl mb-2 grow">{title}</a><a href="{editLink}" class="edit-link">:</a></div>
    </div>
</div>"#;
pub const VIDEO_INDEX_PATH: &'static str = "videoIndex.json";
pub const VIDEO_TIMESTAMPS_PATH: &'static str = "videoTimeStamps.json";
pub const VIDEO_DB_HASH_FILE: &'static str = "video_db.hash";
pub const COLLECTION_DB_HASH_FILE: &'static str = "collection_db.hash";
pub const EMPTY_U8_ARRAY: [u8; 0] = [];
pub const VIDEO_COLLECTION_INDEX_PATH: &'static str = "videoCollectionIndex.json";
pub const DEFAULT_THUMBNAIL_PATH: &'static str = "assets/images/default_thumbnail.png";
pub const DB_URL: &'static str = "DATABASE_URL";
pub const INIT_DB: &'static str = "
CREATE TABLE Videos (
    video_id INTEGER PRIMARY KEY ASC NOT NULL,
    title NVARCHAR(100) NOT NULL,
    file_name NVARCHAR(100) NOT NULL,
    file_type NVARCHAR(10) NOT NULL,
    collection_id INTEGER NOT NULL
);

CREATE INDEX VideosCollectionId ON Videos(collection_id);

CREATE TABLE Collections (
    collection_id INTEGER PRIMARY KEY ASC NOT NULL,
    title NVARCHAR(100) NOT NULL,
    parent_id INTEGER NULL   
);

CREATE INDEX CollectionsParentId ON Collections(parent_id);

CREATE TABLE VideoTimeStamps (
    video_id INTEGER PRIMARY KEY ASC NOT NULL,
    timestamp INTEGER NOT NULL
);  
";
pub const DROP_DB: &'static str = "
DROP INDEX IF EXISTS VideosCollectionId;
DROP TABLE IF EXISTS Videos;
DROP INDEX IF EXISTS CollectionsParentId;
DROP TABLE IF EXISTS Collections;
DROP TABLE IF EXISTS VideoTimeStamps;
";

} // verus!
