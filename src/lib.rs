//! Matching and naming of loose subtitle files against the video files of one
//! media directory: episode codes, title prefixes, languages, deduplication
//! and the names of the links that tie a subtitle to a video.

pub mod checks;
pub mod dedup;
pub mod error;
pub mod kinds;
pub mod language;
pub mod media;
pub mod names;
pub mod pairing;
pub mod paths;
pub mod plan;
pub mod series;
pub mod text;
