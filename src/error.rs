//! Why a directory or a single file could not be handled.

use vstd::prelude::*;

verus! {

#[derive(Clone, Debug, PartialEq, Eq)]
pub enum MediaError {
    /// The directory holds no video.
    NoVideosFound,
    /// Some videos carry an episode code and others do not.
    MixedSeriesAndMovies,
    /// The videos do not all share the first video's title.
    InconsistentTitles,
    /// No language has this name.
    UnknownLanguage(String),
    /// The first episode code of a path names season or episode zero.
    MalformedEpisodeIdentifier,
    /// The path has no file name.
    MissingFileName,
    /// The path has no extension.
    MissingExtension,
}

} // verus!
