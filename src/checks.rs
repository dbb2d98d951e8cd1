//! Whether the videos of a directory are versions of one and the same media.

use vstd::prelude::*;

use crate::error::MediaError;
use crate::media::Video;
use crate::names::{is_prefix, starts_with, strip_quality_suffix, title_of};

verus! {

/// Every video is an episode of a series.
pub open spec fn spec_all_a_series(videos: Seq<Video>) -> bool {
    forall|i: int| 0 <= i < videos.len() ==> (#[trigger] videos[i]).series_info is Some
}

/// No video is an episode of a series.
pub open spec fn spec_no_series(videos: Seq<Video>) -> bool {
    forall|i: int| 0 <= i < videos.len() ==> (#[trigger] videos[i]).series_info is None
}

/// Every video after the first has a stem that starts with the title of the
/// first video's stem.
pub open spec fn spec_same_media(videos: Seq<Video>) -> bool {
    forall|i: int|
        1 <= i < videos.len() ==> is_prefix(title_of(videos[0].stem@), #[trigger] videos[i].stem@)
}

/// The outcome of checking the videos of one directory.
pub open spec fn validation(videos: Seq<Video>) -> Result<(), MediaError> {
    if videos.len() == 0 {
        Err(MediaError::NoVideosFound)
    } else if videos.len() == 1 {
        Ok(())
    } else if !(spec_no_series(videos) || spec_all_a_series(videos)) {
        Err(MediaError::MixedSeriesAndMovies)
    } else if !spec_same_media(videos) {
        Err(MediaError::InconsistentTitles)
    } else {
        Ok(())
    }
}

/// Whether every video is an episode of a series.
pub fn all_a_series(videos: &[Video]) -> (r: bool)
    ensures
        r == spec_all_a_series(videos@),
{
    let mut i: usize = 0;
    while i < videos.len()
        invariant
            i <= videos@.len(),
            forall|j: int| 0 <= j < i ==> (#[trigger] videos@[j]).series_info is Some,
        decreases videos@.len() - i,
    {
        if !videos[i].part_of_series() {
            return false;
        }
        i = i + 1;
    }
    true
}

/// Whether no video is an episode of a series.
pub fn no_series(videos: &[Video]) -> (r: bool)
    ensures
        r == spec_no_series(videos@),
{
    let mut i: usize = 0;
    while i < videos.len()
        invariant
            i <= videos@.len(),
            forall|j: int| 0 <= j < i ==> (#[trigger] videos@[j]).series_info is None,
        decreases videos@.len() - i,
    {
        if videos[i].part_of_series() {
            return false;
        }
        i = i + 1;
    }
    true
}

/// Whether every video's stem starts with the title of the first video's
/// stem, that is, with that stem once a quality suffix is cut from it.
pub fn different_versions_same_media(videos: &[Video]) -> (r: bool)
    ensures
        r == spec_same_media(videos@),
{
    if videos.len() == 0 {
        return true;
    }
    let title = strip_quality_suffix(videos[0].stem.as_str());
    let mut i: usize = 1;
    while i < videos.len()
        invariant
            1 <= i <= videos@.len(),
            title@ == title_of(videos@[0].stem@),
            forall|j: int|
                1 <= j < i ==> is_prefix(title_of(videos@[0].stem@), #[trigger] videos@[j].stem@),
        decreases videos@.len() - i,
    {
        if !starts_with(videos[i].stem.as_str(), title.as_str()) {
            return false;
        }
        i = i + 1;
    }
    true
}

/// Checks the videos of one directory before anything is linked: there is at
/// least one; where there are several, they are all episodes or all not, and
/// all share the first video's title.
pub fn validate_videos(videos: &[Video]) -> (r: Result<(), MediaError>)
    ensures
        r == validation(videos@),
{
    if videos.len() == 0 {
        return Err(MediaError::NoVideosFound);
    }
    if videos.len() == 1 {
        return Ok(());
    }
    if !(no_series(videos) || all_a_series(videos)) {
        return Err(MediaError::MixedSeriesAndMovies);
    }
    if !different_versions_same_media(videos) {
        return Err(MediaError::InconsistentTitles);
    }
    Ok(())
}

} // verus!
