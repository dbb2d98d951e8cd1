//! Video and subtitle entries, built from the paths that a scan found.

use vstd::prelude::*;

use crate::error::MediaError;
use crate::language::{iso_codes_of_name, resolve_language, Lang};
use crate::names::{strip_numeric_prefix, without_number_prefix};
use crate::paths::{extension_of_path, file_extension, file_stem, opt_view, stem_of_path};
use crate::series::{episode_of, malformed_code, series_info_of_path, SeriesInfo};

verus! {

/// A video file: its path, its file stem and the episode its path names.
#[derive(Clone, Debug)]
pub struct Video {
    pub path: String,
    pub stem: String,
    pub series_info: Option<SeriesInfo>,
}

impl Video {
    /// The entry holds what its path says.
    pub open spec fn wf(self) -> bool {
        &&& stem_of_path(self.path@) == Some(self.stem@)
        &&& self.series_info == episode_of(self.path@)
    }

    /// The entry for the video at `path`: it fails where the path has no
    /// file name, or where its first episode code names a zero.
    pub fn from_path(path: String) -> (r: Result<Video, MediaError>)
        ensures
            stem_of_path(path@) is None ==> r == Err::<Video, MediaError>(
                MediaError::MissingFileName,
            ),
            stem_of_path(path@) is Some && malformed_code(path@) ==> r == Err::<
                Video,
                MediaError,
            >(MediaError::MalformedEpisodeIdentifier),
            stem_of_path(path@) is Some && !malformed_code(path@) ==> (r matches Ok(v) && v.wf()
                && v.path@ == path@),
    {
        let stem = match file_stem(path.as_str()) {
            Some(s) => s,
            None => return Err(MediaError::MissingFileName),
        };
        match series_info_of_path(path.as_str()) {
            Ok(series_info) => Ok(Video { path, stem, series_info }),
            Err(()) => Err(MediaError::MalformedEpisodeIdentifier),
        }
    }

    /// Whether the video is an episode of a series.
    pub fn part_of_series(&self) -> (r: bool)
        ensures
            r == self.series_info is Some,
    {
        self.series_info.is_some()
    }
}

/// A subtitle file: its path, its language, its extension and the episode
/// its path names.
#[derive(Clone, Debug)]
pub struct Subtitle {
    pub path: String,
    pub lang: Lang,
    pub extension: String,
    pub series_info: Option<SeriesInfo>,
}

/// The language token of a subtitle path: its stem without a numeric
/// ordering prefix.
pub open spec fn language_token(path: Seq<char>) -> Option<Seq<char>> {
    match stem_of_path(path) {
        Some(stem) => Some(without_number_prefix(stem)),
        None => None,
    }
}

impl Subtitle {
    /// The entry holds what its path says.
    pub open spec fn wf(self) -> bool {
        &&& language_token(self.path@) matches Some(t) && iso_codes_of_name(t) == Some(
            (self.lang.code@, opt_view(self.lang.short)),
        )
        &&& extension_of_path(self.path@) == Some(self.extension@)
        &&& self.series_info == episode_of(self.path@)
    }

    /// The entry for the subtitle at `path`. Its language is named by the
    /// file stem, after any `<digits>_` prefix. The checks come in this
    /// order: file name, language, extension, episode code.
    pub fn new(path: String) -> (r: Result<Subtitle, MediaError>)
        ensures
            match language_token(path@) {
                None => r == Err::<Subtitle, MediaError>(MediaError::MissingFileName),
                Some(t) => match iso_codes_of_name(t) {
                    None => r matches Err(MediaError::UnknownLanguage(u)) && u@ == t,
                    Some(_) => if extension_of_path(path@) is None {
                        r == Err::<Subtitle, MediaError>(MediaError::MissingExtension)
                    } else if malformed_code(path@) {
                        r == Err::<Subtitle, MediaError>(MediaError::MalformedEpisodeIdentifier)
                    } else {
                        r matches Ok(s) && s.wf() && s.path@ == path@
                    },
                },
            },
    {
        let stem = match file_stem(path.as_str()) {
            Some(s) => s,
            None => return Err(MediaError::MissingFileName),
        };
        let token = strip_numeric_prefix(stem.as_str());
        let lang = match resolve_language(token.as_str()) {
            Ok(l) => l,
            Err(e) => return Err(e),
        };
        let extension = match file_extension(path.as_str()) {
            Some(e) => e,
            None => return Err(MediaError::MissingExtension),
        };
        match series_info_of_path(path.as_str()) {
            Ok(series_info) => Ok(Subtitle { path, lang, extension, series_info }),
            Err(()) => Err(MediaError::MalformedEpisodeIdentifier),
        }
    }
}

} // verus!
