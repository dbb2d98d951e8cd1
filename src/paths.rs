//! The parts of a path that the matching reads: its file stem and extension.

use vstd::prelude::*;

verus! {

/// The file stem of a path: its file name without the last extension.
pub uninterp spec fn stem_of_path(path: Seq<char>) -> Option<Seq<char>>;

/// The extension of a path: the file name's text after its last non-leading `.`.
pub uninterp spec fn extension_of_path(path: Seq<char>) -> Option<Seq<char>>;

/// The view of an optional string.
pub open spec fn opt_view(o: Option<String>) -> Option<Seq<char>> {
    match o {
        Some(s) => Some(s@),
        None => None,
    }
}

/// Relies on camino's `Utf8Path::file_stem`: the stem is a function of the
/// path's text alone.
#[verifier::external_body]
pub(crate) fn file_stem(path: &str) -> (r: Option<String>)
    ensures
        opt_view(r) == stem_of_path(path@),
{
    camino::Utf8Path::new(path).file_stem().map(|s| s.to_string())
}

/// Relies on camino's `Utf8Path::extension`: the extension is a function of
/// the path's text alone.
#[verifier::external_body]
pub(crate) fn file_extension(path: &str) -> (r: Option<String>)
    ensures
        opt_view(r) == extension_of_path(path@),
{
    camino::Utf8Path::new(path).extension().map(|s| s.to_string())
}

} // verus!
