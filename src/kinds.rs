//! Which files are videos and which are subtitles, by their extension.

use vstd::prelude::*;

use crate::paths::{extension_of_path, file_extension};
use crate::text::chars_of;

verus! {

pub open spec fn is_ascii_upper(c: char) -> bool {
    'A' <= c && c <= 'Z'
}

/// `c` and `d` are the same character once ASCII letters are folded to one case.
pub open spec fn same_char_ignore_case(c: char, d: char) -> bool {
    ||| c == d
    ||| is_ascii_upper(c) && c as int + 32 == d as int
    ||| is_ascii_upper(d) && d as int + 32 == c as int
}

/// `a` and `b` are equal but for the case of ASCII letters.
pub open spec fn same_ignore_case(a: Seq<char>, b: Seq<char>) -> bool {
    a.len() == b.len() && forall|i: int| 0 <= i < a.len() ==> same_char_ignore_case(a[i], b[i])
}

/// The extensions of video files.
pub open spec fn video_extensions() -> Seq<Seq<char>> {
    seq![seq!['m', 'p', '4'], seq!['m', 'k', 'v'], seq!['a', 'v', 'i']]
}

/// The extensions of subtitle files.
pub open spec fn subtitle_extensions() -> Seq<Seq<char>> {
    seq![
        seq!['s', 'r', 't'],
        seq!['v', 't', 't'],
        seq!['i', 'd', 'x'],
        seq!['a', 's', 's'],
        seq!['d', 't', 's'],
    ]
}

/// `ext` is one of `group`, ignoring the case of ASCII letters.
pub open spec fn ext_in(ext: Seq<char>, group: Seq<Seq<char>>) -> bool {
    exists|i: int| 0 <= i < group.len() && same_ignore_case(ext, #[trigger] group[i])
}

/// The path's extension is a video extension.
pub open spec fn has_video_extension(path: Seq<char>) -> bool {
    match extension_of_path(path) {
        Some(e) => ext_in(e, video_extensions()),
        None => false,
    }
}

/// The path's extension is a subtitle extension.
pub open spec fn has_subtitle_extension(path: Seq<char>) -> bool {
    match extension_of_path(path) {
        Some(e) => ext_in(e, subtitle_extensions()),
        None => false,
    }
}

fn same_char(c: char, d: char) -> (r: bool)
    ensures
        r == same_char_ignore_case(c, d),
{
    c == d || ('A' <= c && c <= 'Z' && c as u32 + 32 == d as u32) || ('A' <= d && d <= 'Z' && d
        as u32 + 32 == c as u32)
}

/// Whether `a` and `b` are equal but for the case of ASCII letters.
pub fn eq_ignore_ascii_case(a: &str, b: &str) -> (r: bool)
    ensures
        r == same_ignore_case(a@, b@),
{
    let x = chars_of(a);
    let y = chars_of(b);
    if x.len() != y.len() {
        return false;
    }
    let mut i: usize = 0;
    while i < x.len()
        invariant
            x@ == a@,
            y@ == b@,
            x@.len() == y@.len(),
            i <= x@.len(),
            forall|j: int| 0 <= j < i ==> same_char_ignore_case(x@[j], y@[j]),
        decreases x@.len() - i,
    {
        if !same_char(x[i], y[i]) {
            return false;
        }
        i = i + 1;
    }
    true
}

/// Whether `ext` is the extension of a video file.
pub fn is_video_extension(ext: &str) -> (r: bool)
    ensures
        r == ext_in(ext@, video_extensions()),
{
    proof {
        reveal_strlit("mp4");
        reveal_strlit("mkv");
        reveal_strlit("avi");
        assert("mp4"@ =~= video_extensions()[0]);
        assert("mkv"@ =~= video_extensions()[1]);
        assert("avi"@ =~= video_extensions()[2]);
    }
    eq_ignore_ascii_case(ext, "mp4") || eq_ignore_ascii_case(ext, "mkv") || eq_ignore_ascii_case(
        ext,
        "avi",
    )
}

/// Whether `ext` is the extension of a subtitle file.
pub fn is_subtitle_extension(ext: &str) -> (r: bool)
    ensures
        r == ext_in(ext@, subtitle_extensions()),
{
    proof {
        reveal_strlit("srt");
        reveal_strlit("vtt");
        reveal_strlit("idx");
        reveal_strlit("ass");
        reveal_strlit("dts");
        assert("srt"@ =~= subtitle_extensions()[0]);
        assert("vtt"@ =~= subtitle_extensions()[1]);
        assert("idx"@ =~= subtitle_extensions()[2]);
        assert("ass"@ =~= subtitle_extensions()[3]);
        assert("dts"@ =~= subtitle_extensions()[4]);
    }
    eq_ignore_ascii_case(ext, "srt") || eq_ignore_ascii_case(ext, "vtt") || eq_ignore_ascii_case(
        ext,
        "idx",
    ) || eq_ignore_ascii_case(ext, "ass") || eq_ignore_ascii_case(ext, "dts")
}

/// Whether a directory entry is a video: a regular file (`is_file`) whose
/// path has a video extension.
pub fn is_video(is_file: bool, path: &str) -> (r: bool)
    ensures
        r == (is_file && has_video_extension(path@)),
{
    if !is_file {
        return false;
    }
    match file_extension(path) {
        Some(e) => is_video_extension(e.as_str()),
        None => false,
    }
}

/// Whether a directory entry is a subtitle: a regular file (`is_file`) whose
/// path has a subtitle extension.
pub fn is_subtitle(is_file: bool, path: &str) -> (r: bool)
    ensures
        r == (is_file && has_subtitle_extension(path@)),
{
    if !is_file {
        return false;
    }
    match file_extension(path) {
        Some(e) => is_subtitle_extension(e.as_str()),
        None => false,
    }
}

} // verus!
