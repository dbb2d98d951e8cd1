//! The decisions for one directory: which entries are kept, whether the
//! videos may be linked at all, and which links to make.

use vstd::prelude::*;

use crate::checks::{validate_videos, validation};
use crate::dedup::{dedup, remove_duplicate_languages};
use crate::error::MediaError;
use crate::language::iso_codes_of_name;
use crate::media::{language_token, Subtitle, Video};
use crate::pairing::{all_links, plan_links, plan_view, LinkPlan};
use crate::paths::{extension_of_path, stem_of_path};
use crate::series::malformed_code;

verus! {

/// An entry can be built for the video at `p`.
pub open spec fn video_ok(p: Seq<char>) -> bool {
    stem_of_path(p) is Some && !malformed_code(p)
}

/// An entry can be built for the subtitle at `p`.
pub open spec fn subtitle_ok(p: Seq<char>) -> bool {
    &&& language_token(p) matches Some(t) && iso_codes_of_name(t) is Some
    &&& extension_of_path(p) is Some
    &&& !malformed_code(p)
}

/// `video_ok`, as a function value.
pub open spec fn video_filter() -> spec_fn(Seq<char>) -> bool {
    |p: Seq<char>| video_ok(p)
}

/// `subtitle_ok`, as a function value.
pub open spec fn subtitle_filter() -> spec_fn(Seq<char>) -> bool {
    |p: Seq<char>| subtitle_ok(p)
}

/// The paths that `video_ok` refuses, as a function value.
pub open spec fn video_rejects() -> spec_fn(Seq<char>) -> bool {
    |p: Seq<char>| !video_ok(p)
}

/// The paths that `subtitle_ok` refuses, as a function value.
pub open spec fn subtitle_rejects() -> spec_fn(Seq<char>) -> bool {
    |p: Seq<char>| !subtitle_ok(p)
}

/// The paths of `paths`, in order, that `ok` accepts.
pub open spec fn kept_paths(paths: Seq<String>, ok: spec_fn(Seq<char>) -> bool) -> Seq<
    Seq<char>,
>
    decreases paths.len(),
{
    if paths.len() == 0 {
        Seq::empty()
    } else {
        let rest = kept_paths(paths.drop_last(), ok);
        if ok(paths.last()@) {
            rest.push(paths.last()@)
        } else {
            rest
        }
    }
}

/// The entries for the video files at `paths`, in order, and beside them each
/// path that gave no entry, with the reason; those are skipped.
pub fn collect_videos(paths: &[String]) -> (r: (Vec<Video>, Vec<(String, MediaError)>))
    ensures
        r.0@.map_values(|v: Video| v.path@) == kept_paths(paths@, video_filter()),
        forall|i: int| 0 <= i < r.0@.len() ==> (#[trigger] r.0@[i]).wf(),
        r.1@.map_values(|e: (String, MediaError)| e.0@) == kept_paths(paths@, video_rejects()),
{
    let ghost ok = video_filter();
    let ghost no = video_rejects();
    let mut kept: Vec<Video> = Vec::new();
    let mut skipped: Vec<(String, MediaError)> = Vec::new();
    let mut i: usize = 0;
    proof {
        assert(kept@.map_values(|v: Video| v.path@) =~= kept_paths(paths@.subrange(0, 0), ok));
    }
    while i < paths.len()
        invariant
            ok == video_filter(),
            no == video_rejects(),
            i <= paths@.len(),
            kept@.map_values(|v: Video| v.path@) == kept_paths(paths@.subrange(0, i as int), ok),
            forall|j: int| 0 <= j < kept@.len() ==> (#[trigger] kept@[j]).wf(),
            skipped@.map_values(|e: (String, MediaError)| e.0@) == kept_paths(
                paths@.subrange(0, i as int),
                video_rejects(),
            ),
        decreases paths@.len() - i,
    {
        let ghost t = paths@.subrange(0, i as int + 1);
        let ghost prev = kept@;
        let ghost prev_skipped = skipped@;
        proof {
            assert(t.drop_last() =~= paths@.subrange(0, i as int));
            assert(t.last() == paths@[i as int]);
        }
        let path = paths[i].clone();
        match Video::from_path(path) {
            Ok(v) => {
                assert(video_ok(paths@[i as int]@));
                kept.push(v);
                proof {
                    assert(!no(paths@[i as int]@));
                    assert(kept@.map_values(|v: Video| v.path@) =~= prev.map_values(
                        |v: Video| v.path@,
                    ).push(paths@[i as int]@));
                }
            },
            Err(e) => {
                assert(!ok(paths@[i as int]@));
                skipped.push((paths[i].clone(), e));
                proof {
                    assert(skipped@.map_values(|e: (String, MediaError)| e.0@) =~= prev_skipped.map_values(
                        |e: (String, MediaError)| e.0@,
                    ).push(paths@[i as int]@));
                }
            },
        }
        i = i + 1;
    }
    proof {
        assert(paths@.subrange(0, i as int) =~= paths@);
    }
    (kept, skipped)
}

/// The entries for the subtitle files at `paths`, in order, and beside them
/// each path that gave no entry, with the reason; those are skipped.
pub fn collect_subtitles(paths: &[String]) -> (r: (Vec<Subtitle>, Vec<(String, MediaError)>))
    ensures
        r.0@.map_values(|s: Subtitle| s.path@) == kept_paths(paths@, subtitle_filter()),
        forall|i: int| 0 <= i < r.0@.len() ==> (#[trigger] r.0@[i]).wf(),
        r.1@.map_values(|e: (String, MediaError)| e.0@) == kept_paths(paths@, subtitle_rejects()),
{
    let ghost ok = subtitle_filter();
    let ghost no = subtitle_rejects();
    let mut kept: Vec<Subtitle> = Vec::new();
    let mut skipped: Vec<(String, MediaError)> = Vec::new();
    let mut i: usize = 0;
    proof {
        assert(kept@.map_values(|s: Subtitle| s.path@) =~= kept_paths(
            paths@.subrange(0, 0),
            ok,
        ));
    }
    while i < paths.len()
        invariant
            ok == subtitle_filter(),
            no == subtitle_rejects(),
            i <= paths@.len(),
            kept@.map_values(|s: Subtitle| s.path@) == kept_paths(
                paths@.subrange(0, i as int),
                ok,
            ),
            forall|j: int| 0 <= j < kept@.len() ==> (#[trigger] kept@[j]).wf(),
            skipped@.map_values(|e: (String, MediaError)| e.0@) == kept_paths(
                paths@.subrange(0, i as int),
                subtitle_rejects(),
            ),
        decreases paths@.len() - i,
    {
        let ghost t = paths@.subrange(0, i as int + 1);
        let ghost prev = kept@;
        let ghost prev_skipped = skipped@;
        proof {
            assert(t.drop_last() =~= paths@.subrange(0, i as int));
            assert(t.last() == paths@[i as int]);
        }
        let path = paths[i].clone();
        match Subtitle::new(path) {
            Ok(s) => {
                assert(subtitle_ok(paths@[i as int]@));
                kept.push(s);
                proof {
                    assert(!no(paths@[i as int]@));
                    assert(kept@.map_values(|s: Subtitle| s.path@) =~= prev.map_values(
                        |s: Subtitle| s.path@,
                    ).push(paths@[i as int]@));
                }
            },
            Err(e) => {
                assert(!ok(paths@[i as int]@));
                skipped.push((paths[i].clone(), e));
                proof {
                    assert(skipped@.map_values(|e: (String, MediaError)| e.0@) =~= prev_skipped.map_values(
                        |e: (String, MediaError)| e.0@,
                    ).push(paths@[i as int]@));
                }
            },
        }
        i = i + 1;
    }
    proof {
        assert(paths@.subrange(0, i as int) =~= paths@);
    }
    (kept, skipped)
}

/// The links to make in one directory: none at all, and the reason, where
/// the videos fail validation; else the pairing of the videos with the
/// subtitles that deduplication keeps.
pub fn plan_directory(videos: &[Video], subtitles: Vec<Subtitle>) -> (r: Result<
    Vec<LinkPlan>,
    MediaError,
>)
    ensures
        match validation(videos@) {
            Err(e) => r == Err::<Vec<LinkPlan>, MediaError>(e),
            Ok(_) => r matches Ok(p) && plan_view(p@) == all_links(videos@, dedup(subtitles@)),
        },
{
    match validate_videos(videos) {
        Err(e) => return Err(e),
        Ok(()) => {},
    }
    let mut subs = subtitles;
    remove_duplicate_languages(&mut subs);
    Ok(plan_links(videos, subs.as_slice()))
}

} // verus!
