//! Which subtitle goes with which video, and the name of the link that ties
//! them together.

use vstd::prelude::*;

use crate::language::Lang;
use crate::media::{Subtitle, Video};
use crate::series::same_series;

verus! {

/// One link to make: `name`, beside the videos, points at the subtitle
/// file `target`.
#[derive(Clone, Debug)]
pub struct LinkPlan {
    pub target: String,
    pub name: String,
}

/// The flag that marks the default subtitle track.
pub open spec fn default_flag() -> Seq<char> {
    seq!['.', 'd', 'e', 'f', 'a', 'u', 'l', 't']
}

/// `<stem>.<tag>[.default].<extension>`.
pub open spec fn spec_link_name(
    stem: Seq<char>,
    tag: Seq<char>,
    is_default: bool,
    extension: Seq<char>,
) -> Seq<char> {
    stem + seq!['.'] + tag + (if is_default {
        default_flag()
    } else {
        Seq::empty()
    }) + seq!['.'] + extension
}

/// The link that ties subtitle `s` to video `v`: its target and its name.
pub open spec fn link_of(v: Video, s: Subtitle) -> (Seq<char>, Seq<char>) {
    (s.path@, spec_link_name(v.stem@, s.lang.tag(), s.lang.is_default_spec(), s.extension@))
}

/// The links of video `v`: one for each subtitle of the same episode (or,
/// for a video of no episode, each subtitle of none), in the subtitles' order.
pub open spec fn links_for(v: Video, subs: Seq<Subtitle>) -> Seq<(Seq<char>, Seq<char>)>
    decreases subs.len(),
{
    if subs.len() == 0 {
        Seq::empty()
    } else {
        let rest = links_for(v, subs.drop_last());
        if subs.last().series_info == v.series_info {
            rest.push(link_of(v, subs.last()))
        } else {
            rest
        }
    }
}

/// The links of all videos, video by video.
pub open spec fn all_links(videos: Seq<Video>, subs: Seq<Subtitle>) -> Seq<
    (Seq<char>, Seq<char>),
>
    decreases videos.len(),
{
    if videos.len() == 0 {
        Seq::empty()
    } else {
        all_links(videos.drop_last(), subs) + links_for(videos.last(), subs)
    }
}

/// `l` is the link of video `v` to a subtitle of `subs` of its own episode.
pub open spec fn link_from_matching(v: Video, subs: Seq<Subtitle>, l: (Seq<char>, Seq<char>)) -> bool {
    exists|j: int|
        0 <= j < subs.len() && (#[trigger] subs[j]).series_info == v.series_info && l == link_of(
            v,
            subs[j],
        )
}

/// A video is linked to a subtitle exactly when both name the same episode
/// (or both name none): each of its links comes from such a subtitle, and
/// each such subtitle gives it a link.
pub proof fn lemma_links_match_episode(v: Video, subs: Seq<Subtitle>)
    ensures
        forall|k: int|
            0 <= k < links_for(v, subs).len() ==> link_from_matching(
                v,
                subs,
                #[trigger] links_for(v, subs)[k],
            ),
        forall|j: int|
            0 <= j < subs.len() && (#[trigger] subs[j]).series_info == v.series_info
                ==> links_for(v, subs).contains(link_of(v, subs[j])),
    decreases subs.len(),
{
    if subs.len() > 0 {
        let p = subs.drop_last();
        let x = subs.last();
        let rest = links_for(v, p);
        lemma_links_match_episode(v, p);
        let all = links_for(v, subs);
        assert forall|k: int| 0 <= k < all.len() implies link_from_matching(v, subs, #[trigger] all[k]) by {
            if k < rest.len() {
                assert(all[k] == rest[k]);
                assert(link_from_matching(v, p, rest[k]));
                let j = choose|j: int|
                    0 <= j < p.len() && (#[trigger] p[j]).series_info == v.series_info && rest[k]
                        == link_of(v, p[j]);
                assert(subs[j] == p[j]);
            } else {
                assert(subs[subs.len() - 1] == x);
            }
        }
        assert forall|j: int|
            0 <= j < subs.len() && (#[trigger] subs[j]).series_info == v.series_info implies all.contains(
            link_of(v, subs[j]),
        ) by {
            if j < p.len() {
                assert(subs[j] == p[j]);
                assert(rest.contains(link_of(v, p[j])));
                let k = choose|k: int| 0 <= k < rest.len() && rest[k] == link_of(v, p[j]);
                assert(all[k] == rest[k]);
            } else {
                assert(all[all.len() - 1] == link_of(v, x));
            }
        }
    }
}

/// What a list of link plans says: target and name of each.
pub open spec fn plan_view(p: Seq<LinkPlan>) -> Seq<(Seq<char>, Seq<char>)> {
    p.map_values(|l: LinkPlan| (l.target@, l.name@))
}

/// The name of the link for a subtitle in `lang` with extension `extension`,
/// next to the video whose stem is `video_stem`.
pub fn link_name(video_stem: &str, lang: &Lang, extension: &str) -> (r: String)
    ensures
        r@ == spec_link_name(video_stem@, lang.tag(), lang.is_default_spec(), extension@),
{
    proof {
        reveal_strlit(".");
        reveal_strlit(".default");
    }
    let mut name = video_stem.to_owned();
    name.append(".");
    let tag = lang.preferred_tag();
    name.append(tag.as_str());
    let is_default = lang.is_default();
    if is_default {
        name.append(".default");
    }
    name.append(".");
    name.append(extension);
    assert(name@ =~= spec_link_name(video_stem@, lang.tag(), is_default, extension@));
    name
}

/// The links to make: for each video, in order, one for each subtitle, in
/// order, whose episode is the video's.
pub fn plan_links(videos: &[Video], subtitles: &[Subtitle]) -> (r: Vec<LinkPlan>)
    ensures
        plan_view(r@) == all_links(videos@, subtitles@),
{
    let mut out: Vec<LinkPlan> = Vec::new();
    let mut a: usize = 0;
    proof {
        assert(plan_view(out@) =~= all_links(videos@.subrange(0, 0), subtitles@));
    }
    while a < videos.len()
        invariant
            a <= videos@.len(),
            plan_view(out@) == all_links(videos@.subrange(0, a as int), subtitles@),
        decreases videos@.len() - a,
    {
        let video = &videos[a];
        let ghost before = plan_view(out@);
        let mut b: usize = 0;
        proof {
            assert(plan_view(out@) =~= before + links_for(*video, subtitles@.subrange(0, 0)));
        }
        while b < subtitles.len()
            invariant
                b <= subtitles@.len(),
                *video == videos@[a as int],
                plan_view(out@) == before + links_for(*video, subtitles@.subrange(0, b as int)),
            decreases subtitles@.len() - b,
        {
            let sub = &subtitles[b];
            let ghost t = subtitles@.subrange(0, b as int + 1);
            proof {
                assert(t.drop_last() =~= subtitles@.subrange(0, b as int));
            }
            if same_series(video.series_info, sub.series_info) {
                let name = link_name(video.stem.as_str(), &sub.lang, sub.extension.as_str());
                let ghost prev = out@;
                out.push(LinkPlan { target: sub.path.clone(), name });
                proof {
                    assert(plan_view(out@) =~= plan_view(prev).push(link_of(*video, *sub)));
                }
            }
            b = b + 1;
        }
        proof {
            let u = videos@.subrange(0, a as int + 1);
            assert(u.drop_last() =~= videos@.subrange(0, a as int));
            assert(subtitles@.subrange(0, b as int) =~= subtitles@);
        }
        a = a + 1;
    }
    proof {
        assert(videos@.subrange(0, a as int) =~= videos@);
    }
    out
}

} // verus!
