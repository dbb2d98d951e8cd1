use subfix::checks::{all_a_series, different_versions_same_media, no_series, validate_videos};
use subfix::error::MediaError;
use subfix::language::resolve_language;
use subfix::media::{Subtitle, Video};
use subfix::names::strip_quality_suffix;
use subfix::pairing::{link_name, plan_links};
use subfix::plan::plan_directory;

fn videos(paths: &[&str]) -> Vec<Video> {
    paths.iter().map(|p| Video::from_path(p.to_string()).unwrap()).collect()
}

fn sub(path: &str) -> Subtitle {
    Subtitle::new(path.to_string()).unwrap()
}

#[test]
fn qualities_of_one_show_pass() {
    let vs = videos(&["Show - 720p.mkv", "Show - 1080p.mkv"]);
    assert_eq!(validate_videos(&vs), Ok(()));
    assert!(different_versions_same_media(&vs));
    assert_eq!(strip_quality_suffix(&vs[0].stem), "Show");
}

#[test]
fn different_titles_fail() {
    let vs = videos(&["Show S01E01 - 720p.mkv", "Other S01E01 - 720p.mkv"]);
    assert!(all_a_series(&vs));
    assert!(!different_versions_same_media(&vs));
    assert_eq!(validate_videos(&vs), Err(MediaError::InconsistentTitles));
}

#[test]
fn first_name_without_suffix_is_strict() {
    let vs = videos(&["Movie.mkv", "Movie Extended.mkv"]);
    assert_eq!(validate_videos(&vs), Ok(()));
    let vs = videos(&["Movie Extended.mkv", "Movie.mkv"]);
    assert_eq!(validate_videos(&vs), Err(MediaError::InconsistentTitles));
}

#[test]
fn no_videos_fail() {
    assert_eq!(validate_videos(&[]), Err(MediaError::NoVideosFound));
}

#[test]
fn single_video_passes() {
    assert_eq!(validate_videos(&videos(&["Anything.mkv"])), Ok(()));
}

#[test]
fn series_and_movies_do_not_mix() {
    let vs = videos(&["Show S01E01 - 720p.mkv", "Show - 720p.mkv"]);
    assert!(!all_a_series(&vs));
    assert!(!no_series(&vs));
    assert_eq!(validate_videos(&vs), Err(MediaError::MixedSeriesAndMovies));
    assert!(no_series(&videos(&["A.mkv", "B.mkv"])));
}

#[test]
fn english_link_is_default() {
    let vs = videos(&["Movie.mkv"]);
    let subs = vec![sub("English.srt")];
    let plan = plan_links(&vs, &subs);
    assert_eq!(plan.len(), 1);
    assert_eq!(plan[0].name, "Movie.en.default.srt");
    assert_eq!(plan[0].target, "English.srt");
}

#[test]
fn link_names_by_language() {
    let fr = resolve_language("French").unwrap();
    assert_eq!(link_name("Movie - 1080p", &fr, "ass"), "Movie - 1080p.fr.ass");
    let haw = resolve_language("Hawaiian").unwrap();
    assert_eq!(link_name("Movie", &haw, "srt"), "Movie.haw.srt");
}

#[test]
fn only_matching_episode_pairs() {
    let vs = videos(&["Show S01E02.mkv"]);
    let subs = vec![sub("Subs/S01E02/English.srt"), sub("Subs/S01E03/English.srt")];
    let plan = plan_links(&vs, &subs);
    assert_eq!(plan.len(), 1);
    assert_eq!(plan[0].target, "Subs/S01E02/English.srt");
    assert_eq!(plan[0].name, "Show S01E02.en.default.srt");
}

#[test]
fn every_version_gets_every_subtitle() {
    let vs = videos(&["Movie - 720p.mkv", "Movie - 1080p.mkv"]);
    let subs = vec![sub("English.srt"), sub("2_French.srt")];
    let names: Vec<String> = plan_links(&vs, &subs).into_iter().map(|p| p.name).collect();
    assert_eq!(
        names,
        vec![
            "Movie - 720p.en.default.srt",
            "Movie - 720p.fr.srt",
            "Movie - 1080p.en.default.srt",
            "Movie - 1080p.fr.srt",
        ]
    );
}

#[test]
fn directory_plan_dedups_then_pairs() {
    let vs = videos(&["Show S01E01 - 720p.mkv", "Show S01E01 - 1080p.mkv"]);
    let subs = vec![
        sub("Subs/S01E01/1_English.srt"),
        sub("Subs/S01E01/2_English.srt"),
        sub("Subs/S01E02/1_English.srt"),
    ];
    let plan = plan_directory(&vs, subs).unwrap();
    let got: Vec<(String, String)> = plan.into_iter().map(|p| (p.target, p.name)).collect();
    assert_eq!(
        got,
        vec![
            ("Subs/S01E01/1_English.srt".to_string(), "Show S01E01 - 720p.en.default.srt".to_string()),
            ("Subs/S01E01/1_English.srt".to_string(), "Show S01E01 - 1080p.en.default.srt".to_string()),
        ]
    );
}

#[test]
fn directory_plan_stops_on_bad_videos() {
    let vs = videos(&["A - 720p.mkv", "B - 720p.mkv"]);
    assert_eq!(plan_directory(&vs, vec![sub("English.srt")]).unwrap_err(), MediaError::InconsistentTitles);
    assert_eq!(plan_directory(&[], Vec::new()).unwrap_err(), MediaError::NoVideosFound);
}
