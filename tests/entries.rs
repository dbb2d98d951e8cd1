use subfix::dedup::remove_duplicate_languages;
use subfix::error::MediaError;
use subfix::kinds::{eq_ignore_ascii_case, is_subtitle, is_video};
use subfix::language::resolve_language;
use subfix::media::{Subtitle, Video};
use subfix::plan::{collect_subtitles, collect_videos};
use subfix::series::SeriesInfo;

fn sub(path: &str) -> Subtitle {
    Subtitle::new(path.to_string()).unwrap()
}

#[test]
fn english_resolves_to_en() {
    let lang = resolve_language("English").unwrap();
    assert_eq!(lang.code, "eng");
    assert_eq!(lang.short.as_deref(), Some("en"));
    assert_eq!(lang.preferred_tag(), "en");
    assert!(lang.is_default());
}

#[test]
fn language_without_two_letter_code_uses_three() {
    let lang = resolve_language("Hawaiian").unwrap();
    assert_eq!(lang.short, None);
    assert_eq!(lang.preferred_tag(), "haw");
    assert!(!lang.is_default());
}

#[test]
fn unknown_language_is_an_error() {
    assert_eq!(
        resolve_language("Klingonese").unwrap_err(),
        MediaError::UnknownLanguage("Klingonese".to_string())
    );
    assert_eq!(
        resolve_language("english").unwrap_err(),
        MediaError::UnknownLanguage("english".to_string())
    );
}

#[test]
fn video_entry_from_path() {
    let v = Video::from_path("dir/Show S01E02 - 720p.mkv".to_string()).unwrap();
    assert_eq!(v.path, "dir/Show S01E02 - 720p.mkv");
    assert_eq!(v.stem, "Show S01E02 - 720p");
    assert_eq!(v.series_info, Some(SeriesInfo { season: 1, episode: 2 }));
    assert!(v.part_of_series());
    let m = Video::from_path("Movie.mkv".to_string()).unwrap();
    assert_eq!(m.stem, "Movie");
    assert!(!m.part_of_series());
}

#[test]
fn video_with_zero_episode_is_rejected() {
    assert_eq!(
        Video::from_path("Show S01E00.mkv".to_string()).unwrap_err(),
        MediaError::MalformedEpisodeIdentifier
    );
}

#[test]
fn video_without_file_name_is_rejected() {
    assert_eq!(Video::from_path("/".to_string()).unwrap_err(), MediaError::MissingFileName);
}

#[test]
fn subtitle_entry_from_path() {
    let s = sub("Subs/2_English.srt");
    assert_eq!(s.lang.code, "eng");
    assert_eq!(s.extension, "srt");
    assert_eq!(s.series_info, None);
    let e = sub("Subs/Show S02E03/French.vtt");
    assert_eq!(e.lang.code, "fra");
    assert_eq!(e.extension, "vtt");
    assert_eq!(e.series_info, Some(SeriesInfo { season: 2, episode: 3 }));
}

#[test]
fn subtitle_errors() {
    assert_eq!(
        Subtitle::new("Subs/3_Elvish.srt".to_string()).unwrap_err(),
        MediaError::UnknownLanguage("Elvish".to_string())
    );
    assert_eq!(
        Subtitle::new("Subs/English".to_string()).unwrap_err(),
        MediaError::MissingExtension
    );
    assert_eq!(
        Subtitle::new("S00E02/English.srt".to_string()).unwrap_err(),
        MediaError::MalformedEpisodeIdentifier
    );
    assert_eq!(Subtitle::new("/".to_string()).unwrap_err(), MediaError::MissingFileName);
}

#[test]
fn first_of_duplicate_subtitles_survives() {
    let mut subs = vec![sub("1_English.srt"), sub("2_English.srt")];
    remove_duplicate_languages(&mut subs);
    assert_eq!(subs.len(), 1);
    assert_eq!(subs[0].path, "1_English.srt");
}

#[test]
fn dedup_keeps_distinct_keys_in_order() {
    let mut subs = vec![
        sub("S01E01/English.srt"),
        sub("S01E02/English.srt"),
        sub("S01E01/2_English.srt"),
        sub("S01E01/French.srt"),
        sub("S01E02/3_English.srt"),
    ];
    remove_duplicate_languages(&mut subs);
    let paths: Vec<&str> = subs.iter().map(|s| s.path.as_str()).collect();
    assert_eq!(paths, vec!["S01E01/English.srt", "S01E02/English.srt", "S01E01/French.srt"]);
}

#[test]
fn dedup_twice_is_dedup_once() {
    let mut subs = vec![
        sub("English.srt"),
        sub("1_French.srt"),
        sub("2_English.vtt"),
        sub("2_French.srt"),
        sub("German.srt"),
    ];
    remove_duplicate_languages(&mut subs);
    let once: Vec<String> = subs.iter().map(|s| s.path.clone()).collect();
    remove_duplicate_languages(&mut subs);
    let twice: Vec<String> = subs.iter().map(|s| s.path.clone()).collect();
    assert_eq!(once, twice);
    assert_eq!(once, vec!["English.srt", "1_French.srt", "German.srt"]);
}

#[test]
fn dedup_of_nothing_is_nothing() {
    let mut subs: Vec<Subtitle> = Vec::new();
    remove_duplicate_languages(&mut subs);
    assert!(subs.is_empty());
}

#[test]
fn file_kinds_by_extension() {
    assert!(is_video(true, "dir/Movie.mkv"));
    assert!(is_video(true, "dir/Movie.MP4"));
    assert!(is_video(true, "Movie.avi"));
    assert!(!is_video(false, "dir/Movie.mkv"));
    assert!(!is_video(true, "dir/Movie.srt"));
    assert!(!is_video(true, "dir/Movie"));
    assert!(is_subtitle(true, "English.srt"));
    assert!(is_subtitle(true, "a/b/English.Ass"));
    assert!(is_subtitle(true, "x.idx"));
    assert!(is_subtitle(true, "x.vtt"));
    assert!(is_subtitle(true, "x.dts"));
    assert!(!is_subtitle(true, "x.mkv"));
    assert!(!is_subtitle(false, "x.srt"));
}

#[test]
fn ascii_case_folding() {
    assert!(eq_ignore_ascii_case("MkV", "mkv"));
    assert!(!eq_ignore_ascii_case("mkv", "mk"));
    assert!(!eq_ignore_ascii_case("mkv", "mkw"));
    assert!(!eq_ignore_ascii_case("[", "{"));
}

#[test]
fn collect_skips_bad_files() {
    let (videos, skipped) = collect_videos(&[
        "Show S01E01.mkv".to_string(),
        "Show S00E01.mkv".to_string(),
        "Show S01E02.mkv".to_string(),
    ]);
    assert_eq!(videos.len(), 2);
    assert_eq!(videos[1].path, "Show S01E02.mkv");
    assert_eq!(skipped, vec![("Show S00E01.mkv".to_string(), MediaError::MalformedEpisodeIdentifier)]);
    let (subs, skipped) =
        collect_subtitles(&["English.srt".to_string(), "Gibberish.srt".to_string()]);
    assert_eq!(subs.len(), 1);
    assert_eq!(subs[0].path, "English.srt");
    assert_eq!(skipped.len(), 1);
    assert_eq!(skipped[0].1, MediaError::UnknownLanguage("Gibberish".to_string()));
}
