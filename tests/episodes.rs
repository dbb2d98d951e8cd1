use subfix::names::{starts_with, strip_numeric_prefix, strip_quality_suffix};
use subfix::series::{extract_episode_identifier, parse_code, series_info_of_path, SeriesInfo};

fn ep(season: u8, episode: u8) -> Option<SeriesInfo> {
    Some(SeriesInfo { season, episode })
}

#[test]
fn extract_finds_code_anywhere() {
    assert_eq!(extract_episode_identifier("shows/Show S01E02 - 720p.mkv"), ep(1, 2));
    assert_eq!(extract_episode_identifier("S99E99"), ep(99, 99));
}

#[test]
fn extract_ignores_case() {
    assert_eq!(extract_episode_identifier("show.s03e14.mkv"), ep(3, 14));
    assert_eq!(extract_episode_identifier("Show s10E07"), ep(10, 7));
}

#[test]
fn extract_without_code_is_none() {
    assert_eq!(extract_episode_identifier(""), None);
    assert_eq!(extract_episode_identifier("Movie.mkv"), None);
    assert_eq!(extract_episode_identifier("S1E01"), None);
    assert_eq!(extract_episode_identifier("S01-E01"), None);
    assert_eq!(extract_episode_identifier("SxxE01"), None);
    assert_eq!(extract_episode_identifier("S01E0"), None);
}

#[test]
fn extract_zero_season_or_episode_is_none() {
    assert_eq!(extract_episode_identifier("S00E01"), None);
    assert_eq!(extract_episode_identifier("S01E00"), None);
}

#[test]
fn extract_reads_only_the_first_code() {
    assert_eq!(extract_episode_identifier("S00E01 S01E01"), None);
    assert_eq!(extract_episode_identifier("S02E03 S01E01"), ep(2, 3));
}

#[test]
fn path_with_zero_code_is_malformed() {
    assert_eq!(series_info_of_path("Show S00E01.mkv"), Err(()));
    assert_eq!(series_info_of_path("Show S01E02.mkv"), Ok(ep(1, 2)));
    assert_eq!(series_info_of_path("Movie.mkv"), Ok(None));
}

#[test]
fn parse_code_wants_whole_text() {
    assert_eq!(parse_code("S01E01"), ep(1, 1));
    assert_eq!(parse_code("s12e34"), ep(12, 34));
    assert_eq!(parse_code("S01E01 "), None);
    assert_eq!(parse_code("xS01E01"), None);
    assert_eq!(parse_code("S00E01"), None);
    assert_eq!(parse_code("S01E00"), None);
}

#[test]
fn quality_suffix_is_stripped() {
    assert_eq!(strip_quality_suffix("Show - 720p"), "Show");
    assert_eq!(strip_quality_suffix("Show - 1080p"), "Show");
    assert_eq!(strip_quality_suffix("Movie - 4K"), "Movie");
    assert_eq!(strip_quality_suffix("Movie - 4K HDR"), "Movie");
    assert_eq!(strip_quality_suffix("Movie - 4k hdr"), "Movie");
    assert_eq!(strip_quality_suffix("Movie - 720P"), "Movie");
}

#[test]
fn quality_suffix_takes_episode_code_along() {
    assert_eq!(strip_quality_suffix("Show S01E01 - 720p"), "Show");
    assert_eq!(strip_quality_suffix("Show S01E01"), "Show S01E01");
}

#[test]
fn stem_without_quality_suffix_is_kept() {
    assert_eq!(strip_quality_suffix("Movie"), "Movie");
    assert_eq!(strip_quality_suffix("Movie - 720"), "Movie - 720");
    assert_eq!(strip_quality_suffix("Movie - 720p extra"), "Movie - 720p extra");
    assert_eq!(strip_quality_suffix(""), "");
}

#[test]
fn numeric_prefix_is_stripped() {
    assert_eq!(strip_numeric_prefix("2_"), "");
    assert_eq!(strip_numeric_prefix("2_English"), "English");
    assert_eq!(strip_numeric_prefix("123_French"), "French");
}

#[test]
fn stem_without_numeric_prefix_is_kept() {
    assert_eq!(strip_numeric_prefix("English"), "English");
    assert_eq!(strip_numeric_prefix("_English"), "_English");
    assert_eq!(strip_numeric_prefix("2English"), "2English");
    assert_eq!(strip_numeric_prefix("x2_English"), "x2_English");
}

#[test]
fn prefix_test() {
    assert!(starts_with("Show - 1080p", "Show"));
    assert!(starts_with("Show", ""));
    assert!(!starts_with("Other", "Show"));
    assert!(!starts_with("Sh", "Show"));
}
