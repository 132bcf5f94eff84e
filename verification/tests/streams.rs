use mov_cli_rs::player::{media_title_arg, playback, player_header, separator_line, Playback};
use mov_cli_rs::structs::Args;
use mov_cli_rs::providers::{after_attempt, provider_name, LinkStep, PROVIDER_COUNT};
use mov_cli_rs::sources::{assess_response, order_by_rank, outcome_link, quality_key, SourceOutcome};
use mov_cli_rs::structs::{APISource, APISourceResults, SeriesResult};
use mov_cli_rs::urls::{search_url, season_info_url, series_info_url, source_url, year_param};

fn source(url: &str, quality: &str) -> APISource {
    APISource { url: url.to_string(), quality: quality.to_string() }
}

fn answer(sources: Option<Vec<APISource>>) -> Option<APISourceResults> {
    Some(APISourceResults { sources, subtitles: None })
}

fn show(name: Option<&str>, title: Option<&str>, release: Option<&str>, first_air: Option<&str>) -> SeriesResult {
    SeriesResult {
        adult: false,
        id: 2190,
        name: name.map(|s| s.to_string()),
        title: title.map(|s| s.to_string()),
        original_language: None,
        media_type: "tv".to_string(),
        release_date: release.map(|s| s.to_string()),
        first_air_date: first_air.map(|s| s.to_string()),
    }
}

#[test]
fn quality_ranks() {
    assert_eq!(quality_key("1080p"), Some(1080));
    assert_eq!(quality_key("720P"), Some(720));
    assert_eq!(quality_key("auto"), Some(0));
    assert_eq!(quality_key("AUTO"), Some(0));
    assert_eq!(quality_key("360"), Some(360));
    assert_eq!(quality_key("4k"), None);
    assert_eq!(quality_key(""), None);
}

#[test]
fn ordering_by_rank() {
    assert_eq!(order_by_rank(&vec![720, 1080, 720]), vec![1, 2, 0]);
    assert_eq!(order_by_rank(&vec![0, 0, 0]), vec![2, 1, 0]);
    assert_eq!(order_by_rank(&vec![]), Vec::<usize>::new());
    assert_eq!(order_by_rank(&vec![-1, 5, 3, 5]), vec![3, 1, 2, 0]);
}

#[test]
fn unreadable_and_empty_answers() {
    assert!(matches!(assess_response(&None, ""), Some(SourceOutcome::Undecodable)));
    assert!(matches!(assess_response(&answer(None), ""), Some(SourceOutcome::NoSourcesField)));
    assert!(matches!(assess_response(&answer(Some(vec![])), ""), Some(SourceOutcome::NoSources)));
    // among two or more sources, a quality without a rank leaves them unordered
    assert!(assess_response(&answer(Some(vec![source("a.m3u8", "4k"), source("b.m3u8", "720p")])), "").is_none());
    // a single source is taken without ranking it
    match assess_response(&answer(Some(vec![source("a.m3u8", "")])), "") {
        Some(SourceOutcome::Playable { url, listed_quality }) => {
            assert_eq!(url, "a.m3u8");
            assert_eq!(listed_quality, "");
        }
        other => panic!("unexpected {:?}", other),
    }
    match assess_response(&answer(Some(vec![source("a.mp4", "4K")])), "4k") {
        Some(SourceOutcome::Encrypted) => {}
        other => panic!("unexpected {:?}", other),
    }
}

#[test]
fn highest_quality_by_default() {
    let list = vec![source("low.m3u8", "360p"), source("high.m3u8", "1080p"), source("auto.m3u8", "auto")];
    match assess_response(&answer(Some(list)), "") {
        Some(SourceOutcome::Playable { url, listed_quality }) => {
            assert_eq!(url, "high.m3u8");
            assert_eq!(listed_quality, "1080p");
        }
        other => panic!("unexpected {:?}", other),
    }
}

#[test]
fn wanted_quality_when_offered() {
    let list = vec![source("low.m3u8", "360P"), source("high.m3u8", "1080p")];
    match assess_response(&answer(Some(list.clone())), "360p") {
        Some(SourceOutcome::Playable { url, listed_quality }) => {
            assert_eq!(url, "low.m3u8");
            assert_eq!(listed_quality, "1080p");
        }
        other => panic!("unexpected {:?}", other),
    }
    // not offered: the highest is played
    match assess_response(&answer(Some(list)), "720p") {
        Some(SourceOutcome::Playable { url, .. }) => assert_eq!(url, "high.m3u8"),
        other => panic!("unexpected {:?}", other),
    }
}

#[test]
fn encrypted_sources() {
    let list = vec![source("high.mp4", "1080p"), source("low.m3u8", "360p")];
    let outcome = assess_response(&answer(Some(list)), "").unwrap();
    assert!(matches!(outcome, SourceOutcome::Encrypted));
    assert_eq!(outcome_link(&outcome), "");
    let playable = SourceOutcome::Playable { url: "x.m3u8".to_string(), listed_quality: "auto".to_string() };
    assert_eq!(outcome_link(&playable), "x.m3u8");
}

#[test]
fn providers_in_order() {
    let names: Vec<String> = (0..PROVIDER_COUNT).map(provider_name).collect();
    assert_eq!(names, vec!["flixhq", "vidsrc", "vidsrcto", "superstream", "febbox", "overflix", "visioncine"]);
}

#[test]
fn provider_chain() {
    assert!(matches!(after_attempt(0, String::new()), LinkStep::Ask(1)));
    assert!(matches!(after_attempt(2, "x.mp4".to_string()), LinkStep::Ask(3)));
    match after_attempt(3, "s.m3u8".to_string()) {
        LinkStep::Finished(link) => assert_eq!(link, "s.m3u8"),
        other => panic!("unexpected {:?}", other),
    }
    // what the last provider answers is not used
    match after_attempt(6, "v.m3u8".to_string()) {
        LinkStep::Finished(link) => assert_eq!(link, ""),
        other => panic!("unexpected {:?}", other),
    }
    // driving the chain: the first playlist is taken
    let answers = ["", "a.mp4", "b.m3u8", "c.m3u8", "", "", ""];
    let mut tried = 0;
    let link = loop {
        match after_attempt(tried, answers[tried].to_string()) {
            LinkStep::Ask(next) => tried = next,
            LinkStep::Finished(link) => break link,
        }
    };
    assert_eq!(link, "b.m3u8");
    assert_eq!(tried, 2);
}

#[test]
fn addresses() {
    assert_eq!(
        search_url("https://api.example", "south park", "KEY"),
        "https://api.example/3/search/multi?language=en&page=1&query=south park&api_key=KEY"
    );
    assert_eq!(series_info_url("https://api.example", 2190, "KEY"), "https://api.example/3/tv/2190?api_key=KEY");
    assert_eq!(season_info_url("https://api.example", 2190, 21, "KEY"), "https://api.example/3/tv/2190/season/21?api_key=KEY");
    let s = show(Some("South Park"), Some("Ignored"), None, Some("1997-08-13"));
    assert_eq!(year_param(&s), "&year=1997");
    assert_eq!(
        source_url("https://src.example", "vidsrc", &s, 21, 3),
        "https://src.example/vidsrc/sources-with-title?title=South Park&year=1997&mediaType=tv&episodeId=3&seasonId=21&tmdbId=2190"
    );
    // the release date comes first; an empty one gives no year
    let film = show(None, Some("Heat"), Some(""), Some("1995-01-01"));
    assert_eq!(year_param(&film), "");
    assert_eq!(
        source_url("b", "flixhq", &film, 1, 1),
        "b/flixhq/sources-with-title?title=Heat&mediaType=tv&episodeId=1&seasonId=1&tmdbId=2190"
    );
}

#[test]
fn player_texts() {
    let s = show(Some("Name"), Some("Title"), None, None);
    assert_eq!(player_header(&s, 2, 7), "Options for Title - Season 2 Episode 7");
    assert_eq!(media_title_arg(&s), "--force-media-title=Title");
    assert_eq!(separator_line(5), "=====");
    assert_eq!(separator_line(0), "");
    let mut a = Args { search: String::new(), first: false, extract: true, quality: String::new(), download: false, season: -1, episode: -1 };
    assert_eq!(playback(&a), Playback::PrintLink);
    a.extract = false;
    assert_eq!(playback(&a), Playback::OpenPlayer);
}
