use mov_cli_rs::menus::{display_name, episode_menu, result_year, season_label, season_menu, series_label, series_menu};
use mov_cli_rs::navigation::{
    episode_choice, player_choice, player_menu, search_screen, season_choice, series_choice, start_screen, Screen,
};
use mov_cli_rs::structs::{Args, EpisodeData, SeasonInfo, SeriesResult};

fn result(name: Option<&str>, title: Option<&str>, media: &str, first_air: Option<&str>, release: Option<&str>) -> SeriesResult {
    SeriesResult {
        adult: false,
        id: 1399,
        name: name.map(|s| s.to_string()),
        title: title.map(|s| s.to_string()),
        original_language: Some("en".to_string()),
        media_type: media.to_string(),
        release_date: release.map(|s| s.to_string()),
        first_air_date: first_air.map(|s| s.to_string()),
    }
}

fn args(first: bool, season: i32, episode: i32) -> Args {
    Args {
        search: "south park".to_string(),
        first,
        extract: false,
        quality: String::new(),
        download: false,
        season,
        episode,
    }
}

fn season(name: &str, number: i32, air: Option<&str>) -> SeasonInfo {
    SeasonInfo { episode_count: 10, id: number, name: name.to_string(), season_number: number, air_date: air.map(|s| s.to_string()) }
}

fn episode(n: i32) -> EpisodeData {
    EpisodeData { episode_number: n, episode_name: None, overview: None }
}

#[test]
fn result_labels() {
    let show = result(Some("South Park"), None, "tv", Some("1997-08-13"), None);
    assert_eq!(display_name(&show), "South Park");
    assert_eq!(series_label(&show), "South Park (TV - 1997)");
    let film = result(Some("ignored"), Some("Heat"), "movie", None, Some("1995-12-15"));
    assert_eq!(display_name(&film), "Heat");
    assert_eq!(series_label(&film), "Heat (MOVIE - 1995)");
    let undated = result(Some("Someone"), None, "person", None, None);
    assert_eq!(series_label(&undated), "Someone (PERSON - N/A)");
    // an empty first air date gives N/A and does not fall back to the release date
    let empty_date = result(Some("X"), None, "tv", Some(""), Some("2001-01-01"));
    assert_eq!(result_year(&empty_date), "N/A");
    assert_eq!(series_label(&empty_date), "X (TV - N/A)");
}

#[test]
fn results_menu_lists_every_result() {
    let results = vec![
        result(None, Some("Up"), "movie", None, Some("2009-05-29")),
        result(Some("Bluey"), None, "tv", Some("2018-10-01"), None),
    ];
    let menu = series_menu(&results);
    assert_eq!(menu, vec!["Up (MOVIE - 2009)", "Bluey (TV - 2018)", "search again", "quit"]);
    assert_eq!(series_menu(&Vec::new()), vec!["search again", "quit"]);
}

#[test]
fn season_and_episode_menus() {
    let seasons = vec![season("Specials", 0, None), season("Season 1", 1, Some("1997-08-13"))];
    assert_eq!(season_label(&seasons[1]), "Season 1 (1997)");
    assert_eq!(season_menu(&seasons), vec!["Specials (N/A)", "Season 1 (1997)", "back", "search again", "quit"]);
    let episodes = vec![episode(1), episode(2), episode(13)];
    assert_eq!(episode_menu(&episodes), vec!["1", "2", "13", "back", "search again", "quit"]);
    assert_eq!(episode_menu(&Vec::new()), vec!["back", "search again", "quit"]);
}

#[test]
fn first_screens() {
    let show = vec![result(Some("A"), None, "tv", None, None)];
    let film = vec![result(None, Some("F"), "movie", None, None)];
    assert_eq!(start_screen(&args(false, -1, -1), &show), Screen::SeriesMenu);
    assert_eq!(start_screen(&args(true, -1, -1), &show), Screen::SeasonMenu { series: 0 });
    assert_eq!(start_screen(&args(true, 2, 3), &film), Screen::Player { series: 0, season: 1, episode: 1 });
    assert_eq!(start_screen(&args(true, 21, -1), &show), Screen::EpisodeMenu { series: 0, season: 21 });
    assert_eq!(start_screen(&args(true, 21, 3), &show), Screen::Player { series: 0, season: 21, episode: 3 });
    assert_eq!(search_screen(&args(false, -1, -1), &film), Screen::SeriesMenu);
    assert_eq!(search_screen(&args(true, -1, -1), &show), Screen::SeasonMenu { series: 0 });
    assert_eq!(search_screen(&args(true, 21, -1), &show), Screen::EpisodeMenu { series: 0, season: 21 });
    assert_eq!(search_screen(&args(true, 21, 3), &show), Screen::Player { series: 0, season: 21, episode: 3 });
    assert_eq!(search_screen(&args(true, 21, 3), &film), Screen::Player { series: 0, season: 1, episode: 1 });
}

#[test]
fn choosing_a_result() {
    let results = vec![
        result(Some("A"), None, "tv", Some("2000-01-01"), None),
        result(None, Some("F"), "movie", None, Some("2010-01-01")),
        result(Some("A"), None, "tv", Some("2000-02-02"), None),
    ];
    let a = args(false, -1, -1);
    assert_eq!(series_choice(&a, &results, ""), Screen::Quit);
    assert_eq!(series_choice(&a, &results, "quit"), Screen::Quit);
    assert_eq!(series_choice(&a, &Vec::new(), "search again"), Screen::SearchPrompt);
    assert_eq!(series_choice(&a, &results, "search again"), Screen::SearchPrompt);
    assert_eq!(series_choice(&a, &results, "F (MOVIE - 2010)"), Screen::Player { series: 1, season: 1, episode: 1 });
    // two results share a label: the later one is taken
    assert_eq!(series_choice(&a, &results, "A (TV - 2000)"), Screen::SeasonMenu { series: 2 });
    // no label matches: the first result is taken
    assert_eq!(series_choice(&a, &results, "nothing"), Screen::SeasonMenu { series: 0 });
    assert_eq!(series_choice(&args(false, 4, -1), &results, "F (MOVIE - 2010)"), Screen::EpisodeMenu { series: 1, season: 4 });
    assert_eq!(series_choice(&args(false, 4, 2), &results, "F (MOVIE - 2010)"), Screen::Player { series: 1, season: 4, episode: 2 });
}

#[test]
fn choosing_a_season() {
    let seasons = vec![season("Season 1", 1, Some("1997-08-13")), season("Season 2", 2, Some("1998-04-01")), season("Season 1", 9, Some("1997-12-01"))];
    let a = args(false, -1, -1);
    assert_eq!(season_choice(&a, 3, &seasons, "back"), Screen::SeriesMenu);
    assert_eq!(season_choice(&a, 3, &seasons, "search again"), Screen::SearchPrompt);
    assert_eq!(season_choice(&a, 3, &seasons, "quit"), Screen::Quit);
    assert_eq!(season_choice(&a, 3, &seasons, "Season 2 (1998)"), Screen::EpisodeMenu { series: 3, season: 2 });
    // the first season with the label is taken
    assert_eq!(season_choice(&a, 3, &seasons, "Season 1 (1997)"), Screen::EpisodeMenu { series: 3, season: 1 });
    assert_eq!(season_choice(&args(false, -1, 5), 3, &seasons, "Season 2 (1998)"), Screen::Player { series: 3, season: 2, episode: 5 });
}

#[test]
fn choosing_an_episode() {
    assert_eq!(episode_choice(1, 2, "back"), Screen::SeasonMenu { series: 1 });
    assert_eq!(episode_choice(1, 2, "search again"), Screen::SearchPrompt);
    assert_eq!(episode_choice(1, 2, "quit"), Screen::Quit);
    assert_eq!(episode_choice(1, 2, "13"), Screen::Player { series: 1, season: 2, episode: 13 });
    // every listed episode opens itself
    let episodes = vec![episode(1), episode(-3), episode(250)];
    let menu = episode_menu(&episodes);
    for (i, e) in episodes.iter().enumerate() {
        assert_eq!(episode_choice(0, 1, &menu[i]), Screen::Player { series: 0, season: 1, episode: e.episode_number });
    }
}

#[test]
fn while_playing() {
    assert_eq!(player_menu(), vec!["next", "replay", "previous", "search again", "quit"]);
    assert_eq!(player_choice(0, 1, 5, "next"), Screen::Player { series: 0, season: 1, episode: 6 });
    assert_eq!(player_choice(0, 1, 5, "replay"), Screen::Player { series: 0, season: 1, episode: 5 });
    assert_eq!(player_choice(0, 1, 5, "previous"), Screen::Player { series: 0, season: 1, episode: 4 });
    assert_eq!(player_choice(0, 1, 5, "search again"), Screen::SearchPrompt);
    assert_eq!(player_choice(0, 1, 5, "quit"), Screen::Quit);
    assert_eq!(player_choice(0, 1, 5, ""), Screen::Quit);
    // next, then previous, comes back to the same episode
    if let Screen::Player { episode, .. } = player_choice(0, 1, 5, "next") {
        assert_eq!(player_choice(0, 1, episode, "previous"), Screen::Player { series: 0, season: 1, episode: 5 });
    } else {
        panic!("next does not play");
    }
}

#[test]
fn labels_are_never_options() {
    let results = vec![result(Some("quit"), None, "", None, None)];
    let label = series_label(&results[0]);
    assert_ne!(label, "quit");
    assert_eq!(series_choice(&args(false, -1, -1), &results, &label), Screen::Player { series: 0, season: 1, episode: 1 });
}
