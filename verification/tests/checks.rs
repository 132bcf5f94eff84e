use mov_cli_rs::menus::{has_name, is_date_showable, is_labelable, is_season_labelable};
use mov_cli_rs::navigation::{is_other_option_text, is_player_option_text, is_season_entry};
use mov_cli_rs::structs::{SeasonInfo, SeriesResult};
use mov_cli_rs::urls::is_queryable;

fn result(name: Option<&str>, title: Option<&str>, first_air: Option<&str>, release: Option<&str>) -> SeriesResult {
    SeriesResult {
        adult: false,
        id: 1,
        name: name.map(|s| s.to_string()),
        title: title.map(|s| s.to_string()),
        original_language: None,
        media_type: "tv".to_string(),
        release_date: release.map(|s| s.to_string()),
        first_air_date: first_air.map(|s| s.to_string()),
    }
}

fn season(name: &str, air: Option<&str>) -> SeasonInfo {
    SeasonInfo { episode_count: 1, id: 1, name: name.to_string(), season_number: 1, air_date: air.map(|s| s.to_string()) }
}

#[test]
fn dates_that_can_be_cut() {
    assert!(is_date_showable(""));
    assert!(is_date_showable("2020-01-01"));
    assert!(is_date_showable("2020"));
    assert!(!is_date_showable("202"));
    assert!(!is_date_showable("é9"));
    assert!(!is_date_showable("aéé"));
}

#[test]
fn results_that_can_be_shown() {
    assert!(has_name(&result(Some("a"), None, None, None)));
    assert!(has_name(&result(None, Some("b"), None, None)));
    assert!(!has_name(&result(None, None, None, None)));
    assert!(is_labelable(&result(Some("a"), None, Some("2001-01-01"), None)));
    assert!(!is_labelable(&result(None, None, None, None)));
    assert!(!is_labelable(&result(Some("a"), None, Some("20"), Some("2001-01-01"))));
    // the release date is only looked at where there is no first air date
    assert!(is_labelable(&result(Some("a"), None, Some("2001-01-01"), Some("20"))));
    assert!(is_queryable(&result(Some("a"), None, Some("20"), Some("2001-01-01"))));
    assert!(!is_queryable(&result(Some("a"), None, Some("2001-01-01"), Some("20"))));
    assert!(!is_queryable(&result(None, None, None, None)));
    assert!(is_season_labelable(&season("S", None)));
    assert!(is_season_labelable(&season("S", Some("1999-01-01"))));
    assert!(!is_season_labelable(&season("S", Some(""))));
}

#[test]
fn menu_answers() {
    assert!(is_other_option_text("back"));
    assert!(is_other_option_text("search again"));
    assert!(is_other_option_text("quit"));
    assert!(!is_other_option_text("Back"));
    assert!(is_player_option_text(""));
    assert!(is_player_option_text("next"));
    assert!(is_player_option_text("previous"));
    assert!(!is_player_option_text("back"));
    let seasons = vec![season("Season 1", Some("1997-08-13")), season("Specials", None)];
    assert!(is_season_entry(&seasons, "Season 1 (1997)"));
    assert!(is_season_entry(&seasons, "Specials (N/A)"));
    assert!(is_season_entry(&seasons, "back"));
    assert!(!is_season_entry(&seasons, "Season 2 (1998)"));
    assert!(!is_season_entry(&seasons, ""));
}
