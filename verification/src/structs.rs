use vstd::prelude::*;

verus! {

/// The command line of the program.
#[derive(Clone, Debug)]
pub struct Args {
    /// Media to search for.
    pub search: String,
    /// Use the first result at once instead of showing the results.
    pub first: bool,
    /// Print the playlist URL instead of opening the player.
    pub extract: bool,
    /// Preferred quality (such as `1080p` or `auto`); empty for the highest.
    pub quality: String,
    /// Download instead of playing (accepted, not acted on).
    pub download: bool,
    /// Season to open, `-1` when not given.
    pub season: i32,
    /// Episode to open, `-1` when not given.
    pub episode: i32,
}

/// One result of a search: a series or a film.
#[derive(Clone, Debug)]
pub struct SeriesResult {
    pub adult: bool,
    pub id: i32,
    pub name: Option<String>,
    pub title: Option<String>,
    pub original_language: Option<String>,
    pub media_type: String,
    pub release_date: Option<String>,
    pub first_air_date: Option<String>,
}

/// A page of search results.
#[derive(Clone, Debug)]
pub struct SearchResults {
    pub page: i32,
    pub results: Vec<SeriesResult>,
    pub total_pages: i32,
    pub total_results: i32,
}

/// A subtitle track offered by a stream source.
#[derive(Clone, Debug)]
pub struct SubtitleTrack {
    pub url: Option<String>,
    pub file: Option<String>,
    pub lang: Option<String>,
    pub language: Option<String>,
}

/// One stream offered by a provider.
#[derive(Clone, Debug)]
pub struct APISource {
    pub url: String,
    pub quality: String,
}

/// What a provider answers for a title.
#[derive(Clone, Debug)]
pub struct APISourceResults {
    pub sources: Option<Vec<APISource>>,
    pub subtitles: Option<Vec<SubtitleTrack>>,
}

/// One episode of a season.
#[derive(Clone, Debug)]
pub struct EpisodeData {
    pub episode_number: i32,
    pub episode_name: Option<String>,
    pub overview: Option<String>,
}

/// The episodes of a season.
#[derive(Clone, Debug)]
pub struct SeasonData {
    pub episodes: Vec<EpisodeData>,
}

/// One season of a series.
#[derive(Clone, Debug)]
pub struct SeasonInfo {
    pub episode_count: i32,
    pub id: i32,
    pub name: String,
    pub season_number: i32,
    pub air_date: Option<String>,
}

/// The seasons of a series.
#[derive(Clone, Debug)]
pub struct SeriesInfo {
    pub number_of_seasons: i32,
    pub seasons: Vec<SeasonInfo>,
}

} // verus!
