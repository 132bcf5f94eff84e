use vstd::prelude::*;
use vstd::pervasive::unreached;

use crate::numbers::{decimal_of, law_parse_decimal_roundtrip, spec_decimal, spec_parse_i32};
use crate::structs::{EpisodeData, SeasonInfo, SeriesResult};
use crate::text::{law_ascii_year, str_uppercase, spec_year, uppercase, year_cut_ok, year_of};
use vstd::utf8::is_ascii_chars;

verus! {

// ---------------------------------------------------------------------------
// The entries that every menu ends with
// ---------------------------------------------------------------------------

/// The entries below the list of search results.
pub open spec fn series_options() -> Seq<Seq<char>> {
    seq!["search again"@, "quit"@]
}

/// The entries below the list of seasons and the list of episodes.
pub open spec fn other_options() -> Seq<Seq<char>> {
    seq!["back"@, "search again"@, "quit"@]
}

fn push_series_options(menu: &mut Vec<String>)
    ensures
        final(menu)@.map_values(|s: String| s@) == old(menu)@.map_values(|s: String| s@)
            + series_options(),
{
    menu.push("search again".to_owned());
    menu.push("quit".to_owned());
    assert(final(menu)@.map_values(|s: String| s@) =~= old(menu)@.map_values(|s: String| s@)
        + series_options());
}

fn push_other_options(menu: &mut Vec<String>)
    ensures
        final(menu)@.map_values(|s: String| s@) == old(menu)@.map_values(|s: String| s@)
            + other_options(),
{
    menu.push("back".to_owned());
    menu.push("search again".to_owned());
    menu.push("quit".to_owned());
    assert(final(menu)@.map_values(|s: String| s@) =~= old(menu)@.map_values(|s: String| s@)
        + other_options());
}

// ---------------------------------------------------------------------------
// Search results
// ---------------------------------------------------------------------------

/// The result has a title or a name to show.
pub open spec fn has_display_name(r: SeriesResult) -> bool {
    r.title is Some || r.name is Some
}

/// Whether a result has a title or a name to show.
pub fn has_name(r: &SeriesResult) -> (b: bool)
    ensures
        b == has_display_name(*r),
{
    r.title.is_some() || r.name.is_some()
}

/// The name shown for a result: its title, else its name.
pub open spec fn spec_display_name(r: SeriesResult) -> Seq<char> {
    match r.title {
        Some(t) => t@,
        None => r.name.unwrap()@,
    }
}

/// The year shown for a date: `N/A` for an empty date, else its first four bytes.
pub open spec fn spec_shown_year(d: Seq<char>) -> Seq<char> {
    if d.len() == 0 { "N/A"@ } else { spec_year(d) }
}

/// A date can be shown: it is empty, or its first four bytes are whole characters.
pub open spec fn date_showable(d: Seq<char>) -> bool {
    d.len() == 0 || year_cut_ok(d)
}

/// The year shown for a result: from its first air date if it has one, else from its
/// release date, else `N/A`.
pub open spec fn spec_result_year(r: SeriesResult) -> Seq<char> {
    match r.first_air_date {
        Some(d) => spec_shown_year(d@),
        None => match r.release_date {
            Some(d) => spec_shown_year(d@),
            None => "N/A"@,
        },
    }
}

/// Whether a date can be shown.
pub fn is_date_showable(d: &str) -> (b: bool)
    ensures
        b == date_showable(d@),
{
    d.is_empty() || d.is_char_boundary(4)
}

/// The result can be labelled: it has a name to show, and the date that its year comes
/// from can be cut.
pub open spec fn result_labelable(r: SeriesResult) -> bool {
    &&& has_display_name(r)
    &&& match r.first_air_date {
        Some(d) => date_showable(d@),
        None => match r.release_date {
            Some(d) => date_showable(d@),
            None => true,
        },
    }
}

/// Whether a result can be labelled.
pub fn is_labelable(r: &SeriesResult) -> (b: bool)
    ensures
        b == result_labelable(*r),
{
    let named = r.title.is_some() || r.name.is_some();
    let dated = match &r.first_air_date {
        Some(d) => is_date_showable(d.as_str()),
        None => match &r.release_date {
            Some(d) => is_date_showable(d.as_str()),
            None => true,
        },
    };
    named && dated
}

/// The menu entry of a search result: `NAME (MEDIA TYPE - YEAR)`, the media type in
/// upper case.
pub open spec fn spec_series_label(r: SeriesResult) -> Seq<char> {
    spec_display_name(r) + " ("@ + str_uppercase(r.media_type@) + " - "@ + spec_result_year(r)
        + ")"@
}

/// The name shown for a result.
pub fn display_name(r: &SeriesResult) -> (s: &String)
    requires
        has_display_name(*r),
    ensures
        s@ == spec_display_name(*r),
{
    match &r.title {
        Some(t) => t,
        None => match &r.name {
            Some(n) => n,
            None => unreached(),
        },
    }
}

fn shown_year(d: &String) -> (y: String)
    requires
        date_showable(d@),
    ensures
        y@ == spec_shown_year(d@),
{
    if d.as_str().is_empty() {
        "N/A".to_owned()
    } else {
        year_of(d.as_str())
    }
}

/// The year shown for a result.
pub fn result_year(r: &SeriesResult) -> (y: String)
    requires
        result_labelable(*r),
    ensures
        y@ == spec_result_year(*r),
{
    match &r.first_air_date {
        Some(d) => shown_year(d),
        None => match &r.release_date {
            Some(d) => shown_year(d),
            None => "N/A".to_owned(),
        },
    }
}

/// The menu entry of a search result.
pub fn series_label(r: &SeriesResult) -> (s: String)
    requires
        result_labelable(*r),
    ensures
        s@ == spec_series_label(*r),
{
    let mut s = display_name(r).as_str().to_owned();
    s.append(" (");
    let kind = uppercase(r.media_type.as_str());
    s.append(kind.as_str());
    s.append(" - ");
    let year = result_year(r);
    s.append(year.as_str());
    s.append(")");
    s
}

/// The menu of search results: an entry for each result, then `search again` and `quit`.
pub open spec fn spec_series_menu(results: Seq<SeriesResult>) -> Seq<Seq<char>> {
    Seq::new(results.len(), |i: int| spec_series_label(results[i])) + series_options()
}

/// Builds the menu of search results.
pub fn series_menu(results: &Vec<SeriesResult>) -> (menu: Vec<String>)
    requires
        forall|i: int| 0 <= i < results.len() ==> result_labelable(#[trigger] results@[i]),
    ensures
        menu@.map_values(|s: String| s@) == spec_series_menu(results@),
{
    let mut menu: Vec<String> = Vec::new();
    let mut i: usize = 0;
    while i < results.len()
        invariant
            i <= results.len(),
            forall|j: int| 0 <= j < results.len() ==> result_labelable(#[trigger] results@[j]),
            menu.len() == i,
            forall|j: int| 0 <= j < i ==> #[trigger] menu@[j]@ == spec_series_label(results@[j]),
        decreases results.len() - i,
    {
        let label = series_label(&results[i]);
        menu.push(label);
        i = i + 1;
    }
    assert(menu@.map_values(|s: String| s@) =~= Seq::new(i as nat, |j: int| spec_series_label(results@[j])));
    push_series_options(&mut menu);
    menu
}

// ---------------------------------------------------------------------------
// Seasons
// ---------------------------------------------------------------------------

/// The season can be labelled: its air date, if it has one, can be cut after four bytes.
pub open spec fn season_labelable(s: SeasonInfo) -> bool {
    match s.air_date {
        Some(d) => year_cut_ok(d@),
        None => true,
    }
}

/// Whether a season can be labelled.
pub fn is_season_labelable(s: &SeasonInfo) -> (b: bool)
    ensures
        b == season_labelable(*s),
{
    match &s.air_date {
        Some(d) => d.as_str().is_char_boundary(4),
        None => true,
    }
}

/// The menu entry of a season: `NAME (YEAR)`, with `N/A` for a season with no air date.
pub open spec fn spec_season_label(s: SeasonInfo) -> Seq<char> {
    s.name@ + " ("@ + match s.air_date {
        Some(d) => spec_year(d@),
        None => "N/A"@,
    } + ")"@
}

/// The menu entry of a season.
pub fn season_label(s: &SeasonInfo) -> (r: String)
    requires
        season_labelable(*s),
    ensures
        r@ == spec_season_label(*s),
{
    let mut r = s.name.as_str().to_owned();
    r.append(" (");
    let year = match &s.air_date {
        Some(d) => year_of(d.as_str()),
        None => "N/A".to_owned(),
    };
    r.append(year.as_str());
    r.append(")");
    r
}

/// The labels of the seasons, in order.
pub open spec fn spec_season_labels(seasons: Seq<SeasonInfo>) -> Seq<Seq<char>> {
    Seq::new(seasons.len(), |i: int| spec_season_label(seasons[i]))
}

/// The menu of seasons: an entry for each season, then `back`, `search again` and `quit`.
pub open spec fn spec_season_menu(seasons: Seq<SeasonInfo>) -> Seq<Seq<char>> {
    spec_season_labels(seasons) + other_options()
}

/// Builds the menu of seasons.
pub fn season_menu(seasons: &Vec<SeasonInfo>) -> (menu: Vec<String>)
    requires
        forall|i: int| 0 <= i < seasons.len() ==> season_labelable(#[trigger] seasons@[i]),
    ensures
        menu@.map_values(|s: String| s@) == spec_season_menu(seasons@),
{
    let mut menu: Vec<String> = Vec::new();
    let mut i: usize = 0;
    while i < seasons.len()
        invariant
            i <= seasons.len(),
            forall|j: int| 0 <= j < seasons.len() ==> season_labelable(#[trigger] seasons@[j]),
            menu.len() == i,
            forall|j: int| 0 <= j < i ==> #[trigger] menu@[j]@ == spec_season_label(seasons@[j]),
        decreases seasons.len() - i,
    {
        let label = season_label(&seasons[i]);
        menu.push(label);
        i = i + 1;
    }
    assert(menu@.map_values(|s: String| s@) =~= Seq::new(i as nat, |j: int| spec_season_label(seasons@[j])));
    push_other_options(&mut menu);
    menu
}

// ---------------------------------------------------------------------------
// Episodes
// ---------------------------------------------------------------------------

/// The menu of episodes: the number of each episode, then `back`, `search again` and `quit`.
pub open spec fn spec_episode_menu(episodes: Seq<EpisodeData>) -> Seq<Seq<char>> {
    Seq::new(episodes.len(), |i: int| spec_decimal(episodes[i].episode_number as int))
        + other_options()
}

/// Builds the menu of episodes.
pub fn episode_menu(episodes: &Vec<EpisodeData>) -> (menu: Vec<String>)
    ensures
        menu@.map_values(|s: String| s@) == spec_episode_menu(episodes@),
{
    let mut menu: Vec<String> = Vec::new();
    let mut i: usize = 0;
    while i < episodes.len()
        invariant
            i <= episodes.len(),
            menu.len() == i,
            forall|j: int| 0 <= j < i ==> #[trigger] menu@[j]@ == spec_decimal(episodes@[j].episode_number as int),
        decreases episodes.len() - i,
    {
        menu.push(decimal_of(episodes[i].episode_number));
        i = i + 1;
    }
    assert(menu@.map_values(|s: String| s@) =~= Seq::new(i as nat, |j: int| spec_decimal(episodes@[j].episode_number as int)));
    push_other_options(&mut menu);
    menu
}

// ---------------------------------------------------------------------------
// Laws of the menus
// ---------------------------------------------------------------------------

/// The entry of a search result is its title (else its name), ` (`, its media type in upper
/// case, ` - `, the year, and `)`. The year comes from the first air date where there is one,
/// else from the release date; an empty or missing date shows `N/A`, and a date written in
/// ASCII shows its first four characters.
pub proof fn law_series_label_text(r: SeriesResult)
    ensures
        ({
            let name = if r.title is Some { r.title.unwrap()@ } else { r.name.unwrap()@ };
            let fd = r.first_air_date.unwrap()@;
            let rd = r.release_date.unwrap()@;
            let label = spec_series_label(r);
            let with_year = |y: Seq<char>| name + " ("@ + str_uppercase(r.media_type@) + " - "@ + y + ")"@;
            &&& r.first_air_date is Some && fd.len() > 0 ==> label == with_year(spec_year(fd))
            &&& r.first_air_date is Some && is_ascii_chars(fd) && fd.len() >= 4 ==> label == with_year(fd.take(4))
            &&& r.first_air_date is Some && fd.len() == 0 ==> label == with_year("N/A"@)
            &&& r.first_air_date is None && r.release_date is Some && rd.len() > 0 ==> label == with_year(spec_year(rd))
            &&& r.first_air_date is None && r.release_date is Some && is_ascii_chars(rd) && rd.len() >= 4 ==> label == with_year(rd.take(4))
            &&& r.first_air_date is None && (r.release_date is None || rd.len() == 0) ==> label == with_year("N/A"@)
        }),
{
    let fd = r.first_air_date.unwrap()@;
    let rd = r.release_date.unwrap()@;
    if is_ascii_chars(fd) && fd.len() >= 4 {
        law_ascii_year(fd);
    }
    if is_ascii_chars(rd) && rd.len() >= 4 {
        law_ascii_year(rd);
    }
}

/// The menu of results has one entry per result, in order, each the result's label, and
/// then exactly `search again` and `quit`.
pub proof fn law_series_menu_entries(results: Seq<SeriesResult>)
    ensures
        spec_series_menu(results).len() == results.len() + 2,
        forall|i: int| 0 <= i < results.len() ==> #[trigger] spec_series_menu(results)[i] == spec_series_label(results[i]),
        spec_series_menu(results)[results.len() as int] == "search again"@,
        spec_series_menu(results)[results.len() + 1int] == "quit"@,
{
}

/// The entry of a season is its name, ` (`, the year of its air date (its first four
/// characters for a date written in ASCII), or `N/A` without one, and `)`.
pub proof fn law_season_label_text(s: SeasonInfo)
    ensures
        s.air_date is Some ==> spec_season_label(s) == s.name@ + " ("@ + spec_year(s.air_date.unwrap()@) + ")"@,
        s.air_date is Some && is_ascii_chars(s.air_date.unwrap()@) && s.air_date.unwrap()@.len() >= 4
            ==> spec_season_label(s) == s.name@ + " ("@ + s.air_date.unwrap()@.take(4) + ")"@,
        s.air_date is None ==> spec_season_label(s) == s.name@ + " ("@ + "N/A"@ + ")"@,
{
    if s.air_date is Some && is_ascii_chars(s.air_date.unwrap()@) && s.air_date.unwrap()@.len() >= 4 {
        law_ascii_year(s.air_date.unwrap()@);
    }
}

/// The menu of seasons has one entry per season, in order, each the season's label, and then
/// exactly `back`, `search again` and `quit`.
pub proof fn law_season_menu_entries(seasons: Seq<SeasonInfo>)
    ensures
        spec_season_menu(seasons).len() == seasons.len() + 3,
        forall|i: int| 0 <= i < seasons.len() ==> #[trigger] spec_season_menu(seasons)[i] == spec_season_label(seasons[i]),
        spec_season_menu(seasons)[seasons.len() as int] == "back"@,
        spec_season_menu(seasons)[seasons.len() + 1int] == "search again"@,
        spec_season_menu(seasons)[seasons.len() + 2int] == "quit"@,
{
}

/// The menu of episodes has one entry per episode, in order, each the decimal number of the
/// episode (read back as that number), and then exactly `back`, `search again` and `quit`.
pub proof fn law_episode_menu_entries(episodes: Seq<EpisodeData>)
    ensures
        spec_episode_menu(episodes).len() == episodes.len() + 3,
        forall|i: int| 0 <= i < episodes.len() ==>
            spec_parse_i32(#[trigger] spec_episode_menu(episodes)[i]) == Some(episodes[i].episode_number),
        spec_episode_menu(episodes)[episodes.len() as int] == "back"@,
        spec_episode_menu(episodes)[episodes.len() + 1int] == "search again"@,
        spec_episode_menu(episodes)[episodes.len() + 2int] == "quit"@,
{
    assert forall|i: int| 0 <= i < episodes.len() implies
        spec_parse_i32(#[trigger] spec_episode_menu(episodes)[i]) == Some(episodes[i].episode_number) by {
        law_parse_decimal_roundtrip(episodes[i].episode_number);
    }
}

} // verus!
