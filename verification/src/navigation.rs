use vstd::prelude::*;

use crate::menus::{result_labelable, season_label, season_labelable, series_label, spec_season_label, spec_season_labels, spec_series_label};
use crate::numbers::{is_digit, law_parse_decimal_roundtrip, parse_i32, spec_decimal, spec_digits, spec_parse_i32};
use crate::structs::{Args, SeasonInfo, SeriesResult};
use crate::text::{is_first_index, same_text, spec_first_index};

verus! {

/// Where the program goes next. Series are given by their index in the search results.
#[derive(Clone, Copy, Debug, PartialEq, Eq, Structural)]
pub enum Screen {
    /// Ask for a new search term.
    SearchPrompt,
    /// Show the search results.
    SeriesMenu,
    /// Show the seasons of a series.
    SeasonMenu { series: usize },
    /// Show the episodes of a season.
    EpisodeMenu { series: usize, season: i32 },
    /// Play an episode.
    Player { series: usize, season: i32, episode: i32 },
    /// Stop.
    Quit,
}

/// The result is a series (its media type is `tv`).
pub open spec fn is_tv(r: SeriesResult) -> bool {
    r.media_type@ == "tv"@
}

fn tv(r: &SeriesResult) -> (b: bool)
    ensures
        b == is_tv(*r),
{
    same_text(r.media_type.as_str(), "tv")
}

/// The screen after result `index` was chosen from the menu of results: the seasons of a
/// series, or the film itself, when no season was asked for; the episodes of the asked
/// season when no episode was asked for; else the asked episode.
pub open spec fn spec_after_pick(args: Args, tv: bool, index: usize) -> Screen {
    if args.season == -1 {
        if tv {
            Screen::SeasonMenu { series: index }
        } else {
            Screen::Player { series: index, season: 1, episode: 1 }
        }
    } else if args.episode == -1 {
        Screen::EpisodeMenu { series: index, season: args.season }
    } else {
        Screen::Player { series: index, season: args.season, episode: args.episode }
    }
}

/// The screen after a search when the first result is taken at once: for a series, its
/// seasons, the episodes of the asked season, or the asked episode; a film is played.
pub open spec fn spec_after_first(args: Args, tv: bool) -> Screen {
    if tv {
        if args.season == -1 {
            Screen::SeasonMenu { series: 0 }
        } else if args.episode == -1 {
            Screen::EpisodeMenu { series: 0, season: args.season }
        } else {
            Screen::Player { series: 0, season: args.season, episode: args.episode }
        }
    } else {
        Screen::Player { series: 0, season: 1, episode: 1 }
    }
}

/// The screen after a search: the menu of results, or, with `-f`, what follows taking the
/// first result at once.
pub open spec fn spec_first_screen(args: Args, results: Seq<SeriesResult>) -> Screen {
    if !args.first {
        Screen::SeriesMenu
    } else {
        spec_after_first(args, is_tv(results[0]))
    }
}

/// The first screen of the program, after the search given on the command line: the results,
/// or, when the first result is taken at once, what `-s` and `-e` ask for (as after a search
/// typed at the prompt).
pub fn start_screen(args: &Args, results: &Vec<SeriesResult>) -> (s: Screen)
    requires
        args.first ==> results.len() >= 1,
    ensures
        s == spec_first_screen(*args, results@),
{
    search_screen(args, results)
}

/// The screen after a search typed at the prompt.
pub fn search_screen(args: &Args, results: &Vec<SeriesResult>) -> (s: Screen)
    requires
        args.first ==> results.len() >= 1,
    ensures
        s == spec_first_screen(*args, results@),
{
    if !args.first {
        return Screen::SeriesMenu;
    }
    if tv(&results[0]) {
        if args.season == -1 {
            Screen::SeasonMenu { series: 0 }
        } else if args.episode == -1 {
            Screen::EpisodeMenu { series: 0, season: args.season }
        } else {
            Screen::Player { series: 0, season: args.season, episode: args.episode }
        }
    } else {
        Screen::Player { series: 0, season: 1, episode: 1 }
    }
}

// ---------------------------------------------------------------------------
// The menu of results
// ---------------------------------------------------------------------------

/// The labels of all the results, in order.
pub open spec fn spec_series_labels(results: Seq<SeriesResult>) -> Seq<Seq<char>> {
    Seq::new(results.len(), |i: int| spec_series_label(results[i]))
}

/// Among the first `k` labels, the index of the last one equal to `x`; `0` where none is.
pub open spec fn spec_last_match(labels: Seq<Seq<char>>, x: Seq<char>, k: nat) -> nat
    decreases k,
{
    if k == 0 {
        0
    } else if labels[k - 1] == x {
        (k - 1) as nat
    } else {
        spec_last_match(labels, x, (k - 1) as nat)
    }
}

/// What choosing `sel` in the menu of results leads to: nothing for an empty choice, the
/// prompt for `search again`, the end for `quit`; any other entry picks the last result
/// whose label it is (the first result where none is).
pub open spec fn spec_series_choice(args: Args, results: Seq<SeriesResult>, sel: Seq<char>) -> Screen {
    if sel.len() == 0 {
        Screen::Quit
    } else if sel == "search again"@ {
        Screen::SearchPrompt
    } else if sel == "quit"@ {
        Screen::Quit
    } else {
        let k = spec_last_match(spec_series_labels(results), sel, results.len());
        spec_after_pick(args, is_tv(results[k as int]), k as usize)
    }
}

/// Acts on the entry `sel` chosen in the menu of results.
pub fn series_choice(args: &Args, results: &Vec<SeriesResult>, sel: &str) -> (s: Screen)
    requires
        sel@.len() != 0 && sel@ != "search again"@ && sel@ != "quit"@ ==> results.len() >= 1
            && forall|i: int| 0 <= i < results.len() ==> result_labelable(#[trigger] results@[i]),
    ensures
        s == spec_series_choice(*args, results@, sel@),
{
    if sel.is_empty() {
        return Screen::Quit;
    }
    if same_text(sel, "search again") {
        return Screen::SearchPrompt;
    }
    if same_text(sel, "quit") {
        return Screen::Quit;
    }
    let ghost labels = spec_series_labels(results@);
    let mut index: usize = 0;
    let mut k: usize = 0;
    while k < results.len()
        invariant
            k <= results.len(),
            labels == spec_series_labels(results@),
            forall|i: int| 0 <= i < results.len() ==> result_labelable(#[trigger] results@[i]),
            index == spec_last_match(labels, sel@, k as nat),
            index < results.len(),
        decreases results.len() - k,
    {
        let label = series_label(&results[k]);
        if same_text(label.as_str(), sel) {
            index = k;
        }
        k = k + 1;
    }
    let chosen = &results[index];
    if args.season == -1 {
        if tv(chosen) {
            Screen::SeasonMenu { series: index }
        } else {
            Screen::Player { series: index, season: 1, episode: 1 }
        }
    } else if args.episode == -1 {
        Screen::EpisodeMenu { series: index, season: args.season }
    } else {
        Screen::Player { series: index, season: args.season, episode: args.episode }
    }
}

// ---------------------------------------------------------------------------
// The menu of seasons
// ---------------------------------------------------------------------------

/// `sel` is one of `back`, `search again` and `quit`.
pub open spec fn is_other_option(sel: Seq<char>) -> bool {
    sel == "back"@ || sel == "search again"@ || sel == "quit"@
}

/// Whether `sel` is one of `back`, `search again` and `quit`.
pub fn is_other_option_text(sel: &str) -> (b: bool)
    ensures
        b == is_other_option(sel@),
{
    same_text(sel, "back") || same_text(sel, "search again") || same_text(sel, "quit")
}

/// What choosing `sel` in the menu of seasons of result `series` leads to: `back` to the
/// results, `search again` to the prompt, `quit` to the end; a season's label to its
/// episodes, or to the asked episode of it.
pub open spec fn spec_season_choice(args: Args, series: usize, seasons: Seq<SeasonInfo>, sel: Seq<char>) -> Screen {
    if sel == "back"@ {
        Screen::SeriesMenu
    } else if sel == "search again"@ {
        Screen::SearchPrompt
    } else if sel == "quit"@ {
        Screen::Quit
    } else {
        let number = seasons[spec_first_index(spec_season_labels(seasons), sel)].season_number;
        if args.episode == -1 {
            Screen::EpisodeMenu { series, season: number }
        } else {
            Screen::Player { series, season: number, episode: args.episode }
        }
    }
}

/// Whether `sel` can be chosen in the menu of seasons: an option, or a season's label.
pub fn is_season_entry(seasons: &Vec<SeasonInfo>, sel: &str) -> (b: bool)
    requires
        forall|i: int| 0 <= i < seasons.len() ==> season_labelable(#[trigger] seasons@[i]),
    ensures
        b == (is_other_option(sel@) || spec_season_labels(seasons@).contains(sel@)),
{
    if is_other_option_text(sel) {
        return true;
    }
    let ghost labels = spec_season_labels(seasons@);
    let mut k: usize = 0;
    while k < seasons.len()
        invariant
            k <= seasons.len(),
            labels == spec_season_labels(seasons@),
            forall|i: int| 0 <= i < seasons.len() ==> season_labelable(#[trigger] seasons@[i]),
            forall|j: int| 0 <= j < k ==> labels[j] != sel@,
        decreases seasons.len() - k,
    {
        let label = season_label(&seasons[k]);
        if same_text(label.as_str(), sel) {
            assert(labels[k as int] == sel@);
            return true;
        }
        k = k + 1;
    }
    assert(!labels.contains(sel@));
    false
}

/// Acts on the entry `sel` chosen in the menu of seasons of result `series`.
pub fn season_choice(args: &Args, series: usize, seasons: &Vec<SeasonInfo>, sel: &str) -> (s: Screen)
    requires
        forall|i: int| 0 <= i < seasons.len() ==> season_labelable(#[trigger] seasons@[i]),
        is_other_option(sel@) || spec_season_labels(seasons@).contains(sel@),
    ensures
        s == spec_season_choice(*args, series, seasons@, sel@),
{
    if same_text(sel, "back") {
        return Screen::SeriesMenu;
    }
    if same_text(sel, "search again") {
        return Screen::SearchPrompt;
    }
    if same_text(sel, "quit") {
        return Screen::Quit;
    }
    let ghost labels = spec_season_labels(seasons@);
    let mut k: usize = 0;
    while k < seasons.len()
        invariant
            k <= seasons.len(),
            labels == spec_season_labels(seasons@),
            labels.contains(sel@),
            !is_other_option(sel@),
            forall|i: int| 0 <= i < seasons.len() ==> season_labelable(#[trigger] seasons@[i]),
            forall|j: int| 0 <= j < k ==> labels[j] != sel@,
        decreases seasons.len() - k,
    {
        let label = season_label(&seasons[k]);
        if same_text(label.as_str(), sel) {
            proof {
                assert(is_first_index(labels, sel@, k as int));
                let c = spec_first_index(labels, sel@);
                assert(is_first_index(labels, sel@, c));
                if c < k {
                    assert(labels[c] != sel@);
                } else if c > k {
                    assert(labels[k as int] != sel@);
                }
            }
            let number = seasons[k].season_number;
            if args.episode == -1 {
                return Screen::EpisodeMenu { series, season: number };
            } else {
                return Screen::Player { series, season: number, episode: args.episode };
            }
        }
        k = k + 1;
    }
    proof {
        let w = choose|w: int| 0 <= w < labels.len() && labels[w] == sel@;
        assert(labels[w] != sel@);
    }
    Screen::Quit
}

// ---------------------------------------------------------------------------
// The menu of episodes
// ---------------------------------------------------------------------------

/// What choosing `sel` in the menu of episodes of a season leads to: `back` to the seasons,
/// `search again` to the prompt, `quit` to the end; an episode's number to that episode.
pub open spec fn spec_episode_choice(series: usize, season: i32, sel: Seq<char>) -> Screen {
    if sel == "back"@ {
        Screen::SeasonMenu { series }
    } else if sel == "search again"@ {
        Screen::SearchPrompt
    } else if sel == "quit"@ {
        Screen::Quit
    } else {
        Screen::Player { series, season, episode: spec_parse_i32(sel).unwrap() }
    }
}

/// Acts on the entry `sel` chosen in the menu of episodes of a season.
pub fn episode_choice(series: usize, season: i32, sel: &str) -> (s: Screen)
    requires
        is_other_option(sel@) || spec_parse_i32(sel@) is Some,
    ensures
        s == spec_episode_choice(series, season, sel@),
{
    if same_text(sel, "back") {
        return Screen::SeasonMenu { series };
    }
    if same_text(sel, "search again") {
        return Screen::SearchPrompt;
    }
    if same_text(sel, "quit") {
        return Screen::Quit;
    }
    match parse_i32(sel) {
        Some(episode) => Screen::Player { series, season, episode },
        None => Screen::Quit,
    }
}

// ---------------------------------------------------------------------------
// The menu after an episode started
// ---------------------------------------------------------------------------

/// `sel` is an entry of the menu shown while an episode plays, or the empty answer.
pub open spec fn is_player_option(sel: Seq<char>) -> bool {
    sel == "next"@ || sel == "replay"@ || sel == "previous"@ || sel == "search again"@
        || sel == "quit"@ || sel.len() == 0
}

/// Whether `sel` is an entry of the menu shown while an episode plays, or the empty answer.
pub fn is_player_option_text(sel: &str) -> (b: bool)
    ensures
        b == is_player_option(sel@),
{
    same_text(sel, "next") || same_text(sel, "replay") || same_text(sel, "previous")
        || same_text(sel, "search again") || same_text(sel, "quit") || sel.is_empty()
}

/// What choosing `sel` while episode `episode` of season `season` plays leads to.
pub open spec fn spec_player_choice(series: usize, season: i32, episode: i32, sel: Seq<char>) -> Screen {
    if sel == "next"@ {
        Screen::Player { series, season, episode: (episode + 1) as i32 }
    } else if sel == "replay"@ {
        Screen::Player { series, season, episode }
    } else if sel == "previous"@ {
        Screen::Player { series, season, episode: (episode - 1) as i32 }
    } else if sel == "search again"@ {
        Screen::SearchPrompt
    } else {
        Screen::Quit
    }
}

/// The entries of the menu shown while an episode plays.
pub open spec fn spec_player_menu() -> Seq<Seq<char>> {
    seq!["next"@, "replay"@, "previous"@, "search again"@, "quit"@]
}

/// Builds the menu shown while an episode plays.
pub fn player_menu() -> (menu: Vec<String>)
    ensures
        menu@.map_values(|s: String| s@) == spec_player_menu(),
{
    let mut menu: Vec<String> = Vec::new();
    menu.push("next".to_owned());
    menu.push("replay".to_owned());
    menu.push("previous".to_owned());
    menu.push("search again".to_owned());
    menu.push("quit".to_owned());
    assert(menu@.map_values(|s: String| s@) =~= spec_player_menu());
    menu
}

/// Acts on the entry `sel` chosen while episode `episode` of season `season` plays.
pub fn player_choice(series: usize, season: i32, episode: i32, sel: &str) -> (s: Screen)
    requires
        is_player_option(sel@),
        sel@ == "next"@ ==> episode < i32::MAX,
        sel@ == "previous"@ ==> episode > i32::MIN,
    ensures
        s == spec_player_choice(series, season, episode, sel@),
{
    if same_text(sel, "next") {
        Screen::Player { series, season, episode: episode + 1 }
    } else if same_text(sel, "replay") {
        Screen::Player { series, season, episode }
    } else if same_text(sel, "previous") {
        Screen::Player { series, season, episode: episode - 1 }
    } else if same_text(sel, "search again") {
        Screen::SearchPrompt
    } else {
        Screen::Quit
    }
}

} // verus!

verus! {

// ---------------------------------------------------------------------------
// Laws of the menus
// ---------------------------------------------------------------------------

/// The label of a search result is never one of the entries that follow the results, nor
/// the empty answer: choosing a result never searches again or quits.
pub proof fn law_series_label_is_no_option(r: SeriesResult)
    ensures
        spec_series_label(r).len() > 0,
        spec_series_label(r) != "search again"@,
        spec_series_label(r) != "quit"@,
{
    reveal_strlit(")");
    reveal_strlit("search again");
    reveal_strlit("quit");
    let l = spec_series_label(r);
    assert(l.last() == ')');
    assert("search again"@.last() == 'n');
    assert("quit"@.last() == 't');
}

/// The label of a season is never `back`, `search again` or `quit`.
pub proof fn law_season_label_is_no_option(s: SeasonInfo)
    ensures
        !is_other_option(spec_season_label(s)),
{
    reveal_strlit(")");
    reveal_strlit("back");
    reveal_strlit("search again");
    reveal_strlit("quit");
    let l = spec_season_label(s);
    assert(l.last() == ')');
    assert("back"@.last() == 'k');
    assert("search again"@.last() == 'n');
    assert("quit"@.last() == 't');
}

proof fn lemma_last_match_from(labels: Seq<Seq<char>>, x: Seq<char>, k: nat, n: nat)
    requires
        k < n <= labels.len(),
        labels[k as int] == x,
        forall|j: int| k < j < n ==> labels[j] != x,
    ensures
        spec_last_match(labels, x, n) == k,
    decreases n - k,
{
    if n > k + 1 {
        assert(labels[n - 1] != x);
        lemma_last_match_from(labels, x, k, (n - 1) as nat);
    }
}

/// Choosing the label of result `k`, where no later result has the same label, goes on with
/// result `k`.
pub proof fn law_series_choice_picks_labelled(args: Args, results: Seq<SeriesResult>, k: int)
    requires
        0 <= k < results.len(),
        forall|j: int| k < j < results.len() ==> spec_series_label(#[trigger] results[j]) != spec_series_label(results[k]),
    ensures
        spec_series_choice(args, results, spec_series_label(results[k]))
            == spec_after_pick(args, is_tv(results[k]), k as usize),
{
    law_series_label_is_no_option(results[k]);
    let labels = spec_series_labels(results);
    assert forall|j: int| k < j < results.len() implies labels[j] != spec_series_label(results[k]) by {
        assert(labels[j] == spec_series_label(results[j]));
    }
    lemma_last_match_from(labels, spec_series_label(results[k]), k as nat, results.len());
}

/// Choosing the label of season `k`, where no earlier season has the same label, opens that
/// season.
pub proof fn law_season_choice_picks_labelled(args: Args, series: usize, seasons: Seq<SeasonInfo>, k: int)
    requires
        0 <= k < seasons.len(),
        forall|j: int| 0 <= j < k ==> spec_season_label(#[trigger] seasons[j]) != spec_season_label(seasons[k]),
    ensures
        spec_season_choice(args, series, seasons, spec_season_label(seasons[k])) == (if args.episode == -1 {
            Screen::EpisodeMenu { series, season: seasons[k].season_number }
        } else {
            Screen::Player { series, season: seasons[k].season_number, episode: args.episode }
        }),
{
    law_season_label_is_no_option(seasons[k]);
    let labels = spec_season_labels(seasons);
    let x = spec_season_label(seasons[k]);
    assert(is_first_index(labels, x, k)) by {
        assert forall|j: int| 0 <= j < k implies labels[j] != x by {
            assert(labels[j] == spec_season_label(seasons[j]));
        }
    }
    let c = spec_first_index(labels, x);
    assert(is_first_index(labels, x, c));
    if c < k {
        assert(labels[c] != x);
    } else if c > k {
        assert(labels[k] != x);
    }
}

/// Choosing the entry of an episode opens exactly that episode: its number is read back from
/// the menu unchanged, and never taken for `back`, `search again` or `quit`.
pub proof fn law_episode_choice_opens_listed(series: usize, season: i32, episode_number: i32)
    ensures
        !is_other_option(spec_decimal(episode_number as int)),
        spec_episode_choice(series, season, spec_decimal(episode_number as int))
            == (Screen::Player { series, season, episode: episode_number }),
{
    law_parse_decimal_roundtrip(episode_number);
    reveal_strlit("back");
    reveal_strlit("search again");
    reveal_strlit("quit");
    let d = spec_decimal(episode_number as int);
    let first = d[0];
    assert(first == '-' || is_digit(first)) by {
        if episode_number < 0 {
        } else {
            lemma_first_is_digit(episode_number as nat);
        }
    }
    assert("back"@[0] == 'b');
    assert("search again"@[0] == 's');
    assert("quit"@[0] == 'q');
}

proof fn lemma_first_is_digit(m: nat)
    ensures
        spec_digits(m).len() > 0,
        is_digit(spec_digits(m)[0]),
    decreases m,
{
    if m >= 10 {
        lemma_first_is_digit(m / 10);
        assert(spec_digits(m)[0] == spec_digits(m / 10)[0]);
    }
}

/// `previous` undoes `next`: going to the next episode and back returns to the same one.
pub proof fn law_next_then_previous(series: usize, season: i32, episode: i32)
    requires
        episode < i32::MAX,
    ensures
        spec_player_choice(series, season, episode, "next"@) == (Screen::Player { series, season, episode: (episode + 1) as i32 }),
        spec_player_choice(series, season, (episode + 1) as i32, "previous"@) == (Screen::Player { series, season, episode }),
{
    reveal_strlit("next");
    reveal_strlit("replay");
    reveal_strlit("previous");
    assert("next"@ != "replay"@) by { assert("next"@[0] != "replay"@[0]); }
    assert("previous"@ != "next"@) by { assert("previous"@[0] != "next"@[0]); }
    assert("previous"@ != "replay"@) by { assert("previous"@.len() != "replay"@.len()); }
}

/// Picking a result in the menu of results: without `-s`, a series opens its seasons and
/// anything else is played from its first episode of its first season; with `-s` but not
/// `-e`, the episodes of that season open, whatever the media type; with both, that episode
/// plays. The result picked is the one whose label was chosen.
pub proof fn law_series_choice_screen(args: Args, results: Seq<SeriesResult>, k: int)
    requires
        0 <= k < results.len(),
        forall|j: int| k < j < results.len() ==> spec_series_label(#[trigger] results[j]) != spec_series_label(results[k]),
    ensures
        args.season == -1 && results[k].media_type@ == "tv"@ ==>
            spec_series_choice(args, results, spec_series_label(results[k])) == (Screen::SeasonMenu { series: k as usize }),
        args.season == -1 && results[k].media_type@ != "tv"@ ==>
            spec_series_choice(args, results, spec_series_label(results[k])) == (Screen::Player { series: k as usize, season: 1, episode: 1 }),
        args.season != -1 && args.episode == -1 ==>
            spec_series_choice(args, results, spec_series_label(results[k])) == (Screen::EpisodeMenu { series: k as usize, season: args.season }),
        args.season != -1 && args.episode != -1 ==>
            spec_series_choice(args, results, spec_series_label(results[k])) == (Screen::Player { series: k as usize, season: args.season, episode: args.episode }),
{
    law_series_choice_picks_labelled(args, results, k);
}

/// After a search, without `-f` the results are shown. With `-f` the first result is taken:
/// a result that is not a series is played from episode 1 of season 1, whatever `-s` and `-e`
/// say; a series opens its seasons without `-s`, the episodes of the season given with `-s`
/// but not `-e`, and the episode given with both.
pub proof fn law_first_screen(args: Args, results: Seq<SeriesResult>)
    requires
        args.first ==> results.len() >= 1,
    ensures
        !args.first ==> spec_first_screen(args, results) == Screen::SeriesMenu,
        args.first && results[0].media_type@ != "tv"@ ==>
            spec_first_screen(args, results) == (Screen::Player { series: 0, season: 1, episode: 1 }),
        args.first && results[0].media_type@ == "tv"@ && args.season == -1 ==>
            spec_first_screen(args, results) == (Screen::SeasonMenu { series: 0 }),
        args.first && results[0].media_type@ == "tv"@ && args.season != -1 && args.episode == -1 ==>
            spec_first_screen(args, results) == (Screen::EpisodeMenu { series: 0, season: args.season }),
        args.first && results[0].media_type@ == "tv"@ && args.season != -1 && args.episode != -1 ==>
            spec_first_screen(args, results) == (Screen::Player { series: 0, season: args.season, episode: args.episode }),
{
}

/// While an episode plays: `next` plays the following episode of the same season, `replay`
/// the same episode, `previous` the one before; `search again` asks for a new search;
/// `quit` and the empty answer stop. The series and season never change.
pub proof fn law_player_choice_screen(series: usize, season: i32, episode: i32, sel: Seq<char>)
    requires
        is_player_option(sel),
        sel == "next"@ ==> episode < i32::MAX,
        sel == "previous"@ ==> episode > i32::MIN,
    ensures
        sel == "next"@ ==> spec_player_choice(series, season, episode, sel) == (Screen::Player { series, season, episode: (episode + 1) as i32 }),
        sel == "replay"@ ==> spec_player_choice(series, season, episode, sel) == (Screen::Player { series, season, episode }),
        sel == "previous"@ ==> spec_player_choice(series, season, episode, sel) == (Screen::Player { series, season, episode: (episode - 1) as i32 }),
        sel == "search again"@ ==> spec_player_choice(series, season, episode, sel) == Screen::SearchPrompt,
        sel == "quit"@ || sel.len() == 0 ==> spec_player_choice(series, season, episode, sel) == Screen::Quit,
{
    reveal_strlit("next");
    reveal_strlit("replay");
    reveal_strlit("previous");
    reveal_strlit("search again");
    reveal_strlit("quit");
    assert("next"@ != "replay"@) by { assert("next"@[0] != "replay"@[0]); }
    assert("next"@ != "previous"@) by { assert("next"@[0] != "previous"@[0]); }
    assert("next"@ != "search again"@) by { assert("next"@[0] != "search again"@[0]); }
    assert("next"@ != "quit"@) by { assert("next"@[0] != "quit"@[0]); }
    assert("replay"@ != "previous"@) by { assert("replay"@.len() != "previous"@.len()); }
    assert("replay"@ != "search again"@) by { assert("replay"@[0] != "search again"@[0]); }
    assert("replay"@ != "quit"@) by { assert("replay"@[0] != "quit"@[0]); }
    assert("previous"@ != "search again"@) by { assert("previous"@[0] != "search again"@[0]); }
    assert("previous"@ != "quit"@) by { assert("previous"@[0] != "quit"@[0]); }
    assert("search again"@ != "quit"@) by { assert("search again"@[0] != "quit"@[0]); }
}

/// The fixed entries of the menus do the same wherever they are chosen: `search again` always
/// asks for a new search, `quit` always stops, and `back` goes one menu up (from the seasons to
/// the results, from the episodes to the seasons of the same series); an empty answer in the
/// menu of results stops.
pub proof fn law_menu_options(args: Args, results: Seq<SeriesResult>, series: usize, seasons: Seq<SeasonInfo>, season: i32)
    ensures
        spec_series_choice(args, results, "search again"@) == Screen::SearchPrompt,
        spec_series_choice(args, results, "quit"@) == Screen::Quit,
        spec_series_choice(args, results, Seq::<char>::empty()) == Screen::Quit,
        spec_season_choice(args, series, seasons, "back"@) == Screen::SeriesMenu,
        spec_season_choice(args, series, seasons, "search again"@) == Screen::SearchPrompt,
        spec_season_choice(args, series, seasons, "quit"@) == Screen::Quit,
        spec_episode_choice(series, season, "back"@) == (Screen::SeasonMenu { series }),
        spec_episode_choice(series, season, "search again"@) == Screen::SearchPrompt,
        spec_episode_choice(series, season, "quit"@) == Screen::Quit,
{
    reveal_strlit("back");
    reveal_strlit("search again");
    reveal_strlit("quit");
    assert("search again"@.len() != 0);
    assert("quit"@.len() != 0);
    assert("search again"@ != "quit"@) by { assert("search again"@[0] != "quit"@[0]); }
    assert("back"@ != "search again"@) by { assert("back"@[0] != "search again"@[0]); }
    assert("back"@ != "quit"@) by { assert("back"@[0] != "quit"@[0]); }
}

} // verus!
