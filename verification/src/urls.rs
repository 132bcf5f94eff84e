use vstd::prelude::*;
use vstd::pervasive::unreached;

use crate::menus::{date_showable, is_date_showable};
use crate::numbers::{decimal_of, spec_decimal};
use crate::structs::SeriesResult;
use crate::text::{law_ascii_year, spec_year, year_of};
use vstd::utf8::is_ascii_chars;

verus! {

/// The address of a multi search for `term` (inserted as it is).
pub open spec fn spec_search_url(api_base: Seq<char>, term: Seq<char>, api_key: Seq<char>) -> Seq<char> {
    api_base + "/3/search/multi?language=en&page=1&query="@ + term + "&api_key="@ + api_key
}

/// Builds the address of a multi search.
pub fn search_url(api_base: &str, term: &str, api_key: &str) -> (url: String)
    ensures
        url@ == spec_search_url(api_base@, term@, api_key@),
{
    let mut url = api_base.to_owned();
    url.append("/3/search/multi?language=en&page=1&query=");
    url.append(term);
    url.append("&api_key=");
    url.append(api_key);
    url
}

/// The address of the details of show `show_id`.
pub open spec fn spec_series_info_url(api_base: Seq<char>, show_id: i32, api_key: Seq<char>) -> Seq<char> {
    api_base + "/3/tv/"@ + spec_decimal(show_id as int) + "?api_key="@ + api_key
}

/// Builds the address of the details of a show.
pub fn series_info_url(api_base: &str, show_id: i32, api_key: &str) -> (url: String)
    ensures
        url@ == spec_series_info_url(api_base@, show_id, api_key@),
{
    let mut url = api_base.to_owned();
    url.append("/3/tv/");
    url.append(decimal_of(show_id).as_str());
    url.append("?api_key=");
    url.append(api_key);
    url
}

/// The address of the episodes of season `season` of show `show_id`.
pub open spec fn spec_season_info_url(api_base: Seq<char>, show_id: i32, season: i32, api_key: Seq<char>) -> Seq<char> {
    api_base + "/3/tv/"@ + spec_decimal(show_id as int) + "/season/"@ + spec_decimal(season as int)
        + "?api_key="@ + api_key
}

/// Builds the address of the episodes of a season.
pub fn season_info_url(api_base: &str, show_id: i32, season: i32, api_key: &str) -> (url: String)
    ensures
        url@ == spec_season_info_url(api_base@, show_id, season, api_key@),
{
    let mut url = api_base.to_owned();
    url.append("/3/tv/");
    url.append(decimal_of(show_id).as_str());
    url.append("/season/");
    url.append(decimal_of(season).as_str());
    url.append("?api_key=");
    url.append(api_key);
    url
}

/// The title sent to the providers: the result's name, else its title.
pub open spec fn spec_query_title(r: SeriesResult) -> Seq<char> {
    match r.name {
        Some(n) => n@,
        None => r.title.unwrap()@,
    }
}

/// The `&year=` parameter for a date: none for an empty date.
pub open spec fn spec_year_param_of(d: Seq<char>) -> Seq<char> {
    if d.len() == 0 { Seq::<char>::empty() } else { "&year="@ + spec_year(d) }
}

/// The `&year=` parameter sent to the providers: from the release date if there is one, else
/// from the first air date; none where neither is there.
pub open spec fn spec_year_param(r: SeriesResult) -> Seq<char> {
    match r.release_date {
        Some(d) => spec_year_param_of(d@),
        None => match r.first_air_date {
            Some(d) => spec_year_param_of(d@),
            None => Seq::<char>::empty(),
        },
    }
}

/// The result can be sent to the providers: it has a name or a title, and the date that its
/// year comes from can be cut after four bytes.
pub open spec fn queryable(r: SeriesResult) -> bool {
    &&& (r.name is Some || r.title is Some)
    &&& match r.release_date {
        Some(d) => date_showable(d@),
        None => match r.first_air_date {
            Some(d) => date_showable(d@),
            None => true,
        },
    }
}

/// Whether a result can be sent to the providers.
pub fn is_queryable(r: &SeriesResult) -> (b: bool)
    ensures
        b == queryable(*r),
{
    let named = r.name.is_some() || r.title.is_some();
    let dated = match &r.release_date {
        Some(d) => is_date_showable(d.as_str()),
        None => match &r.first_air_date {
            Some(d) => is_date_showable(d.as_str()),
            None => true,
        },
    };
    named && dated
}

fn year_param_of(d: &String) -> (p: String)
    requires
        date_showable(d@),
    ensures
        p@ == spec_year_param_of(d@),
{
    let mut p = String::new();
    if !d.as_str().is_empty() {
        p.append("&year=");
        p.append(year_of(d.as_str()).as_str());
    }
    p
}

/// The `&year=` parameter sent to the providers.
pub fn year_param(r: &SeriesResult) -> (p: String)
    requires
        queryable(*r),
    ensures
        p@ == spec_year_param(*r),
{
    match &r.release_date {
        Some(d) => year_param_of(d),
        None => match &r.first_air_date {
            Some(d) => year_param_of(d),
            None => String::new(),
        },
    }
}

/// The address at which provider `provider` is asked for episode `episode` of season `season`
/// of the result `r`.
pub open spec fn spec_source_url(api_base: Seq<char>, provider: Seq<char>, r: SeriesResult, season: i32, episode: i32) -> Seq<char> {
    api_base + "/"@ + provider + "/sources-with-title?title="@ + spec_query_title(r) + spec_year_param(r)
        + "&mediaType="@ + r.media_type@ + "&episodeId="@ + spec_decimal(episode as int)
        + "&seasonId="@ + spec_decimal(season as int) + "&tmdbId="@ + spec_decimal(r.id as int)
}

/// Builds the address at which a provider is asked for an episode.
pub fn source_url(api_base: &str, provider: &str, r: &SeriesResult, season: i32, episode: i32) -> (url: String)
    requires
        queryable(*r),
    ensures
        url@ == spec_source_url(api_base@, provider@, *r, season, episode),
{
    let mut url = api_base.to_owned();
    url.append("/");
    url.append(provider);
    url.append("/sources-with-title?title=");
    let title = match &r.name {
        Some(n) => n,
        None => match &r.title {
            Some(t) => t,
            None => unreached(),
        },
    };
    url.append(title.as_str());
    url.append(year_param(r).as_str());
    url.append("&mediaType=");
    url.append(r.media_type.as_str());
    url.append("&episodeId=");
    url.append(decimal_of(episode).as_str());
    url.append("&seasonId=");
    url.append(decimal_of(season).as_str());
    url.append("&tmdbId=");
    url.append(decimal_of(r.id).as_str());
    url
}

/// The address at which a provider is asked for an episode is the provider's path, the
/// title (the name, else the title), then `&year=` and the year of the release date where
/// there is a non-empty one, else of the first air date where there is a non-empty one and no
/// release date, else nothing, then the media type, the episode, the season and the id.
/// For a date written in ASCII, the year sent is its first four characters.
pub proof fn law_source_url_year(api_base: Seq<char>, provider: Seq<char>, r: SeriesResult, season: i32, episode: i32)
    requires
        queryable(r),
    ensures
        ({
            let url = spec_source_url(api_base, provider, r, season, episode);
            let head = api_base + "/"@ + provider + "/sources-with-title?title="@
                + (if r.name is Some { r.name.unwrap()@ } else { r.title.unwrap()@ });
            let tail = "&mediaType="@ + r.media_type@ + "&episodeId="@ + spec_decimal(episode as int)
                + "&seasonId="@ + spec_decimal(season as int) + "&tmdbId="@ + spec_decimal(r.id as int);
            let rd = r.release_date.unwrap()@;
            let fd = r.first_air_date.unwrap()@;
            &&& r.release_date is Some && rd.len() > 0 ==> url == head + "&year="@ + spec_year(rd) + tail
            &&& r.release_date is Some && is_ascii_chars(rd) && rd.len() >= 4 ==> url == head + "&year="@ + rd.take(4) + tail
            &&& r.release_date is Some && rd.len() == 0 ==> url == head + tail
            &&& r.release_date is None && r.first_air_date is Some && fd.len() > 0 ==> url == head + "&year="@ + spec_year(fd) + tail
            &&& r.release_date is None && r.first_air_date is Some && is_ascii_chars(fd) && fd.len() >= 4 ==> url == head + "&year="@ + fd.take(4) + tail
            &&& r.release_date is None && (r.first_air_date is None || fd.len() == 0) ==> url == head + tail
        }),
{
    let head = api_base + "/"@ + provider + "/sources-with-title?title="@
        + (if r.name is Some { r.name.unwrap()@ } else { r.title.unwrap()@ });
    let tail = "&mediaType="@ + r.media_type@ + "&episodeId="@ + spec_decimal(episode as int)
        + "&seasonId="@ + spec_decimal(season as int) + "&tmdbId="@ + spec_decimal(r.id as int);
    lemma_source_url_parts(api_base, provider, r, season, episode);
    let rd = r.release_date.unwrap()@;
    let fd = r.first_air_date.unwrap()@;
    if r.release_date is Some && rd.len() > 0 {
        lemma_concat3(head, "&year="@, spec_year(rd), tail);
        if is_ascii_chars(rd) && rd.len() >= 4 {
            law_ascii_year(rd);
        }
    }
    if r.release_date is None && r.first_air_date is Some && fd.len() > 0 {
        lemma_concat3(head, "&year="@, spec_year(fd), tail);
        if is_ascii_chars(fd) && fd.len() >= 4 {
            law_ascii_year(fd);
        }
    }
    if spec_year_param(r).len() == 0 {
        assert(head + spec_year_param(r) =~= head);
    }
}

proof fn lemma_concat3(head: Seq<char>, a: Seq<char>, b: Seq<char>, tail: Seq<char>)
    ensures
        head + (a + b) + tail == head + a + b + tail,
{
    assert(head + (a + b) + tail =~= head + a + b + tail);
}

proof fn lemma_source_url_parts(api_base: Seq<char>, provider: Seq<char>, r: SeriesResult, season: i32, episode: i32)
    ensures
        spec_source_url(api_base, provider, r, season, episode) == (api_base + "/"@ + provider
            + "/sources-with-title?title="@ + (if r.name is Some { r.name.unwrap()@ } else { r.title.unwrap()@ }))
            + spec_year_param(r) + ("&mediaType="@ + r.media_type@ + "&episodeId="@ + spec_decimal(episode as int)
            + "&seasonId="@ + spec_decimal(season as int) + "&tmdbId="@ + spec_decimal(r.id as int)),
{
    let t = if r.name is Some { r.name.unwrap()@ } else { r.title.unwrap()@ };
    assert(spec_query_title(r) == t);
    assert(spec_source_url(api_base, provider, r, season, episode) =~= (api_base + "/"@ + provider
            + "/sources-with-title?title="@ + t)
            + spec_year_param(r) + ("&mediaType="@ + r.media_type@ + "&episodeId="@ + spec_decimal(episode as int)
            + "&seasonId="@ + spec_decimal(season as int) + "&tmdbId="@ + spec_decimal(r.id as int)));
}

} // verus!
