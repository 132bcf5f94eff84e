use vstd::prelude::*;

use crate::menus::{display_name, has_display_name, spec_display_name};
use crate::numbers::{decimal_of, spec_decimal};
use crate::structs::{Args, SeriesResult};
use crate::text::push_char;

verus! {

/// The header of the menu shown while an episode plays.
pub open spec fn spec_player_header(r: SeriesResult, season: i32, episode: i32) -> Seq<char> {
    "Options for "@ + spec_display_name(r) + " - Season "@ + spec_decimal(season as int)
        + " Episode "@ + spec_decimal(episode as int)
}

/// Builds the header of the menu shown while an episode plays.
pub fn player_header(r: &SeriesResult, season: i32, episode: i32) -> (h: String)
    requires
        has_display_name(*r),
    ensures
        h@ == spec_player_header(*r, season, episode),
{
    let mut h = "Options for ".to_owned();
    h.append(display_name(r).as_str());
    h.append(" - Season ");
    h.append(decimal_of(season).as_str());
    h.append(" Episode ");
    h.append(decimal_of(episode).as_str());
    h
}

/// The player's argument that sets the window title to the shown name.
pub open spec fn spec_media_title_arg(r: SeriesResult) -> Seq<char> {
    "--force-media-title="@ + spec_display_name(r)
}

/// Builds the player's argument that sets the window title.
pub fn media_title_arg(r: &SeriesResult) -> (a: String)
    requires
        has_display_name(*r),
    ensures
        a@ == spec_media_title_arg(*r),
{
    let mut a = "--force-media-title=".to_owned();
    a.append(display_name(r).as_str());
    a
}

/// The line printed above and below an extracted link: `cols` equal signs.
pub fn separator_line(cols: u16) -> (line: String)
    ensures
        line@ == Seq::new(cols as nat, |i: int| '='),
{
    let mut line = String::new();
    let mut i: u16 = 0;
    while i < cols
        invariant
            i <= cols,
            line@ == Seq::new(i as nat, |j: int| '='),
        decreases cols - i,
    {
        push_char(&mut line, '=');
        i = i + 1;
        assert(line@ =~= Seq::new(i as nat, |j: int| '='));
    }
    line
}

/// What is done with the link of an episode.
#[derive(Clone, Copy, Debug, PartialEq, Eq, Structural)]
pub enum Playback {
    /// Print the link between two separator lines, then stop.
    PrintLink,
    /// Open the link in the player, then show the menu of what to play next.
    OpenPlayer,
}

/// What is done with the link of an episode: with `--extract` it is printed, else it is played.
pub fn playback(args: &Args) -> (p: Playback)
    ensures
        p == (if args.extract { Playback::PrintLink } else { Playback::OpenPlayer }),
{
    if args.extract {
        Playback::PrintLink
    } else {
        Playback::OpenPlayer
    }
}

} // verus!
