# mov-cli-rs

A terminal client that searches a media catalogue for films and series, lets the user pick
a result, a season and an episode with `fzf`, finds a playable stream among several
providers and opens it in `mpv` (or prints its link with `--extract`).

## Layout

- `src/` — the verified library (Verus):
  - `structs.rs`: the command line and the catalogue's and providers' records;
  - `text.rs`, `numbers.rs`: characters, replacing, suffixes, years of dates, decimal
    rendering and parsing of `i32`;
  - `menus.rs`: the entries of the menus of results, seasons and episodes;
  - `navigation.rs`: the screens and what each choice in a menu leads to;
  - `sources.rs`: ranking the qualities of the streams and choosing the one to play;
  - `providers.rs`: asking the providers in turn;
  - `urls.rs`, `player.rs`: the addresses requested and the texts shown around the player.
- `app/` — the program around it: command line, HTTP requests, JSON, fzf, mpv.
- `tests/` — tests of the library.

## Settings of the program

The program reads where the services are from the environment: `MOV_CLI_TMDB_API`
(default `https://api.themoviedb.org`), `MOV_CLI_TMDB_KEY`, `MOV_CLI_SOURCES_API`,
`MOV_CLI_REFERER` and `MOV_CLI_AGENT`.
