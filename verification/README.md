# chess_player_filter

Checks chess.com accounts for quality: an account passes when it is older
than a minimum number of days and has played more than a minimum number of
games. Results are cached in memory (30 minutes) and in SQLite (one hour) and
listed best verdict first.

- `src/` is the verified library (Verus):
  - `text.rs`: trimming, splitting on commas, decimal rendering and parsing;
  - `player.rs`: verdicts, their ranking and the text of a result row;
  - `checks.rs`: the age check and the games check on a player's data;
  - `decode.rs`: reading the JSON bodies of the profile and statistics responses;
  - `cache.rs`: the in-memory result cache and the freshness rules;
  - `lookup.rs`: the lookup of one player as a state machine;
  - `ordering.rs`: the stable ordering of the results;
  - `form.rs`: the state of the form, starting a check, taking its results.
- `app/` is the desktop program (eframe window, reqwest, sqlx, tokio) that
  performs the actions the library asks for.
- `tests/` runs the library on concrete values.
