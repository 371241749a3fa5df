# sabacc-core

Kessel Sabacc — the card game of the Outer Rim — as a verified Rust library, with a
terminal front end.

- `src/` is the library, verified with Verus: cards and decks, hands and their ranking,
  shift tokens, the round and game state machine, statistics, the bot strategies, and
  the pure update of the terminal front end (screens, overlays, the log and its cues,
  the bots' runs). Laws of the game are stated and proved there too: no action creates
  chips (`conservation`), every action keeps the game state valid (`validity`), and
  every bot move brings the round closer to its end (`progress`).
- `tests/` holds the tests of the library.
- `app/` is the terminal program: command line, keyboard, drawing with ratatui.

Chance comes from a seeded `rand::rngs::SmallRng`, so a game replays exactly from its
seed.
