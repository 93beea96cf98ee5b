# chessmarkable

Chess for an e-ink tablet: a game with an undo history, a request/update
protocol between a game server, players and spectators, a small search bot,
a replay of recorded games, and the board screen that drives them from touch
input.

The library under `src/` is written in Verus; every function in it carries a
contract that Verus proves, except the thin wrappers that call the chess
rules engine (`shakmaty`), the conversions of the engine's values, the
operations of the `FxHashSet` that holds a set of squares, and two string
helpers of std, which are marked as trusted and say in their doc comments
what they claim.

- `player`, `square`: the two sides and the 64 squares, with their names.
- `engine`: the engine's moves and pieces as plain values, and the wrappers
  that ask the engine about a position held as FEN text.
- `game`: a game with its history, outcome and undo.
- `proto`: requests, updates, the game server's and the bot's decisions.
- `search`: position evaluation, alpha-beta search and the bot's move.
- `replay`: stepping through a recorded game, with moves of one's own.
- `board_ui`, `replay_scene`: what a tap on the board does and what to draw.
- `touch`, `framebuffer`, `hal`: multitouch tracking and pixel work on the
  display's frame buffer.

`app/` holds what Verus does not see: the program, the channels and tasks of
the game server and the bot, the DRM display, the touch device reader, text
rendering and the serde-enabled copies of the library's types.

`tests/` runs the library on concrete values.
