# Terminal Farms

A small idle farming game for the terminal: till, sow and harvest a field,
sell the produce, buy seeds, land and machines that work the farm on their
own, and start over with a rebirth for a permanent bonus. The farm keeps
growing while the game is closed and is saved in a SQLite database.

## Layout

- `src/` is the game's library, verified with Verus. Every public function
  states what it returns or changes in terms of a mathematical model of the
  farm (`GameModel`, `AppModel`), and `src/laws.rs` proves properties that
  span several operations: saved farms read back unchanged, a valid farm stays
  valid, buying land keeps every tile in place, earnings only grow within a
  run, the cursor stays on the field, a reset takes two presses in a row,
  backups made at different times never share a name.
  - `data.rs`: the crop and machine catalogs, their validation, the built-in data.
  - `game.rs`: the farm and every action on it, the machinery.
  - `price.rs`: what a sale brings, in the double-precision arithmetic of
    `base · (1 + 0.1 · tokens)` rounded to whole coins, stated and computed
    with integers.
  - `storage.rs`: schema versions and the conversion between a farm and the
    rows of its save.
  - `session.rs`: keys, mouse events and the clock in the interactive game.
  - `display.rs`, `layout.rs`: what the screen shows and where.
  - `keyed.rs`, `text.rs`: a map kept in key order, and text helpers.
- `app/` is the program around it: command-line options, the terminal, drawing
  with ratatui, and the SQLite database.
- `tests/` runs the library on concrete cases.

Time is counted in milliseconds and growth rates in basis points, so that the
rules are exact integer arithmetic. Sale prices follow IEEE 754 double
precision exactly: each rounding step of the multiplication is spelled out on
integer significands and exponents.
