# breakout

The rules of Insiculous Breakout, a neon Breakout game, as a Verus-verified
library, with the engine-facing game shell in `app/`.

`src/` (verified):

- `types.rs` — chaos modes, game modes, paddle sides, pickup kinds, screen state.
- `game.rs` — the menu and match state machine: level choice, serving and
  launching, armor damage and scoring, combos, ball loss and lives, winning.
  Its invariant `wf` is kept by every operation.
- `bricks.rs` — brick hit outcomes and the specification of a frame's hits.
- `levels.rs` — level rosters, the `brick_r{row}_c{col}` naming grammar and
  the `armored{N}+drop_*` tag grammar of the level scenes.
- `text.rs` — character-level parsing helpers (digits, whitespace trimming,
  splitting).
- `achievements.rs`, `power_ups.rs`, `spawning.rs`, `hud.rs`, `constants.rs`.

`app/` performs everything the rules decide on the game engine: entities,
physics, the floating-point motion rules, particles, menus and drawing.
