# rust-retro-arcade

A retro arcade (Pong and Pac-Man behind a menu) whose game rules are a
library verified with Verus, driven by a small macroquad program.

- `src/` — the verified library:
  - `pacman/maze.rs`: reading a maze from ASCII art, walls, pellets, eating.
  - `pacman/ghost.rs`: a ghost's step toward a target.
  - `pacman/player.rs`: the player's step, with a queued turn.
  - `pong.rs`: mode choice, points, the winner and the match result.
  - `scores.rs`: high scores and their stored text (`load` / `save`).
  - `screens.rs`, `app.rs`, `input.rs`: the menu, the information screens,
    screen switching and the keyboard snapshot.
  - `audio.rs`: sound-effect names and the WAV header of generated beeps.
  - `text.rs`: whitespace tokens and decimal numbers.
- `app/` — the program: window, drawing, keyboard polling, sound playback,
  the floating-point ball and paddles, and the high-score file.
- `tests/` — tests of the library.
