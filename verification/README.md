# hero

A small vertical space shooter built on macroquad. The library (`src/`) holds
the game's rules, verified with Verus:

- `game`: the phases of a session (menu, play, pause, game over), the score and
  best score, and what each kind of frame decides.
- `combat`: which bullets and enemies a frame's contacts strike, the explosions
  and points that follow, and which bodies stay.
- `decimal`: the decimal form in which the best score is recorded and read back.
- `text`: the loading, score and best-score texts.
- `sprites`: the sprite sheets and the ship's choice of animation.

`app/` is the program: window, input, sound, drawing, and the floating-point
motion and geometry of the bodies.
