# ssd1306_physics

2D drawings of physical objects (robotic arm, pendulum, piston, spring–mass
system, compass, gears) for 128×64 SSD1306 OLED screens.

- `src/` — the library.  Every object computes the exact list of shapes
  (`shape::Shape`: pixels, lines, circle outlines, filled disks) it paints, in
  order; the contracts state that list over spec functions, and proof
  functions state the library's laws (erasing paints the drawing's commands
  all cleared, the piston stays within its travel and its chamber, the hatch
  texture clears every fourth diagonal of its block, the zigzag of the spring
  goes strictly down, the jaws of the gripper are symmetric, …).  Directions
  that depend on angles come in as offsets already rounded to whole pixels.
- `app/` — plain Rust around it: the trigonometry and rounding (floating
  point, with injected `sin`/`cos` functions), the gear pairs and trains, and
  the painting of the shapes through `embassy-ssd1306-graphics`.
- `tests/` — scenarios on concrete values.
