# stm32wba-tftdisplay

Demos for a NUCLEO-WBA65RI board with a 2.8" ILI9341 panel, an FT6236 touch
controller and an ICM-20948 motion sensor. What the demos decide and compute is a
library whose contracts are proved with Verus; the firmware around it talks to the
hardware.

## Library (`src/`)

| Module | What it holds |
| :--- | :--- |
| `mesh` | Frame buffer with dirty rectangles, what is cleared and sent to the panel, colour and mode cycle, statistics |
| `orientation` | Buttons, sensor readings and text of the orientation demo |
| `doom` | Map and movement, controls, rules of the game, textures, overlay and status bar of the level |
| `studio` | Link to the host, touch reports and panel commands of the live display |
| `array_string`, `text`, `color` | Bounded strings, text in a frame buffer, RGB565 colours |
| `ft6236`, `timing` | Registers of the touch controller, delays in cycles |

Floating point stays outside: the library works on cells, pixels and counters, and
takes what the firmware computes from angles and positions as plain numbers.
Calls into outside crates stand behind small functions whose contracts are
believed; each says in its doc comment what it claims.

## Firmware (`app/`)

`app/main.rs` runs the demo that `DEMO` names:

- `mesh_demo`: a cube and an octahedron, sent to the panel by their bounding boxes.
- `doom_demo`: a level to walk through, by buttons, touch, a patrol of its own, or,
  after three quick presses of the middle button, the attitude of the board.
- `orientation_demo`: a spacecraft that turns as the board does, by a filter after VQF
  or by Madgwick's. The first button steps through the ways it is drawn. The second
  takes the present attitude as zero, and, held for about a second, starts or stops the
  calibration of the magnetometer. The third resets the filter, and, held, swaps it.
- `studio_agent`: a live remote display on a vendor-specific USB bulk interface.

The library uses `Vec` and the rest of `std`, so the firmware is built for a target
that has `std`, with an allocator.
