# geswm

A tiling Wayland compositor. The decisions it makes (where windows go, which
window has the focus, what a key press runs, how a window's border and gaps
are cut out of its place, in what order a frame is drawn) live in `src/` and
are proved with Verus against contracts over mathematical models:

- `geometry`: points, sizes, rectangles and window geometries.
- `layout`: the master/stack layout and the laws of its tiling.
- `surface`: the transformer pipeline (borders, gaps) and the border strips.
- `server`: the window stack (adding, removing, raising, focus moves, pruning)
  and the routing of backend events.
- `daemon`: key bindings, command execution, focus upkeep and window
  arrangement, as functions from state to state.
- `cmd`, `config`, `input`: commands, colors, window rules and key combinations.
- `backend`: render geometry and drawing order.

`app/` is the program around the library: the Wayland protocol handlers
(smithay), the winit host window and renderer, the socket, process spawning
and the main loop. It hands the library plain values and acts on what comes
back.
