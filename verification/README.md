# xv0

The logic of xv0, a small hobby x86 kernel, as a Verus library, with the
kernel glue around it.

- `src/` is the verified library:
  - `vga`: the text writer on the 320x200 framebuffer (cursor, line feeds,
    scrolling, backspace, glyphs from `font8x8`).
  - `timer`: the PIT reload value, the tick counter and the wait test.
  - `queue`: the `crossbeam_queue` bounded queues, with what push and pop do.
  - `keyboard`: held keys, the scancode stream, subscribers and their event
    queues, and the step that decodes a scancode with `pc_keyboard`.
  - `line`: line editing at the shell prompt.
  - `shell`: word splitting, the command table and command dispatch.
  - `doom`: the PLAYPAL lookup in a WAD, nearest-colour matching, the colour
    cache, frame conversion and the movement command from held keys.
- `tests/` runs the library on concrete inputs.
- `app/` is the kernel around it: statics, interrupt handlers, port I/O,
  copying the framebuffer to VGA memory, the executor and the async tasks.
