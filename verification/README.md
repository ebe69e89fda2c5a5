# linuxpal

A pixel-art desktop mascot for Hyprland / Wayland, with its decision logic
verified by Verus.

- `src/` is the verified library: window classification (`context`),
  control commands (`control`), settings and the morning routine (`config`,
  `morning`), reading what Hyprland, GNOME and X11 report (`ipc`) and what
  media players play (`player`), model prompts, replies and streamed
  answers (`llm`), the speech bubble and its bitmap font (`bubble`), the
  action menu (`menu`), blitting (`renderer`), sprites and animation
  (`sprites`), and the pet itself: its state (`pet`), the output layout
  (`geometry`), roaming (`roam`), the per-tick state machine (`tick`), its
  reactions to events (`events`), drawing a frame (`scene`), and the
  properties that hold across steps (`laws`).
- `app/` is the program around it: the Wayland surface and input, the
  worker threads that poll and talk to the models, and the control socket.
- `tests/` exercise the library on concrete values.

Each tick the shell hands the pet the deciding window and the media state;
the pet returns the effects to carry out (model queries, launches, surface
moves, keyboard grabs).
