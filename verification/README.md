# mightty

A terminal emulator core, verified with Verus: the library under `src/`
holds the logic of the terminal and states it in contracts; `app/` is the
program around it (the GPUI window, the libghostty-vt bindings and the
pseudo-terminal system calls).

Library modules:

- `input`: key events to VT byte sequences (cursor keys, function keys,
  control characters, Alt prefix, application cursor mode).
- `keystroke`: keystrokes as the window system reports them, and the string
  helpers used on them and elsewhere (decimal numbers among them).
- `ghostty`: the terminal core's value types, result codes and key codes, and
  the decisions taken on what the core reports.
- `split`: a tab's pane layout as a tree of row and column splits, with
  splitting, closing and focus.
- `pane_container`: tabs, the sidebar and the window shortcuts.
- `widget`: keystroke translation for the key encoder, row layout in text
  segments, cursor blink, and the batching of shell output.
- `feedback`: the structured snapshot of the screen written by the capture
  shortcut.
- `shell`: terminal sizes, read results, and the decisions of the Unix and
  Windows shell sessions.
