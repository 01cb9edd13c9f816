# grabit

Selection-triggered actions for Wayland desktops: highlight text anywhere, get a
small bar of actions over it.

* `src/` is the library, written in Verus. It holds the decisions of the program
  that need no floating point: how selections settle, what a selection is recognised as, which actions
  are loaded and in what order, which of them apply, what invoking one comes to,
  how the bar and the settings window react, and how the files are edited. Each
  function states what it does, and the `law_` proof functions state what holds
  of the library as a whole.
* `tests/` runs the library on concrete values.
* `app/` is the program around it: Wayland, D-Bus, processes, files and drawing.
  Where the bar goes on its output is worked out there as well, because pointer
  positions and sizes are floating point.

The library calls `toml` and `toml_edit` to read and edit files, `regex` to match
selections, `htmd` to turn HTML into Markdown and `shell-words` to print command
lines. What is believed of each call stands beside it, in a doc comment that
names the function.
