# snip2text

Press a key combination or click the tray icon, drag out a rectangle on the screen, and the
text in it lands on the clipboard. Recognition is done by Windows.

- `src/` holds everything the program decides and computes, with contracts that Verus proves:
  the reaction to each event, the selection and its picture, the way of a snippet from the
  captured bytes to the recogniser's bitmap, and the settings. `src/laws.rs` and
  `src/brightness.rs` state what holds of the program as a whole and of prepared snippets.
- `app/` is the program around it: the event loop, windows, the screen, the recogniser, the
  clipboard, the tray icon and the settings file. It also judges whether a snippet is dark,
  which is a matter of floating point.
- `tests/` runs the library.

Three things are taken from outside code without proof, each behind a documented item:
nearest-neighbour resizing of the `image` crate, the parser of the `global-hotkey` crate, and
`char::is_whitespace`.
