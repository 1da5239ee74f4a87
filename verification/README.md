# aviutl2-font-select-helper

A plugin for AviUtl2 that looks for the font list among the combo boxes of the
editor and reports what it finds on the debug output.

- `src/` decides, and is verified with Verus: which window events lead to a
  probe, how often a window is probed, how a combo box is read and scored, how
  candidates are ranked, what is logged, and how the hook thread lives.
- `app/` does: `driver.rs` carries out the decisions, `win32.rs` talks to the
  window system, `plugin.rs` to the host. The last two need Windows.
- `tests/` runs the library.

The library holds window handles as addresses and times as nanoseconds. Three
things it takes from outside without proof: that `String::push` appends a
character, how `Debug` quotes a string, and what `encoding_rs` makes of
Shift_JIS bytes.
