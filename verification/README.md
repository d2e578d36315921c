# rtop

The core of `rtop`, a terminal resource monitor in the style of btop:
layout description and placement, box and graph drawing, the theme and
gradient machinery, text measuring and fitting, the keybind table and key
dispatch, and the state of the main menu, help and options overlays.

Everything under `src/` is checked by Verus against its contracts. The
few calls into other crates (display
widths from `unicode-width`, grapheme clusters from
`unicode-segmentation`, std's hasher and `String::push`) sit behind small
trusted wrappers whose contracts are documented where they are declared.

Layout:

- `src/domain` – widgets, presets, the layout language, per-resource data.
- `src/draw` – ANSI buffer, boxes, meters, graphs, layout placement,
  dimming, the line editor.
- `src/handlers` – keybind table, dispatch, and the normal-mode key
  decisions.
- `src/overlay`, `src/menu` – overlay state machines, and the drawing of
  the help overlay, the options menu, the main menu, the key list, the
  message box and the priority picker.
- `src/theme*.rs`, `src/themes` – colour palettes and gradients.
- `app/` – the terminal front end (raw mode, key reading, theme files,
  host name, byte-size formatting with floating point).
- `tests/` – scenario tests run against the compiled library.
