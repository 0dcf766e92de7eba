# Wolf Screen Recorder

A screen recorder with hardware-accelerated encoding, annotations and a
snapshot editor. The decisions it makes are a Verus-verified library; the
program around it talks to the devices.

- `src/` — the verified library: encoder selection and FFmpeg command lines
  (`hardware`, `capture`, `audio`, `webcam`), hotkey state (`hotkeys`),
  click tracking and the zoom filter (`focus`), localisation (`i18n`),
  settings (`config`), the capture region (`region`), pixel-level drawing
  (`canvas`, `annotations`, `render`), the editor's shape stack and colour
  parsing (`editor`), and status texts (`status`).
- `tests/` — tests of the library on concrete values.
- `app/` — the command-line program: device access (screen, microphone,
  camera, keyboard), FFmpeg processes, files, dialogs and the clipboard.

The library draws every shape in whole pixels and hands back the text that
goes over it (position, size, colour, characters); the program writes that
text with ab_glyph, since whether a font lays out without failing depends on
the font's own data. Text in images is drawn with `assets/Roboto-Regular.ttf` and the interface
texts come from `assets/locales/<lang>.json`; the program looks for them
under `./assets` or the directory named by `WOLF_ASSETS`.
