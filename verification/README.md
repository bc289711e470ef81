# win_screen_core

The logic of a Windows screenshot, annotation, desktop-pin and screen-recording
toolkit, written in Verus and proved against its contracts.

## Layout

- `src/`: the verified library.
  - `api.rs`: images, rectangles, handles and the recording builder.
  - `capture.rs`: monitor and window geometry, BGRA to RGBA conversion.
  - `overlay.rs`: the selection overlay as a state machine, with hit testing,
    moving, resizing and toolbar placement.
  - `annotate.rs`, `raster.rs`, `editor.rs`: the annotation document with
    undo and redo, the pixel drawing routines, and the editor's state machine.
  - `pin.rs`: the pin registry and the pin window's opacity rules.
  - `record.rs`: monitor choice for a region, the recording registry
    (pause, resume, stop) and audio remixing and mixing.
  - `recording.rs`: the request-only recording entry points, which answer
    that recording is not implemented yet.
  - `io.rs`: PNG, JPEG and Base64 through the `image` and `base64` crates.
  - `cli.rs`, `plugin.rs`: argument parsing and the plugin command logic.
- `tests/`: tests of the library on concrete values.
- `app/`: the Windows program around it: windows, message loops, GDI,
  capture and audio devices, files and the clipboard.
