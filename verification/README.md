# qrgen

A QR code generator with a desktop editor. The library (`src/`) is verified
with Verus; the window, file dialogs, clipboard and history file live in `app/`.

- `src/types.rs` — export formats, module shapes, error-correction levels and
  their one-letter history codes.
- `src/qr.rs` — QR module matrices (encoded by the `qrcode` crate), their
  rendering to RGBA pixels and to SVG, and what an export writes.
- `src/history.rs` — history entries and their labels.
- `src/state.rs` — the editor's state and every change the interface makes to it.
- `src/theme.rs` — the colors of the dark and light themes.
- `app/` — the egui front end, the JSON history file and the save dialog.

Exports are built in the library as a plain RGBA byte buffer (`RgbaBuffer`), row
by row and four bytes per pixel — the layout `image::RgbaImage` holds and the
clipboard takes. Filling an image pixel by pixel is a few lines, so it is written
and proved in `src/qr.rs` rather than driven through the `image` crate; the app
turns the buffer into an `image::RgbaImage` with `from_raw` only to encode a PNG
file. Colors are kept with straight alpha; the app converts to and from egui's
premultiplied colors at the widgets.
