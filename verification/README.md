# nexspot

The verified core of NexSpot, a Windows screenshot tool: selection and
annotation geometry, hit testing, the mosaic brush, snapping, the selection toolbar, the pin
collection, shortcut rules, GDI resource caching, colour and pixel
conversions, scrolling-capture stitching, image encoding, OCR preparation and
the PaddleOCR component protocol (over a plain model of JSON values), and
capture workflows. Every function in `src/` carries a
`requires`/`ensures` contract checked by Verus; calls into the `image`,
`base64`, `uuid` and `global-hotkey` crates and a few standard-library
functions stand behind small trusted wrappers whose contracts are documented
where they are declared.

- `src/` — the verified library (one module per concern, see `src/lib.rs`).
- `tests/` — tests on concrete values, run against the compiled library.
- `app/` — ordinary Rust around the library: file and network I/O, the
  recognizer process, reading JSON into the library's model, hotkey registration, serialisable copies of the
  library's records, and the floating-point geometry the library takes as
  inputs.
