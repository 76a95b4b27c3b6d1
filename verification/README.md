# pdf_oxide (verified core)

A PDF toolkit core whose logic is written in Verus and proved against its
contracts.

- `src/` — the verified library:
  - `writer/` — document metadata and writer configuration, text wrapping,
    the five objects of an embedded font and its width arrays,
    streaming-table rows, and the file layout of a written PDF (header,
    object numbering, the objects in write order with a cross-reference
    section that covers each exactly once, trailer).
  - `signatures/` — CMS signer verification (RSA-PKCS#1 v1.5 over
    SHA-1/256/384/512) and the detached-content `messageDigest` check.
  - `rendering/` — separation plates: page inks, tint sources, colour
    state tracking, clip intersection, and the per-operator step that
    decides what reaches a plate (painting, pending clips, save/restore,
    Form XObjects).
  - `ffi.rs` — the value-level logic of the C interface: error codes, log
    levels, option codes, outline and XMP JSON, font lists, builder
    handles.
  - `regression.rs` — the JSON records of the extraction regression run.
- `app/` — the C entry points, the logging macros, the tiny-skia painting
  glue (including the loop that performs the separation step's actions),
  the annotation JSON, font metrics conversion and the report printer.
- `tests/` — tests of the library.
