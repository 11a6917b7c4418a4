# serendip

Reads Fluke is2 thermal imagery: the thermal data, the standard
measurement markers and the visible-light images of a thermogram.
Supported cameras: Ti400, Ti401P and TiS75+ (ZIP-based is2 files).

The library in `src/` is written in Verus and verified: every decoding
step has a contract over a mathematical model of its input bytes.

- `src/lib.rs` — `SerendipThermogram`, the entry point (`new_from_bytes`).
- `src/markers.rs` — markers and their conversion to thermal coordinates.
- `src/text.rs` — characters of strings, prefixes, suffixes, ordering,
  UTF-8 and UTF-16 decoding.
- `src/parsing/protobuf.rs` — the protobuf wire format of the `.gpbenc`
  files, read with `prost`'s primitives.
- `src/parsing/zip_format/` — unzipping (`decode.rs`, with `zip`), the
  files of an archive (`files.rs`), and one module per file of the
  format (`format/`).

`app/` is the command-line program and what needs floating point
(temperatures in kelvin) or serde (`ImageProperties.json`).

The display palette that Rex-family files carry (TiS75+) is not decoded:
its wire layout is not known, so `SerendipZip` offers no palette.
