# gain_core

The decision core of a perceptual audio analysis engine that produces a gain
recommendation map: which parts of a recording are silence or sound, what
kind of content each part holds, and how much gain each part should get for
a chosen preset. Every function in `src/` carries a contract proved by Verus,
with one exception: `to_lowercase` in `src/text.rs` hands its argument to
std's `str::to_lowercase`, and its contract (that the result is the
lower-cased text, named `lowercase`) is trusted, not proved.

## Layout

- `src/level.rs` — fixed-point quantities: levels and gains in nano-decibels
  (`Db`), confidences in millionths, times as a sample position at a rate.
- `src/text.rs` — decimal numerals and one-decimal level text for messages.
- `src/error.rs` — error kinds, their codes and messages, the last-error record.
- `src/gain_map.rs` — the data model of a recommendation map.
- `src/segmentation.rs` — silence/sound segmentation of per-frame levels.
- `src/classification.rs` — the seven content-classification rules.
- `src/decision.rs` — per-region gain decisions.
- `src/api.rs`, `src/album.rs` — presets, whole-file and per-region
  recommendations, album loudness anchors.
- `src/ffi.rs`, `src/ingestion.rs` — byte codes and flat records for C
  callers; container detection, import checks, and sizes used while reading
  and measuring audio.
- `app/` — decoding (symphonia), floating-point level and loudness
  measurement (ebur128), the C interface, and the standalone commands.

Measurements made on floating-point samples enter the library rounded to the
nearest nano-decibel; gains leave it the same way.
