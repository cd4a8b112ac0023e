# libinstrum_rust

A JSON / Lua table emitter whose nesting checks and output are proved with
Verus, plus a set-associative cache constructor.

- `src/json/rendering/json_state.rs`: `JsonState`, its model `JsonView`, the
  `JsonFieldValue` trait and its implementations for strings, booleans and
  signed integers. Every operation's contract gives the exact model after it.
- `src/json/rendering/laws.rs`: properties that relate several operations
  (closing undoes opening, arrays and structures keep the nesting, values and
  fields come out in order with their separators).
- `src/json/rendering/convert_to_json.rs`: one-call conversion.
- `src/json/stream/json_state.rs`: the reduced emitter.
- `src/text.rs`: tabulations and the decimal rendering of integers.
- `src/caches/associativ_cache.rs`: `AssoCache::new`.
- `app/`: the program and the stream front ends (the emitter builds its text
  in memory; `app/` writes it to a `BufWriter`), and the printing of floats:
  floating point cannot be verified, so `f32`/`f64` values are rendered with
  std's `Display` in `app/convert.rs` and passed to the emitter as strings.
- Field names given to the closing functions are checked against the open
  field through the model (a `requires`), and raw values are written bare.
