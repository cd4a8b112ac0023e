//! Conversion of values into JSON (or Lua table) text, with a checked
//! state machine that tracks the nesting of structures, arrays and fields,
//! and a set-associative cache.
pub mod caches;
pub mod json;
pub mod text;
