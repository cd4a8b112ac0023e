//! JSON and Lua emitters.
pub mod rendering;
pub mod stream;
