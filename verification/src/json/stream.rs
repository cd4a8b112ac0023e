//! A reduced emitter that only checks the nesting and separates values.
pub mod json_state;
