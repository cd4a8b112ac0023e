//! The full emitter, with values, fields, arrays and structures.
pub mod convert_to_json;
pub mod json_state;
pub mod laws;
pub mod text_laws;
