//! One-call conversion of a value into a JSON document or a Lua table.
use vstd::prelude::*;
use super::json_state::{JsonFieldValue, JsonState, JsonStateEnum, initial_view};

verus! {

/// Generic implementation for the final user to convert an object to json document.
/// To be supported, each object of the tree needs to implement `JsonFieldValue`.
/// @param value Reference to the object to convert.
/// @param indent Indent the output with tabulations.
/// @return The json document.
pub fn convert_to_json<T: JsonFieldValue + ?Sized>(value: &T, indent: bool) -> (text: String)
    requires
        value.accepted_in(JsonStateEnum::Root),
    ensures
        text@ == initial_view(indent, false).after_value(value, true).out,
        text@ == value.json_text(initial_view(indent, false)),
{
    let mut state = JsonState::new(indent, false);
    state.print_value(value);
    let text = state.into_output();
    assert(Seq::<char>::empty() + value.json_text(initial_view(indent, false)) =~= value.json_text(
        initial_view(indent, false),
    ));
    text
}

/// Generic implementation for the final user to convert an object to a Lua table.
/// To be supported, each object of the tree needs to implement `JsonFieldValue`.
/// @param value Reference to the object to convert.
/// @param indent Indent the output with tabulations.
/// @return The Lua text.
pub fn convert_to_lua<T: JsonFieldValue + ?Sized>(value: &T, indent: bool) -> (text: String)
    requires
        value.accepted_in(JsonStateEnum::Root),
    ensures
        text@ == initial_view(indent, true).after_value(value, true).out,
        text@ == value.json_text(initial_view(indent, true)),
{
    let mut state = JsonState::new(indent, true);
    state.print_value(value);
    let text = state.into_output();
    assert(Seq::<char>::empty() + value.json_text(initial_view(indent, true)) =~= value.json_text(
        initial_view(indent, true),
    ));
    text
}

} // verus!
