use libinstrum_rust::caches::associativ_cache::AssoCache;
use libinstrum_rust::json::rendering::convert_to_json::{convert_to_json, convert_to_lua};
use libinstrum_rust::json::rendering::json_state::{JsonFieldValue, JsonState, JsonStateEnum};
use libinstrum_rust::json::stream::json_state::JsonState as StreamState;

#[test]
fn new_state_is_at_root_with_no_output() {
    let state = JsonState::new(true, true);
    assert_eq!(state.get_state(), JsonStateEnum::Root);
    assert!(state.is_lua());
    assert_eq!(state.output(), "");
    let state = JsonState::new(false, false);
    assert!(!state.is_lua());
}

#[test]
fn compact_struct_with_two_fields() {
    let mut state = JsonState::new(false, false);
    state.open_struct();
    state.print_field("a", &"x".to_string());
    state.print_field("b", "y");
    state.close_struct();
    assert_eq!(state.output(), "{\"a\":\"x\",\"b\":\"y\"}");
}

#[test]
fn lua_struct_uses_assignments() {
    let mut state = JsonState::new(true, true);
    state.open_struct();
    state.print_field("name", "v");
    state.print_field("n", &7i32);
    state.close_struct();
    assert_eq!(state.output(), "{\n\tname=\"v\",\n\tn=\"7\"\n}\n");
}

#[test]
fn empty_array_and_struct_close_what_they_open() {
    let mut state = JsonState::new(false, false);
    state.open_array();
    assert_eq!(state.get_state(), JsonStateEnum::Array);
    state.close_array();
    assert_eq!(state.get_state(), JsonStateEnum::Root);
    assert_eq!(state.output(), "[]");

    let mut lua = JsonState::new(false, true);
    lua.open_array();
    lua.close_array();
    assert_eq!(lua.output(), "{}");

    let mut st = JsonState::new(true, false);
    st.open_struct();
    assert_eq!(st.get_state(), JsonStateEnum::Struct);
    st.close_struct();
    assert_eq!(st.get_state(), JsonStateEnum::Root);
    assert_eq!(st.output(), "{\n}\n");
}

#[test]
fn array_values_are_separated() {
    let mut state = JsonState::new(true, false);
    let values = vec!["a".to_string(), "b".to_string(), "c".to_string()];
    state.print_array(&values);
    assert_eq!(state.output(), "[\"a\", \"b\", \"c\"]");

    let mut lua = JsonState::new(true, true);
    let numbers: Vec<i64> = vec![1, -2];
    lua.print_array(&numbers);
    assert_eq!(lua.output(), "{\"1\", \"-2\"}");

    let mut empty = JsonState::new(true, false);
    let none: Vec<bool> = Vec::new();
    empty.print_array(&none);
    assert_eq!(empty.output(), "[]");
}

#[test]
fn field_array_inside_struct() {
    let mut state = JsonState::new(true, false);
    state.open_struct();
    state.print_field_array("list", &[true, false]);
    state.print_field("k", &1i8);
    state.close_struct();
    assert_eq!(
        state.output(),
        "{\n\t\"list\":[true, false],\n\t\"k\":\"1\"\n}\n"
    );
}

#[test]
fn open_and_close_field_array_by_hand() {
    let mut state = JsonState::new(false, false);
    state.open_struct();
    state.open_field_array("xs");
    assert_eq!(state.get_state(), JsonStateEnum::Array);
    state.print_value(&1i16);
    state.print_value(&2i16);
    state.print_value_sep_opt(&3i16, false);
    state.close_field_array("xs");
    assert_eq!(state.get_state(), JsonStateEnum::Struct);
    state.close_struct();
    assert_eq!(state.output(), "{\"xs\":[\"1\", \"2\"\"3\"]}");
}

#[test]
fn nested_structs_are_indented() {
    let mut state = JsonState::new(true, false);
    state.open_struct();
    state.open_field_struct("inner");
    assert_eq!(state.get_state(), JsonStateEnum::Struct);
    state.print_field("a", "b");
    state.close_field_struct("inner");
    state.print_field("c", "d");
    state.close_struct();
    assert_eq!(
        state.output(),
        "{\n\t\"inner\":{\n\t\t\"a\":\"b\"\n\t}\n\t,\n\t\"c\":\"d\"\n}\n"
    );
}

#[test]
fn integers_at_their_limits() {
    let mut state = JsonState::new(false, false);
    state.open_array();
    state.print_value(&i8::MIN);
    state.print_value(&i16::MAX);
    state.print_value(&0i32);
    state.print_value(&i64::MIN);
    state.print_value(&i128::MIN);
    state.print_value(&i128::MAX);
    state.close_array();
    assert_eq!(
        state.output(),
        format!(
            "[\"-128\", \"32767\", \"0\", \"{}\", \"{}\", \"{}\"]",
            i64::MIN,
            i128::MIN,
            i128::MAX
        )
    );
}

#[test]
fn list_separator_only_between_array_values() {
    let mut state = JsonState::new(false, false);
    state.open_array();
    state.print_list_separator();
    state.push_raw_value("a");
    state.print_list_separator();
    state.push_raw_value_str("b");
    state.close_array();
    assert_eq!(state.output(), "[a, b]");

    let mut root = JsonState::new(false, false);
    root.print_list_separator();
    root.print_list_separator();
    assert_eq!(root.output(), "");
}

#[test]
fn raw_strings_are_quoted() {
    let mut state = JsonState::new(false, false);
    state.push_raw_string("12");
    state.push_raw_string_str("x y");
    assert_eq!(state.output(), "\"12\"\"x y\"");
    assert_eq!(state.into_output(), "\"12\"\"x y\"".to_string());
}

#[test]
fn one_call_conversion() {
    assert_eq!(convert_to_json("toto", true), "\"toto\"");
    assert_eq!(convert_to_json(&-42i64, false), "\"-42\"");
    assert_eq!(convert_to_lua(&true, false), "true");
    assert_eq!(convert_to_lua(&"a".to_string(), true), "\"a\"");
}

#[test]
fn stream_state_separates_list_values() {
    let mut state = StreamState::new(true, false);
    assert_eq!(state.get_state(), JsonStateEnum::Root);
    assert!(!state.is_lua());
    state.print_list_separator();
    assert_eq!(state.output(), "");
    assert_eq!(state.get_state(), JsonStateEnum::Root);
    let lua = StreamState::new(false, true);
    assert!(lua.is_lua());
}

#[test]
fn cache_construction() {
    let _cache: AssoCache<u64> = AssoCache::new(4, 16);
    let _empty: AssoCache<String> = AssoCache::new(0, 8);
}

#[test]
fn booleans_are_raw_values_written_anywhere() {
    let mut state = JsonState::new(false, false);
    state.open_struct();
    true.convert_to_json(&mut state);
    assert_eq!(state.get_state(), JsonStateEnum::Struct);
    state.close_struct();
    assert_eq!(state.output(), "{true}");

    let mut raw = JsonState::new(false, false);
    raw.push_raw_value_str("true");
    assert_eq!(raw.output(), "true");
}

#[test]
fn indent_counts_open_structures() {
    let mut state = JsonState::new(true, false);
    assert_eq!(state.get_indent(), 0);
    state.open_struct();
    state.open_field_struct("a");
    assert_eq!(state.get_indent(), 2);
    state.open_field_array("b");
    assert_eq!(state.get_indent(), 2);
    state.close_field_array("b");
    state.close_field_struct("a");
    assert_eq!(state.get_indent(), 1);
    state.close_struct();
    assert_eq!(state.get_indent(), 0);
}
