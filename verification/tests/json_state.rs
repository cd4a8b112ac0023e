use libinstrum_rust::json::rendering::json_state::JsonState;

#[test]
fn constructor() {
    let _state = JsonState::new(true, false);
}

#[test]
fn basic_empty() {
    let mut state = JsonState::new(true, false);
    state.open_struct();
    state.close_struct();
    let as_str = state.output();
    assert_eq!(as_str, "{\n}\n");
}

#[test]
fn basic_print_field_str() {
    let mut state = JsonState::new(true, false);
    state.open_struct();
    state.print_field("test", &"toto".to_string());
    state.close_struct();
    let as_str = state.output();
    assert_eq!(as_str, "{\n\t\"test\":\"toto\"\n}\n");
}

#[test]
fn basic_print_two_fields_str() {
    let mut state = JsonState::new(true, false);
    state.open_struct();
    state.print_field("test", &"toto".to_string());
    state.print_field("test2", &"toto2".to_string());
    state.close_struct();
    let as_str = state.output();
    assert_eq!(as_str, "{\n\t\"test\":\"toto\",\n\t\"test2\":\"toto2\"\n}\n");
}

#[test]
fn basic_print_field_numbers() {
    let mut state = JsonState::new(true, false);
    state.open_struct();
    state.print_field("i8", &(8 as i8));
    state.print_field("i16", &(16 as i16));
    state.print_field("i32", &(32 as i32));
    state.print_field("i64", &(64 as i64));
    state.print_field("f32", &(32.1 as f32).to_string());
    state.print_field("f64", &(64.1 as f64).to_string());
    state.close_struct();
    let as_str = state.output();
    assert_eq!(as_str, "{\n\t\"i8\":\"8\",\n\t\"i16\":\"16\",\n\t\"i32\":\"32\",\n\t\"i64\":\"64\",\n\t\"f32\":\"32.1\",\n\t\"f64\":\"64.1\"\n}\n");
}
