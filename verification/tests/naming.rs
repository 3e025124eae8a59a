use blockgen::names::correct_variable_name;
use blockgen::names::str_eq;
use blockgen::names::to_camel_case;

#[test]
fn camel_case_of_single_segment() {
    assert_eq!(to_camel_case("facing"), "Facing");
    assert_eq!(to_camel_case("x"), "X");
}

#[test]
fn camel_case_of_multiple_segments() {
    assert_eq!(to_camel_case("oak_stairs"), "OakStairs");
    assert_eq!(to_camel_case("inner_left"), "InnerLeft");
    assert_eq!(to_camel_case("ascending_north"), "AscendingNorth");
}

#[test]
fn camel_case_of_empty_string() {
    assert_eq!(to_camel_case(""), "");
}

#[test]
fn camel_case_keeps_digits() {
    assert_eq!(to_camel_case("note_block_2"), "NoteBlock2");
}

#[test]
fn reserved_name_type_is_remapped() {
    assert_eq!(correct_variable_name("type"), "ty");
}

#[test]
fn reserved_name_in_is_remapped() {
    assert_eq!(correct_variable_name("in"), "_in");
}

#[test]
fn ordinary_names_pass_through() {
    assert_eq!(correct_variable_name("facing"), "facing");
    assert_eq!(correct_variable_name("half"), "half");
}

#[test]
fn string_equality_by_characters() {
    assert!(str_eq("north", "north"));
    assert!(!str_eq("north", "south"));
    assert!(!str_eq("north", "nort"));
    assert!(str_eq("", ""));
}
