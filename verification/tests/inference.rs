use blockgen::infer::PropValueType;

#[test]
fn well_known_domains_are_recognized() {
    assert_eq!(PropValueType::guess_from_value("north"), PropValueType::Facing);
    assert_eq!(PropValueType::guess_from_value("down"), PropValueType::Facing);
    assert_eq!(PropValueType::guess_from_value("x"), PropValueType::Axis);
    assert_eq!(PropValueType::guess_from_value("upper"), PropValueType::Half);
    assert_eq!(PropValueType::guess_from_value("bottom"), PropValueType::Half);
    assert_eq!(PropValueType::guess_from_value("floor"), PropValueType::Face);
    assert_eq!(PropValueType::guess_from_value("straight"), PropValueType::Shape);
    assert_eq!(PropValueType::guess_from_value("east_west"), PropValueType::Shape);
    assert_eq!(PropValueType::guess_from_value("left"), PropValueType::Hinge);
    assert_eq!(PropValueType::guess_from_value("head"), PropValueType::Part);
}

#[test]
fn integers_and_booleans_are_recognized() {
    assert_eq!(PropValueType::guess_from_value("0"), PropValueType::I32);
    assert_eq!(PropValueType::guess_from_value("25"), PropValueType::I32);
    assert_eq!(PropValueType::guess_from_value("-3"), PropValueType::I32);
    assert_eq!(PropValueType::guess_from_value("true"), PropValueType::Bool);
    assert_eq!(PropValueType::guess_from_value("false"), PropValueType::Bool);
}

#[test]
fn unmatched_values_fall_back_to_custom_enum() {
    assert_eq!(PropValueType::guess_from_value("cherry"), PropValueType::Enum);
    assert_eq!(PropValueType::guess_from_value("side"), PropValueType::Enum);
    assert_eq!(PropValueType::guess_from_value(""), PropValueType::Enum);
}

#[test]
fn well_known_domains_win_over_custom() {
    // A value that belongs to a fixed table is never classified as a fresh
    // custom enumeration, so the shared type is reused across blocks.
    assert_ne!(PropValueType::guess_from_value("z"), PropValueType::Enum);
    assert_eq!(PropValueType::guess_from_value("z"), PropValueType::Axis);
}
