use blockgen::infer::PropValueType;
use blockgen::model::build_structural_model;
use blockgen::model::create_block_data_struct;
use blockgen::model::create_property_enum;
use blockgen::model::generate_block_code;
use blockgen::model::generate_known_enums;
use blockgen::model::generate_value_implementation;
use blockgen::model::Block;
use blockgen::model::BlockProperties;
use blockgen::model::BlockReport;
use blockgen::model::DataStruct;
use blockgen::model::EnumEntry;
use blockgen::model::NativeTypeId;
use blockgen::model::PropertyEnum;

fn owned(values: &[&str]) -> Vec<String> {
    values.iter().map(|v| v.to_string()).collect()
}

fn props(entries: &[(&str, &[&str])]) -> BlockProperties {
    BlockProperties {
        props: entries.iter().map(|(k, vs)| (k.to_string(), owned(vs))).collect(),
    }
}

fn stairs_props() -> BlockProperties {
    props(&[
        ("facing", &["north", "south", "east", "west"]),
        ("half", &["top", "bottom"]),
        (
            "shape",
            &[
                "straight",
                "inner_left",
                "inner_right",
                "outer_left",
                "ascending_north",
                "ascending_south",
                "ascending_east",
                "ascending_west",
                "north_east",
                "north_west",
                "south_east",
                "south_west",
                "north_south",
                "east_west",
            ],
        ),
    ])
}

#[test]
fn property_enum_has_composite_name_and_camel_variants() {
    let mut enums: Vec<PropertyEnum> = Vec::new();
    create_property_enum(
        "NoteBlock",
        "instrument",
        &owned(&["harp", "bass_drum", "snare"]),
        &mut enums,
    );
    assert_eq!(enums.len(), 1);
    assert_eq!(enums[0].name, "NoteBlockInstrument");
    assert_eq!(enums[0].variants, owned(&["Harp", "BassDrum", "Snare"]));
    assert_eq!(enums[0].labels, owned(&["harp", "bass_drum", "snare"]));
}

#[test]
fn same_property_name_in_two_blocks_yields_distinct_enum_names() {
    let mut enums: Vec<PropertyEnum> = Vec::new();
    create_property_enum("AcaciaDoor", "mood", &owned(&["calm", "wild"]), &mut enums);
    create_property_enum("BirchDoor", "mood", &owned(&["calm", "wild"]), &mut enums);
    assert_eq!(enums[0].name, "AcaciaDoorMood");
    assert_eq!(enums[1].name, "BirchDoorMood");
    assert_ne!(enums[0].name, enums[1].name);
}

#[test]
fn axis_domain_reuses_shared_enum_in_both_blocks() {
    let mut enums: Vec<PropertyEnum> = Vec::new();
    let mut structs: Vec<DataStruct> = Vec::new();
    let p = props(&[("axis", &["x", "y", "z"])]);
    create_block_data_struct("OakLog", &p, &mut enums, &mut structs);
    create_block_data_struct("BirchLog", &p, &mut enums, &mut structs);
    assert_eq!(enums.len(), 0, "no custom enum may be synthesized");
    assert_eq!(structs[0].fields[0].ty, PropValueType::Axis);
    assert_eq!(structs[1].fields[0].ty, PropValueType::Axis);
    assert_eq!(structs[0].fields[0].ty_name, "Axis");
    assert_eq!(structs[0].fields[0].ty_name, structs[1].fields[0].ty_name);
}

#[test]
fn stair_value_implementation_multipliers() {
    let vi = generate_value_implementation("OakStairs", &stairs_props());
    assert_eq!(vi.ty_name, "OakStairsData");
    let terms: Vec<(String, usize)> = vi.terms;
    assert_eq!(
        terms,
        vec![
            ("facing".to_string(), 28),
            ("half".to_string(), 14),
            ("shape".to_string(), 1),
        ]
    );
}

#[test]
fn reserved_property_name_is_remapped_but_keeps_its_key() {
    let mut enums: Vec<PropertyEnum> = Vec::new();
    let mut structs: Vec<DataStruct> = Vec::new();
    let p = props(&[("type", &["normal", "sticky"])]);
    create_block_data_struct("Piston", &p, &mut enums, &mut structs);
    assert_eq!(structs[0].fields[0].name, "ty");
    assert_eq!(structs[0].fields[0].key, "type");
    assert_eq!(structs[0].value_impl.terms[0].0, "ty");
}

#[test]
fn block_with_properties_gets_data_variant() {
    let mut property_enums: Vec<PropertyEnum> = Vec::new();
    let mut data_structs: Vec<DataStruct> = Vec::new();
    let mut enum_entries: Vec<EnumEntry> = Vec::new();
    let mut ids: Vec<NativeTypeId> = Vec::new();
    let block = Block { properties: Some(stairs_props()) };
    let name = "minecraft:oak_stairs".to_string();
    generate_block_code(
        &block,
        &name,
        &mut property_enums,
        &mut data_structs,
        &mut enum_entries,
        &mut ids,
        3,
    );
    assert_eq!(enum_entries.len(), 1);
    assert_eq!(enum_entries[0].variant, "OakStairs");
    assert!(enum_entries[0].has_data);
    assert_eq!(data_structs.len(), 1);
    assert_eq!(data_structs[0].name, "OakStairsData");
    assert_eq!(ids[0].id, 3);
}

#[test]
fn block_without_properties_is_nullary() {
    // A propertyless block yields a nullary variant, no record type and no
    // encoding formula; its native type id is its position in schema order.
    let mut property_enums: Vec<PropertyEnum> = Vec::new();
    let mut data_structs: Vec<DataStruct> = Vec::new();
    let mut enum_entries: Vec<EnumEntry> = Vec::new();
    let mut ids: Vec<NativeTypeId> = Vec::new();
    let block = Block { properties: None };
    let name = "minecraft:bedrock".to_string();
    generate_block_code(
        &block,
        &name,
        &mut property_enums,
        &mut data_structs,
        &mut enum_entries,
        &mut ids,
        7,
    );
    assert_eq!(enum_entries[0].variant, "Bedrock");
    assert!(!enum_entries[0].has_data);
    assert!(data_structs.is_empty());
    assert!(property_enums.is_empty());
    assert_eq!(ids[0].variant, "Bedrock");
    assert_eq!(ids[0].id, 7);
}

#[test]
fn known_enum_library_is_fixed() {
    let known = generate_known_enums();
    let names: Vec<&str> = known.iter().map(|e| e.name.as_str()).collect();
    assert_eq!(names, vec!["Facing", "Axis", "Half", "Face", "Hinge", "Shape", "Part"]);
    assert_eq!(known[5].variants.len(), 14);
    assert_eq!(known[0].labels, owned(&["north", "south", "east", "west", "up", "down"]));
    assert_eq!(known[2].variants, owned(&["Upper", "Lower", "Top", "Bottom"]));
}

fn sample_report() -> BlockReport {
    BlockReport {
        blocks: vec![
            ("minecraft:bedrock".to_string(), Block { properties: None }),
            (
                "minecraft:oak_stairs".to_string(),
                Block { properties: Some(stairs_props()) },
            ),
            (
                "minecraft:note_block".to_string(),
                Block {
                    properties: Some(props(&[
                        ("instrument", &["harp", "bass_drum"]),
                        ("note", &["0", "1", "2"]),
                        ("powered", &["true", "false"]),
                    ])),
                },
            ),
        ],
    }
}

#[test]
fn full_model_structure() {
    let m = build_structural_model(&sample_report());
    assert_eq!(m.enum_entries.len(), 3);
    assert_eq!(m.enum_entries[0].variant, "Bedrock");
    assert_eq!(m.enum_entries[1].variant, "OakStairs");
    assert_eq!(m.enum_entries[2].variant, "NoteBlock");
    let ids: Vec<usize> = m.native_type_ids.iter().map(|e| e.id).collect();
    assert_eq!(ids, vec![0, 1, 2]);
    assert_eq!(m.data_structs.len(), 2);
    assert_eq!(m.property_enums.len(), 1);
    assert_eq!(m.property_enums[0].name, "NoteBlockInstrument");
    assert_eq!(m.known_enums.len(), 7);
    let note = &m.data_structs[1];
    assert_eq!(note.fields[1].ty, PropValueType::I32);
    assert_eq!(note.fields[1].ty_name, "i32");
    assert_eq!(note.fields[2].ty, PropValueType::Bool);
    assert_eq!(note.fields[2].ty_name, "bool");
}

#[test]
fn repeated_generation_is_deterministic() {
    let m1 = build_structural_model(&sample_report());
    let m2 = build_structural_model(&sample_report());
    assert_eq!(m1, m2);
}
