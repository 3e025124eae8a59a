use blockgen::model::create_block_data_struct;
use blockgen::model::BlockProperties;
use blockgen::model::DataStruct;
use blockgen::model::PropertyEnum;
use blockgen::serial::PropValue;

fn owned(values: &[&str]) -> Vec<String> {
    values.iter().map(|v| v.to_string()).collect()
}

fn note_block_struct() -> DataStruct {
    let props = BlockProperties {
        props: vec![
            ("instrument".to_string(), owned(&["harp", "bass_drum", "snare"])),
            ("note".to_string(), owned(&["0", "1", "2"])),
            ("powered".to_string(), owned(&["true", "false"])),
            ("facing".to_string(), owned(&["north", "south", "east", "west"])),
        ],
    };
    let mut enums: Vec<PropertyEnum> = Vec::new();
    let mut structs: Vec<DataStruct> = Vec::new();
    create_block_data_struct("NoteBlock", &props, &mut enums, &mut structs);
    structs.pop().unwrap()
}

#[test]
fn to_string_map_uses_original_keys_and_canonical_values() {
    let ds = note_block_struct();
    let vals = vec![
        PropValue::Choice(1),
        PropValue::Int(2),
        PropValue::Bool(false),
        PropValue::Choice(3),
    ];
    let map = ds.to_string_map(&vals);
    assert_eq!(
        map,
        vec![
            ("instrument".to_string(), "bass_drum".to_string()),
            ("note".to_string(), "2".to_string()),
            ("powered".to_string(), "false".to_string()),
            ("facing".to_string(), "west".to_string()),
        ]
    );
}

#[test]
fn string_map_round_trip() {
    // Deserializing the map an instance serializes to gives the instance
    // back exactly.
    let ds = note_block_struct();
    let vals = vec![
        PropValue::Choice(2),
        PropValue::Int(0),
        PropValue::Bool(true),
        PropValue::Choice(0),
    ];
    let map = ds.to_string_map(&vals);
    assert_eq!(ds.from_string_map(&map), Some(vals));
}

#[test]
fn from_string_map_ignores_entry_order() {
    let ds = note_block_struct();
    let map = vec![
        ("facing".to_string(), "south".to_string()),
        ("powered".to_string(), "true".to_string()),
        ("note".to_string(), "1".to_string()),
        ("instrument".to_string(), "harp".to_string()),
    ];
    assert_eq!(
        ds.from_string_map(&map),
        Some(vec![
            PropValue::Choice(0),
            PropValue::Int(1),
            PropValue::Bool(true),
            PropValue::Choice(1),
        ])
    );
}

#[test]
fn from_string_map_fails_on_missing_key() {
    let ds = note_block_struct();
    let map = vec![
        ("instrument".to_string(), "harp".to_string()),
        ("note".to_string(), "1".to_string()),
        ("powered".to_string(), "true".to_string()),
    ];
    assert_eq!(ds.from_string_map(&map), None);
}

#[test]
fn from_string_map_fails_on_unparsable_value() {
    let ds = note_block_struct();
    let map = vec![
        ("instrument".to_string(), "violin".to_string()),
        ("note".to_string(), "1".to_string()),
        ("powered".to_string(), "true".to_string()),
        ("facing".to_string(), "north".to_string()),
    ];
    assert_eq!(ds.from_string_map(&map), None);
    let map2 = vec![
        ("instrument".to_string(), "harp".to_string()),
        ("note".to_string(), "many".to_string()),
        ("powered".to_string(), "true".to_string()),
        ("facing".to_string(), "north".to_string()),
    ];
    assert_eq!(ds.from_string_map(&map2), None);
}

#[test]
fn enum_label_round_trip_through_maps() {
    // Every label of a custom domain survives a parse and re-serialize.
    let ds = note_block_struct();
    for (rank, label) in ["harp", "bass_drum", "snare"].iter().enumerate() {
        let map = vec![
            ("instrument".to_string(), label.to_string()),
            ("note".to_string(), "0".to_string()),
            ("powered".to_string(), "false".to_string()),
            ("facing".to_string(), "north".to_string()),
        ];
        let vals = ds.from_string_map(&map).unwrap();
        assert_eq!(vals[0], PropValue::Choice(rank));
        let back = ds.to_string_map(&vals);
        assert_eq!(back[0].1, *label);
    }
}
