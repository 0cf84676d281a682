use mansion::entity::{Entity, EntityStore};
use mansion::error::{DecodeError, UnknownSymbolError};
use mansion::json::{key_matches, parse, parse_bytes, read_index, text_is_supported};

fn wall_with(colors: Vec<usize>) -> Entity {
    Entity { tile_index: 4, wall: true, door_colors: colors }
}

#[test]
fn default_entity_is_an_empty_cell() {
    let e = Entity::default();
    assert_eq!(e.tile_index, 0);
    assert!(!e.wall);
    assert!(e.door_colors.is_empty());
}

#[test]
fn clone_keeps_every_field() {
    let e = wall_with(vec![2, 0]);
    let c = e.clone();
    assert_eq!(c.tile_index, 4);
    assert!(c.wall);
    assert_eq!(c.door_colors, vec![2, 0]);
}

#[test]
fn descriptor_is_decoded() {
    let e = Entity::from_json(r#"{ "tile_index": 12, "wall": true, "door_colors": [0, 2] }"#)
        .unwrap();
    assert_eq!(e.tile_index, 12);
    assert!(e.wall);
    assert_eq!(e.door_colors, vec![0, 2]);
}

#[test]
fn descriptor_with_no_door_colors() {
    let e = Entity::from_json(r#"{"wall":false,"door_colors":[],"tile_index":0}"#).unwrap();
    assert_eq!(e.tile_index, 0);
    assert!(!e.wall);
    assert!(e.door_colors.is_empty());
}

#[test]
fn descriptor_passes_over_other_members() {
    let e = Entity::from_json(
        r#"{"name": "door", "tile_index": 3, "wall": true, "door_colors": [1], "extra": null}"#,
    )
    .unwrap();
    assert_eq!((e.tile_index, e.wall, e.door_colors), (3, true, vec![1]));
}

#[test]
fn descriptor_takes_the_last_of_repeated_members() {
    let e = Entity::from_json(
        r#"{"tile_index": 3, "wall": true, "door_colors": [1], "tile_index": 5, "wall": false}"#,
    )
    .unwrap();
    assert_eq!((e.tile_index, e.wall, e.door_colors), (5, false, vec![1]));
}

#[test]
fn descriptor_from_bytes() {
    let e = Entity::from_json_bytes(br#"{"tile_index": 7, "wall": true, "door_colors": [2]}"#)
        .unwrap();
    assert_eq!((e.tile_index, e.wall, e.door_colors), (7, true, vec![2]));
}

#[test]
fn bytes_that_are_no_utf8_are_refused() {
    assert!(matches!(
        Entity::from_json_bytes(&[b'{', 0xff, b'}']),
        Err(DecodeError::UnsupportedText)
    ));
    assert!(matches!(parse_bytes(&[0xc0, 0x80]), Err(DecodeError::UnsupportedText)));
}

#[test]
fn text_beyond_ascii_is_refused() {
    assert!(matches!(
        Entity::from_json("{\"tile_index\": 1, \"wall\": true, \"door_colors\": [], \"n\": \"é\"}"),
        Err(DecodeError::UnsupportedText)
    ));
    assert!(!text_is_supported("é"));
}

#[test]
fn long_digit_runs_are_refused() {
    assert!(text_is_supported("123456789"));
    assert!(text_is_supported("123456789.123456789e123456789"));
    assert!(!text_is_supported("1234567890"));
    assert!(!text_is_supported("[1, 0000000000]"));
    assert!(matches!(
        Entity::from_json(r#"{"tile_index": 12345678901234567890123, "wall": true, "door_colors": []}"#),
        Err(DecodeError::UnsupportedText)
    ));
}

#[test]
fn text_that_is_no_json_is_refused() {
    assert!(matches!(Entity::from_json(""), Err(DecodeError::MalformedJson)));
    assert!(matches!(Entity::from_json("{"), Err(DecodeError::MalformedJson)));
    assert!(matches!(
        Entity::from_json(r#"{"tile_index": 1, "wall": true, "door_colors": [] } x"#),
        Err(DecodeError::MalformedJson)
    ));
    assert!(matches!(parse("tru"), Err(DecodeError::MalformedJson)));
}

#[test]
fn document_that_is_no_object_is_refused() {
    assert!(matches!(Entity::from_json("[1, 2]"), Err(DecodeError::BadDescriptor)));
    assert!(matches!(Entity::from_json("true"), Err(DecodeError::BadDescriptor)));
}

#[test]
fn missing_members_are_refused() {
    assert!(matches!(
        Entity::from_json(r#"{"wall": true, "door_colors": []}"#),
        Err(DecodeError::BadDescriptor)
    ));
    assert!(matches!(
        Entity::from_json(r#"{"tile_index": 1, "door_colors": []}"#),
        Err(DecodeError::BadDescriptor)
    ));
    assert!(matches!(
        Entity::from_json(r#"{"tile_index": 1, "wall": true}"#),
        Err(DecodeError::BadDescriptor)
    ));
    assert!(matches!(Entity::from_json("{}"), Err(DecodeError::BadDescriptor)));
}

#[test]
fn members_of_another_kind_are_refused() {
    assert!(matches!(
        Entity::from_json(r#"{"tile_index": "1", "wall": true, "door_colors": []}"#),
        Err(DecodeError::BadDescriptor)
    ));
    assert!(matches!(
        Entity::from_json(r#"{"tile_index": 1, "wall": 1, "door_colors": []}"#),
        Err(DecodeError::BadDescriptor)
    ));
    assert!(matches!(
        Entity::from_json(r#"{"tile_index": 1, "wall": true, "door_colors": 2}"#),
        Err(DecodeError::BadDescriptor)
    ));
    assert!(matches!(
        Entity::from_json(r#"{"tile_index": 1, "wall": true, "door_colors": [0, true]}"#),
        Err(DecodeError::BadDescriptor)
    ));
}

#[test]
fn numbers_that_are_no_plain_index_are_refused() {
    for number in ["-1", "1.5", "1.0", "1e2", "-0"] {
        let text = format!("{{\"tile_index\": {}, \"wall\": true, \"door_colors\": []}}", number);
        assert!(matches!(Entity::from_json(&text), Err(DecodeError::BadDescriptor)));
        let text = format!("{{\"tile_index\": 1, \"wall\": true, \"door_colors\": [{}]}}", number);
        assert!(matches!(Entity::from_json(&text), Err(DecodeError::BadDescriptor)));
    }
}

#[test]
fn parsed_numbers_are_read_as_indices() {
    assert_eq!(read_index(&parse("42").unwrap()), Some(42));
    assert_eq!(read_index(&parse("0").unwrap()), Some(0));
    assert_eq!(read_index(&parse("999999999").unwrap()), Some(999_999_999));
    assert_eq!(read_index(&parse("-42").unwrap()), None);
    assert_eq!(read_index(&parse("\"42\"").unwrap()), None);
}

#[test]
fn keys_are_compared_character_by_character() {
    let key: Vec<char> = "wall".chars().collect();
    assert!(key_matches(&key, "wall"));
    assert!(!key_matches(&key, "walls"));
    assert!(!key_matches(&key, "wal"));
    assert!(!key_matches(&key, "wail"));
    assert!(key_matches(&Vec::new(), ""));
}

#[test]
fn descriptor_resource_is_named_after_the_entity() {
    assert_eq!(Entity::file_name("#"), "#.json");
    assert_eq!(Entity::file_name("wall"), "wall.json");
    assert_eq!(Entity::file_name(""), ".json");
}

#[test]
fn new_store_knows_no_symbol() {
    let store = EntityStore::new();
    assert_eq!(store.len(), 0);
    assert!(!store.contains('#'));
    assert_eq!(store.resolve('#').err(), Some(UnknownSymbolError { symbol: '#' }));
}

#[test]
fn store_resolves_what_was_inserted() {
    let mut store = EntityStore::new();
    assert!(store.insert('#', wall_with(vec![])));
    assert!(store.insert('D', wall_with(vec![1, 2])));
    assert_eq!(store.len(), 2);
    assert!(store.contains('#'));
    assert!(store.contains('D'));
    let door = store.resolve('D').unwrap();
    assert_eq!((door.tile_index, door.wall, door.door_colors), (4, true, vec![1, 2]));
    let wall = store.resolve('#').unwrap();
    assert!(wall.door_colors.is_empty());
    assert_eq!(store.resolve(' ').err(), Some(UnknownSymbolError { symbol: ' ' }));
}

#[test]
fn store_keeps_the_first_entity_of_a_symbol() {
    let mut store = EntityStore::new();
    assert!(store.insert('#', wall_with(vec![7])));
    assert!(!store.insert('#', Entity::default()));
    assert_eq!(store.len(), 1);
    let e = store.resolve('#').unwrap();
    assert_eq!((e.tile_index, e.wall, e.door_colors), (4, true, vec![7]));
}
