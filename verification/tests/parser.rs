use std::io::Write;

use ezjww::{
    block_def_name_map, entity_counts, parse_document, resolve_block_name,
    validate_block_references, BlockDef, Entity, EntityBase, JwwError,
};

fn num(bits: ezjww::Binary64) -> f64 {
    f64::from_bits(bits.to_bits())
}

#[test]
fn invalid_signature_returns_error() {
    let err = parse_document(b"NotJwwData").unwrap_err();
    assert!(matches!(err, JwwError::InvalidSignature));
}

#[test]
fn parse_minimal_with_block_def() {
    let data = build_minimal_jww_with_block_def();
    let doc = parse_document(&data).unwrap();
    assert_eq!(doc.entities.len(), 1);
    assert_eq!(doc.block_defs.len(), 1);

    match &doc.entities[0] {
        Entity::Block(block) => assert_eq!(block.def_number, 1),
        other => panic!("expected BLOCK entity, got {:?}", other),
    }

    let def = &doc.block_defs[0];
    assert_eq!(def.number, 1);
    assert!(!def.is_referenced);
    assert_eq!(def.name, "BLK");
    assert_eq!(resolve_block_name(1, &doc.block_defs), Some("BLK"));

    let validation = validate_block_references(&doc);
    assert_eq!(validation.total_references, 1);
    assert_eq!(validation.resolved_references, 1);
    assert!(validation.unresolved_def_numbers.is_empty());
    assert!(!validation.has_unresolved());
}

#[test]
fn block_def_map_works() {
    let defs = vec![
        BlockDef {
            base: EntityBase::default(),
            number: 3,
            is_referenced: false,
            name: "A".to_string(),
            entities: vec![],
        },
        BlockDef {
            base: EntityBase::default(),
            number: 7,
            is_referenced: true,
            name: "B".to_string(),
            entities: vec![],
        },
    ];

    let map = block_def_name_map(&defs);
    assert_eq!(map.get(&3).map(String::as_str), Some("A"));
    assert_eq!(map.get(&7).map(String::as_str), Some("B"));
    assert_eq!(resolve_block_name(10, &defs), None);
}

#[test]
fn parse_minimal_with_dimension_entity() {
    let data = build_minimal_jww_with_dimension();
    let doc = parse_document(&data).unwrap();
    assert_eq!(doc.entities.len(), 1);

    match &doc.entities[0] {
        Entity::Dimension(dim) => {
            assert_eq!(num(dim.line.start_x), 0.0);
            assert_eq!(num(dim.line.end_x), 10.0);
            assert_eq!(dim.text.content, "1000");
        }
        other => panic!("expected DIMENSION entity, got {:?}", other),
    }
}

#[test]
fn validate_unresolved_block_reference() {
    let data = build_minimal_jww_with_unresolved_block_ref();
    let doc = parse_document(&data).unwrap();
    let validation = validate_block_references(&doc);

    assert_eq!(validation.total_references, 1);
    assert_eq!(validation.resolved_references, 0);
    assert_eq!(validation.unresolved_def_numbers, vec![99]);
    assert!(validation.has_unresolved());
}

fn header_bytes(version: u32) -> Vec<u8> {
    let mut data = Vec::<u8>::new();
    data.extend_from_slice(b"JwwData.");
    data.extend_from_slice(&version.to_le_bytes());
    data.push(0); // memo
    data.extend_from_slice(&0u32.to_le_bytes()); // paper size
    data.extend_from_slice(&0u32.to_le_bytes()); // write layer group
    for _ in 0..16 {
        data.extend_from_slice(&0u32.to_le_bytes()); // state
        data.extend_from_slice(&0u32.to_le_bytes()); // write layer
        data.extend_from_slice(&1.0f64.to_le_bytes()); // scale
        data.extend_from_slice(&0u32.to_le_bytes()); // protect
        for _ in 0..16 {
            data.extend_from_slice(&0u32.to_le_bytes()); // layer state
            data.extend_from_slice(&0u32.to_le_bytes()); // layer protect
        }
    }
    data
}

fn new_class(data: &mut Vec<u8>, version: u32, name: &[u8]) {
    data.extend_from_slice(&0xFFFFu16.to_le_bytes());
    data.extend_from_slice(&(version as u16).to_le_bytes());
    data.extend_from_slice(&(name.len() as u16).to_le_bytes());
    data.extend_from_slice(name);
}

fn base_with(data: &mut Vec<u8>, version: u32, pen_style: u8, pen_color: u16) {
    data.extend_from_slice(&7u32.to_le_bytes()); // group
    data.push(pen_style);
    data.extend_from_slice(&pen_color.to_le_bytes());
    if version >= 351 {
        data.extend_from_slice(&9u16.to_le_bytes()); // pen_width
    }
    data.extend_from_slice(&3u16.to_le_bytes()); // layer
    data.extend_from_slice(&4u16.to_le_bytes()); // layer_group
    data.extend_from_slice(&5u16.to_le_bytes()); // flag
}

fn reals(data: &mut Vec<u8>, values: &[f64]) {
    for v in values {
        data.extend_from_slice(&v.to_le_bytes());
    }
}

fn line_payload(data: &mut Vec<u8>, version: u32, x: f64) {
    base_with(data, version, 1, 1);
    reals(data, &[x, 1.0, 2.0, 3.0]);
}

#[test]
fn entity_list_is_looked_for_from_byte_100() {
    let mut data = header_bytes(600);
    data.extend(std::iter::repeat(0u8).take(64));
    assert!(matches!(parse_document(&data).unwrap_err(), JwwError::EntityListNotFound));
    // An anchor for another version is none.
    let mut data = header_bytes(600);
    data.extend_from_slice(&1u16.to_le_bytes());
    new_class(&mut data, 420, b"CDataSen");
    line_payload(&mut data, 600, 0.0);
    assert!(matches!(parse_document(&data).unwrap_err(), JwwError::EntityListNotFound));
    // A class name that does not start with "CData" is none.
    let mut data = header_bytes(600);
    data.extend_from_slice(&1u16.to_le_bytes());
    new_class(&mut data, 600, b"XDataSenSen");
    line_payload(&mut data, 600, 0.0);
    assert!(matches!(parse_document(&data).unwrap_err(), JwwError::EntityListNotFound));
}

#[test]
fn an_anchor_has_a_name_of_8_to_32_bytes() {
    let version = 600;
    for (len, found) in [(7usize, false), (8, true), (32, true), (33, false)] {
        let mut name = b"CData".to_vec();
        name.resize(len, b'x');
        let mut data = header_bytes(version);
        data.extend_from_slice(&1u16.to_le_bytes());
        new_class(&mut data, version, &name);
        data.extend(std::iter::repeat(0u8).take(64));
        match parse_document(&data).unwrap_err() {
            JwwError::UnknownEntityClass(text) => {
                assert!(found, "length {}", len);
                assert_eq!(text.as_bytes(), &name[..]);
            }
            JwwError::EntityListNotFound => assert!(!found, "length {}", len),
            other => panic!("unexpected failure {:?}", other),
        }
    }
    // An anchor counts however close to the end of the data it stands.
    let mut data = header_bytes(version);
    data.extend_from_slice(&1u16.to_le_bytes());
    new_class(&mut data, version, b"CDataXyzzy");
    assert!(matches!(parse_document(&data).unwrap_err(), JwwError::UnknownEntityClass(_)));
    // A name that does not fit the data makes no anchor.
    data.pop();
    assert!(matches!(parse_document(&data).unwrap_err(), JwwError::EntityListNotFound));
}

#[test]
fn the_entity_list_starts_two_bytes_before_the_first_anchor() {
    let anchor = [0xFF, 0xFF, 0x58, 0x02, 0x08, 0x00];
    let mut data = vec![0u8; 100];
    data.extend_from_slice(&anchor);
    data.extend_from_slice(b"CDataSen");
    assert_eq!(data.len(), 114);
    assert_eq!(ezjww::parser::find_entity_list_offset(&data, 600), Some(98));
    assert_eq!(ezjww::parser::find_entity_list_offset(&data, 601), None);
    data.extend(std::iter::repeat(0u8).take(6));
    assert_eq!(data.len(), 120);
    assert_eq!(ezjww::parser::find_entity_list_offset(&data, 600), Some(98));
    // Of two anchors the first counts; one before byte 100 does not.
    let mut two = vec![0u8; 50];
    two.extend_from_slice(&anchor);
    two.extend_from_slice(b"CDataSen");
    two.resize(130, 0);
    two.extend_from_slice(&anchor);
    two.extend_from_slice(b"CDataTen");
    two.extend_from_slice(&anchor);
    two.extend_from_slice(b"CDataSen");
    assert_eq!(ezjww::parser::find_entity_list_offset(&two, 600), Some(128));
    assert_eq!(ezjww::parser::find_entity_list_offset(&two[..143], 600), None);
    assert_eq!(ezjww::parser::find_entity_list_offset(&[], 600), None);
    assert_eq!(ezjww::parser::find_entity_list_offset(&data[..105], 600), None);
}

#[test]
fn class_ids_follow_the_counter() {
    let version = 600;
    let mut data = header_bytes(version);
    data.extend_from_slice(&6u16.to_le_bytes());
    new_class(&mut data, version, b"CDataSen"); // registers id 1, counter goes to 3
    line_payload(&mut data, version, 10.0);
    data.extend_from_slice(&0x8000u16.to_le_bytes()); // holds nothing
    data.extend_from_slice(&0x8001u16.to_le_bytes()); // class 1 again, counter goes to 4
    line_payload(&mut data, version, 20.0);
    new_class(&mut data, version, b"CDataTen"); // registers id 4, counter goes to 6
    base_with(&mut data, version, 1, 1);
    reals(&mut data, &[1.5, 2.5]);
    data.extend_from_slice(&1u32.to_le_bytes()); // temporary
    data.extend_from_slice(&0x0004u16.to_le_bytes()); // class 4, top bit clear
    base_with(&mut data, version, 100, 1);
    reals(&mut data, &[3.5, 4.5]);
    data.extend_from_slice(&0u32.to_le_bytes());
    data.extend_from_slice(&77u32.to_le_bytes()); // code
    reals(&mut data, &[0.25, 2.0]); // angle, scale
    data.extend_from_slice(&0x8001u16.to_le_bytes());
    line_payload(&mut data, version, 30.0);
    data.extend_from_slice(&0u32.to_le_bytes()); // no block defs

    let doc = parse_document(&data).unwrap();
    assert_eq!(doc.entities.len(), 5);
    match &doc.entities[0] {
        Entity::Line(v) => {
            assert_eq!(num(v.start_x), 10.0);
            assert_eq!(num(v.start_y), 1.0);
            assert_eq!(num(v.end_x), 2.0);
            assert_eq!(num(v.end_y), 3.0);
            assert_eq!(v.base.group, 7);
            assert_eq!(v.base.pen_style, 1);
            assert_eq!(v.base.pen_color, 1);
            assert_eq!(v.base.pen_width, 9);
            assert_eq!(v.base.layer, 3);
            assert_eq!(v.base.layer_group, 4);
            assert_eq!(v.base.flag, 5);
        }
        other => panic!("expected LINE, got {:?}", other),
    }
    match &doc.entities[2] {
        Entity::Point(v) => {
            assert!(v.is_temporary);
            assert_eq!(v.code, 0);
            assert_eq!(num(v.scale), 0.0);
        }
        other => panic!("expected POINT, got {:?}", other),
    }
    match &doc.entities[3] {
        Entity::Point(v) => {
            assert!(!v.is_temporary);
            assert_eq!(num(v.x), 3.5);
            assert_eq!(v.code, 77);
            assert_eq!(num(v.angle), 0.25);
            assert_eq!(num(v.scale), 2.0);
        }
        other => panic!("expected POINT, got {:?}", other),
    }
    let counts = entity_counts(&doc.entities);
    assert_eq!(counts.line, 3);
    assert_eq!(counts.point, 2);
    assert_eq!(counts.get("LINE"), Some(3));
    assert_eq!(counts.get("POINT"), Some(2));
    assert_eq!(counts.get("TEXT"), None);
    assert_eq!(counts.get("NOTHING"), None);
}

#[test]
fn a_class_id_off_the_dictionary_is_reported() {
    let version = 600;
    let mut data = header_bytes(version);
    data.extend_from_slice(&2u16.to_le_bytes());
    new_class(&mut data, version, b"CDataSen");
    line_payload(&mut data, version, 10.0);
    data.extend_from_slice(&0x8002u16.to_le_bytes()); // id 2 was passed over
    line_payload(&mut data, version, 20.0);
    data.extend(std::iter::repeat(0u8).take(32));
    assert!(matches!(parse_document(&data).unwrap_err(), JwwError::UnknownClassPid(2)));
}

#[test]
fn a_class_that_is_no_entity_is_reported() {
    let version = 600;
    let mut data = header_bytes(version);
    data.extend_from_slice(&1u16.to_le_bytes());
    new_class(&mut data, version, b"CDataXyzzy");
    data.extend(std::iter::repeat(0u8).take(64));
    match parse_document(&data).unwrap_err() {
        JwwError::UnknownEntityClass(name) => assert_eq!(name, "CDataXyzzy"),
        other => panic!("expected UnknownEntityClass, got {:?}", other),
    }
    let mut data = header_bytes(version);
    data.extend_from_slice(&1u16.to_le_bytes());
    new_class(&mut data, version, b"CData\xFFab");
    data.extend(std::iter::repeat(0u8).take(64));
    match parse_document(&data).unwrap_err() {
        JwwError::UnknownEntityClass(name) => assert_eq!(name, "CData\u{FFFD}ab"),
        other => panic!("expected UnknownEntityClass, got {:?}", other),
    }
}

#[test]
fn a_list_that_ends_early_is_an_error() {
    let version = 600;
    let mut data = header_bytes(version);
    data.extend_from_slice(&2u16.to_le_bytes());
    new_class(&mut data, version, b"CDataSen");
    line_payload(&mut data, version, 10.0);
    data.extend_from_slice(&0x8001u16.to_le_bytes());
    data.extend(std::iter::repeat(0u8).take(10));
    assert!(matches!(parse_document(&data).unwrap_err(), JwwError::UnexpectedEof("bytes")));
}

#[test]
fn every_payload_is_decoded() {
    let version = 600;
    let mut data = header_bytes(version);
    data.extend_from_slice(&5u16.to_le_bytes());
    new_class(&mut data, version, b"CDataEnko");
    base_with(&mut data, version, 2, 3);
    reals(&mut data, &[1.0, 2.0, 3.0, 0.5, 1.5, 0.25, 0.75]);
    data.extend_from_slice(&1u32.to_le_bytes());
    new_class(&mut data, version, b"CDataMoji");
    base_with(&mut data, version, 0, 2);
    reals(&mut data, &[1.0, 2.0, 3.0, 4.0]);
    data.extend_from_slice(&6u32.to_le_bytes()); // text type
    reals(&mut data, &[5.0, 6.0, 7.0, 8.0]);
    data.push(2);
    data.extend_from_slice(b"MS");
    data.push(4);
    data.extend_from_slice(&[0x93, 0xfa, 0x96, 0x7b]);
    new_class(&mut data, version, b"CDataSolid");
    base_with(&mut data, version, 0, 10);
    reals(&mut data, &[1.0, 1.5, 4.0, 4.5, 2.0, 2.5, 3.0, 3.5]);
    data.extend_from_slice(&0x00FF_8040u32.to_le_bytes());
    new_class(&mut data, version, b"CDataSolid");
    base_with(&mut data, version, 0, 9);
    reals(&mut data, &[1.0, 1.5, 4.0, 4.5, 2.0, 2.5, 3.0, 3.5]);
    new_class(&mut data, version, b"CDataBlock");
    base_with(&mut data, version, 0, 1);
    reals(&mut data, &[1.0, 2.0, 3.0, 4.0, 0.5]);
    data.extend_from_slice(&42u32.to_le_bytes());
    data.extend_from_slice(&0u32.to_le_bytes()); // no block defs

    let doc = parse_document(&data).unwrap();
    assert_eq!(doc.entities.len(), 5);
    match &doc.entities[0] {
        Entity::Arc(v) => {
            assert_eq!(num(v.center_x), 1.0);
            assert_eq!(num(v.center_y), 2.0);
            assert_eq!(num(v.radius), 3.0);
            assert_eq!(num(v.start_angle), 0.5);
            assert_eq!(num(v.arc_angle), 1.5);
            assert_eq!(num(v.tilt_angle), 0.25);
            assert_eq!(num(v.flatness), 0.75);
            assert!(v.is_full_circle);
            assert_eq!(v.base.pen_style, 2);
            assert_eq!(v.base.pen_color, 3);
        }
        other => panic!("expected ARC, got {:?}", other),
    }
    match &doc.entities[1] {
        Entity::Text(v) => {
            assert_eq!(num(v.start_x), 1.0);
            assert_eq!(num(v.end_y), 4.0);
            assert_eq!(v.text_type, 6);
            assert_eq!(num(v.size_x), 5.0);
            assert_eq!(num(v.size_y), 6.0);
            assert_eq!(num(v.spacing), 7.0);
            assert_eq!(num(v.angle), 8.0);
            assert_eq!(v.font_name, "MS");
            assert_eq!(v.content, "\u{65E5}\u{672C}");
        }
        other => panic!("expected TEXT, got {:?}", other),
    }
    match &doc.entities[2] {
        Entity::Solid(v) => {
            assert_eq!(num(v.point1_x), 1.0);
            assert_eq!(num(v.point1_y), 1.5);
            assert_eq!(num(v.point4_x), 4.0);
            assert_eq!(num(v.point4_y), 4.5);
            assert_eq!(num(v.point2_x), 2.0);
            assert_eq!(num(v.point2_y), 2.5);
            assert_eq!(num(v.point3_x), 3.0);
            assert_eq!(num(v.point3_y), 3.5);
            assert_eq!(v.color, Some(0x00FF_8040));
        }
        other => panic!("expected SOLID, got {:?}", other),
    }
    match &doc.entities[3] {
        Entity::Solid(v) => assert_eq!(v.color, None),
        other => panic!("expected SOLID, got {:?}", other),
    }
    match &doc.entities[4] {
        Entity::Block(v) => {
            assert_eq!(num(v.ref_x), 1.0);
            assert_eq!(num(v.ref_y), 2.0);
            assert_eq!(num(v.scale_x), 3.0);
            assert_eq!(num(v.scale_y), 4.0);
            assert_eq!(num(v.rotation), 0.5);
            assert_eq!(v.def_number, 42);
        }
        other => panic!("expected BLOCK, got {:?}", other),
    }
    let counts = entity_counts(&doc.entities);
    assert_eq!(counts.circle, 1);
    assert_eq!(counts.arc, 0);
    assert_eq!(counts.get("CIRCLE"), Some(1));
    assert_eq!(counts.get("ARC"), None);
    assert_eq!(counts.solid, 2);
    assert_eq!(counts.block, 1);
    assert_eq!(counts.text, 1);
}

#[test]
fn old_versions_store_less() {
    let version = 350;
    let mut data = header_bytes(version);
    data.extend_from_slice(&2u16.to_le_bytes());
    new_class(&mut data, version, b"CDataSen");
    line_payload(&mut data, version, 10.0);
    new_class(&mut data, version, b"CDataSunpou");
    base_with(&mut data, version, 1, 1);
    line_payload(&mut data, version, 11.0);
    base_with(&mut data, version, 1, 1);
    reals(&mut data, &[0.0, 0.0, 0.0, 0.0]);
    data.extend_from_slice(&0u32.to_le_bytes());
    reals(&mut data, &[1.0, 1.0, 0.0, 0.0]);
    data.push(0);
    data.push(1);
    data.push(b'7');
    data.extend_from_slice(&0u32.to_le_bytes()); // no block defs
    data.extend(std::iter::repeat(0u8).take(24));

    let doc = parse_document(&data).unwrap();
    assert_eq!(doc.entities.len(), 2);
    match &doc.entities[0] {
        Entity::Line(v) => {
            assert_eq!(v.base.pen_width, 0);
            assert_eq!(v.base.layer, 3);
            assert_eq!(num(v.start_x), 10.0);
        }
        other => panic!("expected LINE, got {:?}", other),
    }
    match &doc.entities[1] {
        Entity::Dimension(v) => {
            assert_eq!(v.sxf_mode, None);
            assert!(v.aux_lines.is_empty());
            assert!(v.aux_points.is_empty());
            assert_eq!(num(v.line.start_x), 11.0);
            assert_eq!(v.text.content, "7");
        }
        other => panic!("expected DIMENSION, got {:?}", other),
    }
    assert_eq!(entity_counts(&doc.entities).dimension, 1);
}

fn block_def_bytes(data: &mut Vec<u8>, version: u32, number: u32, name: &[u8], lines: u16) {
    new_class(data, version, b"CDataList");
    base_with(data, version, 1, 1);
    data.extend_from_slice(&number.to_le_bytes());
    data.extend_from_slice(&1u32.to_le_bytes()); // is referenced
    data.extend_from_slice(&0u32.to_le_bytes()); // time stamp
    data.push(name.len() as u8);
    data.extend_from_slice(name);
    data.extend_from_slice(&lines.to_le_bytes());
    for i in 0..lines {
        if i == 0 {
            new_class(data, version, b"CDataSen");
        } else {
            data.extend_from_slice(&0x8001u16.to_le_bytes());
        }
        line_payload(data, version, i as f64);
    }
}

fn one_line_list(version: u32) -> Vec<u8> {
    let mut data = header_bytes(version);
    data.extend_from_slice(&1u16.to_le_bytes());
    new_class(&mut data, version, b"CDataSen");
    line_payload(&mut data, version, 10.0);
    data
}

#[test]
fn block_defs_hold_their_own_lists() {
    let version = 600;
    let mut data = one_line_list(version);
    data.extend_from_slice(&3u32.to_le_bytes());
    block_def_bytes(&mut data, version, 11, b"A", 2);
    data.extend_from_slice(&0x8000u16.to_le_bytes()); // holds nothing
    block_def_bytes(&mut data, version, 12, b"", 0);
    let doc = parse_document(&data).unwrap();
    assert_eq!(doc.block_defs.len(), 2);
    assert_eq!(doc.block_defs[0].number, 11);
    assert!(doc.block_defs[0].is_referenced);
    assert_eq!(doc.block_defs[0].name, "A");
    assert_eq!(doc.block_defs[0].entities.len(), 2);
    assert_eq!(doc.block_defs[1].number, 12);
    assert_eq!(doc.block_defs[1].name, "");
    assert!(doc.block_defs[1].entities.is_empty());
}

#[test]
fn block_defs_stop_at_the_first_broken_record() {
    let version = 600;
    let mut data = one_line_list(version);
    data.extend_from_slice(&3u32.to_le_bytes());
    block_def_bytes(&mut data, version, 11, b"A", 1);
    block_def_bytes(&mut data, version, 12, b"B", 1);
    data.truncate(data.len() - 60);
    let doc = parse_document(&data).unwrap();
    assert_eq!(doc.entities.len(), 1);
    assert_eq!(doc.block_defs.len(), 2);
    assert_eq!(doc.block_defs[1].number, 12);
    assert!(doc.block_defs[1].entities.is_empty());

    let mut data = one_line_list(version);
    data.extend_from_slice(&3u32.to_le_bytes());
    block_def_bytes(&mut data, version, 11, b"A", 1);
    data.extend_from_slice(&[0xFF, 0xFF, 0x58]);
    let doc = parse_document(&data).unwrap();
    assert_eq!(doc.block_defs.len(), 1);
}

#[test]
fn too_many_block_defs_are_not_read() {
    let version = 600;
    let mut data = one_line_list(version);
    data.extend_from_slice(&10_001u32.to_le_bytes());
    block_def_bytes(&mut data, version, 11, b"A", 1);
    let doc = parse_document(&data).unwrap();
    assert_eq!(doc.entities.len(), 1);
    assert!(doc.block_defs.is_empty());

    let mut data = one_line_list(version);
    data.extend_from_slice(&[1, 0]);
    let doc = parse_document(&data).unwrap();
    assert!(doc.block_defs.is_empty());
}

#[test]
fn parsing_twice_gives_the_same_document() {
    let data = build_minimal_jww_with_dimension();
    assert_eq!(parse_document(&data).unwrap(), parse_document(&data).unwrap());
}

#[test]
fn validation_counts_and_orders() {
    let version = 600;
    let mut data = header_bytes(version);
    let refs = [9u32, 3, 9, 11, 5, 3];
    data.extend_from_slice(&(refs.len() as u16).to_le_bytes());
    for (i, n) in refs.iter().enumerate() {
        if i == 0 {
            new_class(&mut data, version, b"CDataBlock");
        } else {
            data.extend_from_slice(&0x8001u16.to_le_bytes());
        }
        base_with(&mut data, version, 1, 1);
        reals(&mut data, &[0.0, 0.0, 1.0, 1.0, 0.0]);
        data.extend_from_slice(&n.to_le_bytes());
    }
    data.extend_from_slice(&1u32.to_le_bytes());
    new_class(&mut data, version, b"CDataList");
    base_with(&mut data, version, 1, 1);
    data.extend_from_slice(&11u32.to_le_bytes());
    data.extend_from_slice(&1u32.to_le_bytes());
    data.extend_from_slice(&0u32.to_le_bytes());
    data.push(0);
    data.extend_from_slice(&1u16.to_le_bytes());
    new_class(&mut data, version, b"CDataBlock");
    base_with(&mut data, version, 1, 1);
    reals(&mut data, &[0.0, 0.0, 1.0, 1.0, 0.0]);
    data.extend_from_slice(&2u32.to_le_bytes());

    let doc = parse_document(&data).unwrap();
    assert_eq!(doc.entities.len(), 6);
    assert_eq!(doc.block_defs.len(), 1);
    assert_eq!(doc.block_defs[0].entities.len(), 1);
    let first = validate_block_references(&doc);
    assert_eq!(first.total_references, 7);
    assert_eq!(first.resolved_references, 1);
    assert_eq!(first.unresolved_def_numbers, vec![2, 3, 5, 9]);
    assert!(first.has_unresolved());
    let second = validate_block_references(&doc);
    assert_eq!(first, second);
    assert_eq!(resolve_block_name(11, &doc.block_defs), Some(""));
}

#[test]
fn of_two_defs_with_one_number_the_first_resolves_and_the_last_is_mapped() {
    let defs = vec![
        BlockDef {
            base: EntityBase::default(),
            number: 3,
            is_referenced: false,
            name: "first".to_string(),
            entities: vec![],
        },
        BlockDef {
            base: EntityBase::default(),
            number: 3,
            is_referenced: false,
            name: "last".to_string(),
            entities: vec![],
        },
    ];
    assert_eq!(resolve_block_name(3, &defs), Some("first"));
    assert_eq!(block_def_name_map(&defs).get(&3).map(String::as_str), Some("last"));
    assert_eq!(block_def_name_map(&defs).len(), 1);
}

fn build_minimal_jww_with_block_def() -> Vec<u8> {
    let mut data = Vec::<u8>::new();
    data.extend_from_slice(b"JwwData.");
    data.extend_from_slice(&600u32.to_le_bytes());

    // memo CString: empty
    data.push(0);

    data.extend_from_slice(&0u32.to_le_bytes()); // paper size
    data.extend_from_slice(&0u32.to_le_bytes()); // write layer group

    for _ in 0..16 {
        data.extend_from_slice(&0u32.to_le_bytes()); // state
        data.extend_from_slice(&0u32.to_le_bytes()); // write layer
        data.extend_from_slice(&1.0f64.to_le_bytes()); // scale
        data.extend_from_slice(&0u32.to_le_bytes()); // protect
        for _ in 0..16 {
            data.extend_from_slice(&0u32.to_le_bytes()); // layer state
            data.extend_from_slice(&0u32.to_le_bytes()); // layer protect
        }
    }

    // entity list count (WORD)
    data.extend_from_slice(&1u16.to_le_bytes());

    // class definition: CDataBlock
    data.extend_from_slice(&0xFFFFu16.to_le_bytes());
    data.extend_from_slice(&600u16.to_le_bytes());
    let entity_class = b"CDataBlock";
    data.extend_from_slice(&(entity_class.len() as u16).to_le_bytes());
    data.extend_from_slice(entity_class);

    // EntityBase for block insert
    data.extend_from_slice(&0u32.to_le_bytes()); // group
    data.push(1); // pen_style
    data.extend_from_slice(&1u16.to_le_bytes()); // pen_color
    data.extend_from_slice(&1u16.to_le_bytes()); // pen_width
    data.extend_from_slice(&0u16.to_le_bytes()); // layer
    data.extend_from_slice(&0u16.to_le_bytes()); // layer_group
    data.extend_from_slice(&0u16.to_le_bytes()); // flag

    // Block insert payload: ref_x, ref_y, scale_x, scale_y, rotation, def_number
    data.extend_from_slice(&0.0f64.to_le_bytes()); // ref_x
    data.extend_from_slice(&0.0f64.to_le_bytes()); // ref_y
    data.extend_from_slice(&1.0f64.to_le_bytes()); // scale_x
    data.extend_from_slice(&1.0f64.to_le_bytes()); // scale_y
    data.extend_from_slice(&0.0f64.to_le_bytes()); // rotation
    data.extend_from_slice(&1u32.to_le_bytes()); // def_number

    // block def count (DWORD)
    data.extend_from_slice(&1u32.to_le_bytes());

    // class definition: CDataList
    data.extend_from_slice(&0xFFFFu16.to_le_bytes());
    data.extend_from_slice(&600u16.to_le_bytes());
    let class_name = b"CDataList";
    data.extend_from_slice(&(class_name.len() as u16).to_le_bytes());
    data.extend_from_slice(class_name);

    // EntityBase
    data.extend_from_slice(&0u32.to_le_bytes()); // group
    data.push(1); // pen_style
    data.extend_from_slice(&1u16.to_le_bytes()); // pen_color
    data.extend_from_slice(&1u16.to_le_bytes()); // pen_width
    data.extend_from_slice(&0u16.to_le_bytes()); // layer
    data.extend_from_slice(&0u16.to_le_bytes()); // layer_group
    data.extend_from_slice(&0u16.to_le_bytes()); // flag

    data.extend_from_slice(&1u32.to_le_bytes()); // number
    data.extend_from_slice(&0u32.to_le_bytes()); // is_referenced
    data.extend_from_slice(&0u32.to_le_bytes()); // ctime

    // CString "BLK"
    data.push(3);
    data.write_all(b"BLK").unwrap();

    // nested entity list count (WORD)
    data.extend_from_slice(&0u16.to_le_bytes());

    data
}

fn build_minimal_jww_with_dimension() -> Vec<u8> {
    let mut data = Vec::<u8>::new();
    data.extend_from_slice(b"JwwData.");
    data.extend_from_slice(&600u32.to_le_bytes());
    data.push(0); // memo
    data.extend_from_slice(&0u32.to_le_bytes()); // paper size
    data.extend_from_slice(&0u32.to_le_bytes()); // write layer group

    for _ in 0..16 {
        data.extend_from_slice(&0u32.to_le_bytes()); // group state
        data.extend_from_slice(&0u32.to_le_bytes()); // write layer
        data.extend_from_slice(&1.0f64.to_le_bytes()); // scale
        data.extend_from_slice(&0u32.to_le_bytes()); // protect
        for _ in 0..16 {
            data.extend_from_slice(&0u32.to_le_bytes()); // layer state
            data.extend_from_slice(&0u32.to_le_bytes()); // layer protect
        }
    }

    data.extend_from_slice(&1u16.to_le_bytes()); // entity count
    data.extend_from_slice(&0xFFFFu16.to_le_bytes()); // new class
    data.extend_from_slice(&600u16.to_le_bytes()); // schema
    let class_name = b"CDataSunpou";
    data.extend_from_slice(&(class_name.len() as u16).to_le_bytes());
    data.extend_from_slice(class_name);

    // Dimension base
    append_entity_base(&mut data);
    // Dimension line
    append_entity_base(&mut data);
    data.extend_from_slice(&0.0f64.to_le_bytes()); // start_x
    data.extend_from_slice(&0.0f64.to_le_bytes()); // start_y
    data.extend_from_slice(&10.0f64.to_le_bytes()); // end_x
    data.extend_from_slice(&0.0f64.to_le_bytes()); // end_y

    // Dimension text
    append_entity_base(&mut data);
    data.extend_from_slice(&0.0f64.to_le_bytes()); // start_x
    data.extend_from_slice(&0.0f64.to_le_bytes()); // start_y
    data.extend_from_slice(&0.0f64.to_le_bytes()); // end_x
    data.extend_from_slice(&0.0f64.to_le_bytes()); // end_y
    data.extend_from_slice(&0u32.to_le_bytes()); // text_type
    data.extend_from_slice(&1.0f64.to_le_bytes()); // size_x
    data.extend_from_slice(&1.0f64.to_le_bytes()); // size_y
    data.extend_from_slice(&0.0f64.to_le_bytes()); // spacing
    data.extend_from_slice(&0.0f64.to_le_bytes()); // angle
    data.push(0); // font_name cstring
    data.push(4); // content cstring len
    data.write_all(b"1000").unwrap();

    // version >= 420 payload
    data.extend_from_slice(&0u16.to_le_bytes()); // sxf mode
    for _ in 0..2 {
        append_entity_base(&mut data);
        data.extend_from_slice(&0.0f64.to_le_bytes());
        data.extend_from_slice(&0.0f64.to_le_bytes());
        data.extend_from_slice(&0.0f64.to_le_bytes());
        data.extend_from_slice(&0.0f64.to_le_bytes());
    }
    for _ in 0..4 {
        append_entity_base(&mut data);
        data.extend_from_slice(&0.0f64.to_le_bytes()); // x
        data.extend_from_slice(&0.0f64.to_le_bytes()); // y
        data.extend_from_slice(&0u32.to_le_bytes()); // is_temporary
    }

    data.extend_from_slice(&0u32.to_le_bytes()); // block def count
    data
}

fn append_entity_base(data: &mut Vec<u8>) {
    data.extend_from_slice(&0u32.to_le_bytes()); // group
    data.push(1); // pen_style
    data.extend_from_slice(&1u16.to_le_bytes()); // pen_color
    data.extend_from_slice(&1u16.to_le_bytes()); // pen_width
    data.extend_from_slice(&0u16.to_le_bytes()); // layer
    data.extend_from_slice(&0u16.to_le_bytes()); // layer_group
    data.extend_from_slice(&0u16.to_le_bytes()); // flag
}

fn build_minimal_jww_with_unresolved_block_ref() -> Vec<u8> {
    let mut data = Vec::<u8>::new();
    data.extend_from_slice(b"JwwData.");
    data.extend_from_slice(&600u32.to_le_bytes());
    data.push(0); // memo
    data.extend_from_slice(&0u32.to_le_bytes()); // paper size
    data.extend_from_slice(&0u32.to_le_bytes()); // write layer group

    for _ in 0..16 {
        data.extend_from_slice(&0u32.to_le_bytes()); // state
        data.extend_from_slice(&0u32.to_le_bytes()); // write layer
        data.extend_from_slice(&1.0f64.to_le_bytes()); // scale
        data.extend_from_slice(&0u32.to_le_bytes()); // protect
        for _ in 0..16 {
            data.extend_from_slice(&0u32.to_le_bytes()); // layer state
            data.extend_from_slice(&0u32.to_le_bytes()); // layer protect
        }
    }

    data.extend_from_slice(&1u16.to_le_bytes()); // entity count
    data.extend_from_slice(&0xFFFFu16.to_le_bytes()); // new class
    data.extend_from_slice(&600u16.to_le_bytes()); // schema
    let class_name = b"CDataBlock";
    data.extend_from_slice(&(class_name.len() as u16).to_le_bytes());
    data.extend_from_slice(class_name);

    append_entity_base(&mut data);
    data.extend_from_slice(&0.0f64.to_le_bytes()); // ref_x
    data.extend_from_slice(&0.0f64.to_le_bytes()); // ref_y
    data.extend_from_slice(&1.0f64.to_le_bytes()); // scale_x
    data.extend_from_slice(&1.0f64.to_le_bytes()); // scale_y
    data.extend_from_slice(&0.0f64.to_le_bytes()); // rotation
    data.extend_from_slice(&99u32.to_le_bytes()); // unresolved def_number

    data.extend_from_slice(&0u32.to_le_bytes()); // block def count
    data
}
